use pattern_search::rabin_karp::RabinKarp;
use pattern_search::search::Search;
use pattern_search::shift_and::{ShiftAnd, CAPACITY};
use pattern_search::test_utils::all_tests;

#[test]
fn common_cases() {
    assert!(all_tests::<ShiftAnd>());
}

#[test]
fn lib_common_cases() {
    assert!(all_tests::<RabinKarp>());
}

#[test]
fn max_pat_length_test() {
    let pattern = "a".repeat(CAPACITY);
    let text = format!("xx{pattern}yy{pattern}zz{pattern}");

    let mut s = ShiftAnd::new(text.as_bytes(), pattern.as_bytes());
    assert_eq!(s.search(), Some(2));
    assert_eq!(s.search(), Some(68));
    assert_eq!(s.search(), Some(134));
    assert_eq!(s.search(), None);
}
