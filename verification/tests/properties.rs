use pattern_search::hasher::{Adler32Hasher, RollingHasher};
use pattern_search::rabin_karp::RabinKarp;
use pattern_search::search::{Search, SearchExt};
use pattern_search::shift_and::{ShiftAnd, CAPACITY};

type Rk<'t, 'p> = RabinKarp<'t, 'p>;

fn collect_matches<'t, 'p, S: Search<'t, 'p>>(text: &'t [u8], pattern: &'p [u8]) -> Vec<usize> {
    let mut s = S::new(text, pattern);
    let mut found = Vec::new();
    while let Some(i) = s.search() {
        found.push(i);
    }
    found
}

fn naive_matches(text: &[u8], pattern: &[u8]) -> Vec<usize> {
    let mut found = Vec::new();
    if pattern.len() > text.len() {
        return found;
    }
    for s in 0..=text.len() - pattern.len() {
        if &text[s..s + pattern.len()] == pattern {
            found.push(s);
        }
    }
    found
}

#[test]
fn round_trip_all_occurrences() {
    // Every occurrence is reported, in increasing order, ending in None.
    let cases: &[(&str, &str)] = &[
        ("BABAB", "A"),
        ("aaaa", "aa"),
        ("XXabcYYabcZZabc", "abc"),
        ("oxoxoxoxoxoxoxoxoxoxoxoy", "ox"),
        ("mississippi", "issi"),
        ("abc", "abc"),
    ];
    for (text, pattern) in cases {
        let expected = naive_matches(text.as_bytes(), pattern.as_bytes());
        assert_eq!(
            collect_matches::<ShiftAnd>(text.as_bytes(), pattern.as_bytes()),
            expected
        );
        assert_eq!(
            collect_matches::<Rk>(text.as_bytes(), pattern.as_bytes()),
            expected
        );
    }
}

#[test]
fn exhaustion_is_terminal_shift_and() {
    let mut s = ShiftAnd::new(b"BABAB", b"A");
    assert_eq!(s.search(), Some(1));
    assert_eq!(s.search(), Some(3));
    assert_eq!(s.search(), None);
    assert_eq!(s.search(), None);
    assert_eq!(s.search(), None);
}

#[test]
fn exhaustion_is_terminal_rabin_karp() {
    let mut s: Rk = Search::new(b"BABAB", b"A");
    assert_eq!(s.search(), Some(1));
    assert_eq!(s.search(), Some(3));
    assert_eq!(s.search(), None);
    assert_eq!(s.search(), None);
    assert_eq!(s.search(), None);
}

#[test]
fn empty_pattern_first_call() {
    let mut s = ShiftAnd::new(b"anything", b"");
    assert_eq!(s.search(), Some(0));
    let mut s: Rk = Search::new(b"anything", b"");
    assert_eq!(s.search(), Some(0));
}

#[test]
fn no_match() {
    let mut s = ShiftAnd::new(b"abc", b"xyz");
    assert_eq!(s.search(), None);
    let mut s: Rk = Search::new(b"abc", b"xyz");
    assert_eq!(s.search(), None);
}

#[test]
fn cross_algorithm_equivalence() {
    let cases: &[(&str, &str)] = &[
        ("", ""),
        ("", "a"),
        ("abcABCabc", "A"),
        ("abcABCabc", "Z"),
        ("BABAB", "A"),
        ("BABAB", "BAB"),
        ("XXabcYYabcZZabc", "abc"),
        ("aaaaaaaaaa", "aaa"),
        ("oxoxoxoxoxoxoxoxoxoxoxoy", "oy"),
        ("mississippi", "ss"),
    ];
    for (text, pattern) in cases {
        if pattern.is_empty() {
            // The two algorithms agree on the first reply only.
            let mut sa = ShiftAnd::new(text.as_bytes(), pattern.as_bytes());
            let mut rk: Rk = Search::new(text.as_bytes(), pattern.as_bytes());
            assert_eq!(sa.search(), rk.search());
        } else {
            assert_eq!(
                collect_matches::<ShiftAnd>(text.as_bytes(), pattern.as_bytes()),
                collect_matches::<Rk>(text.as_bytes(), pattern.as_bytes())
            );
        }
    }
}

#[test]
fn capacity_boundary() {
    let at_limit = "b".repeat(CAPACITY);
    let over_limit = "b".repeat(CAPACITY + 1);
    assert!(<ShiftAnd as Search>::pattern_fits(at_limit.as_bytes()));
    assert!(!<ShiftAnd as Search>::pattern_fits(over_limit.as_bytes()));
    // A pattern of exactly the word width constructs and searches.
    let text = format!("{at_limit}c");
    let mut s = ShiftAnd::new(text.as_bytes(), at_limit.as_bytes());
    assert_eq!(s.search(), Some(0));
    assert_eq!(s.search(), None);
    // Rabin-Karp has no capacity limit.
    assert!(<Rk as Search>::pattern_fits(over_limit.as_bytes()));
}

#[test]
fn scenario_upper_a() {
    assert_eq!(collect_matches::<ShiftAnd>(b"abcABCabc", b"A"), vec![3]);
    assert_eq!(collect_matches::<Rk>(b"abcABCabc", b"A"), vec![3]);
}

#[test]
fn scenario_interleaved() {
    assert_eq!(collect_matches::<ShiftAnd>(b"BABAB", b"A"), vec![1, 3]);
    assert_eq!(collect_matches::<Rk>(b"BABAB", b"A"), vec![1, 3]);
}

#[test]
fn scenario_three_blocks() {
    assert_eq!(
        collect_matches::<ShiftAnd>(b"XXabcYYabcZZabc", b"abc"),
        vec![2, 7, 12]
    );
    assert_eq!(
        collect_matches::<Rk>(b"XXabcYYabcZZabc", b"abc"),
        vec![2, 7, 12]
    );
}

#[test]
fn scenario_empty_both() {
    // Both algorithms report the empty pattern at position zero of the
    // empty text.
    let mut sa = ShiftAnd::new(b"", b"");
    assert_eq!(sa.search(), Some(0));
    let mut rk: Rk = Search::new(b"", b"");
    assert_eq!(rk.search(), Some(0));
}

#[test]
fn scenario_late_match() {
    assert_eq!(
        collect_matches::<ShiftAnd>(b"oxoxoxoxoxoxoxoxoxoxoxoy", b"oy"),
        vec![22]
    );
    assert_eq!(
        collect_matches::<Rk>(b"oxoxoxoxoxoxoxoxoxoxoxoy", b"oy"),
        vec![22]
    );
}

#[test]
fn empty_pattern_shift_and_repeats_the_start() {
    let mut s = ShiftAnd::new(b"ab", b"");
    assert_eq!(s.search(), Some(0));
    assert_eq!(s.search(), Some(0));
    assert_eq!(s.search(), Some(0));
}

#[test]
fn empty_pattern_rabin_karp_enumerates_every_position() {
    let mut s: Rk = Search::new(b"ab", b"");
    assert_eq!(s.search(), Some(0));
    assert_eq!(s.search(), Some(1));
    assert_eq!(s.search(), Some(2));
    assert_eq!(s.search(), None);
    assert_eq!(s.search(), None);
}

#[test]
fn count_matches() {
    let sa = ShiftAnd::new(b"XXabcYYabcZZabc", b"abc");
    assert_eq!(sa.count(), 3);
    let rk: Rk = Search::new(b"XXabcYYabcZZabc", b"abc");
    assert_eq!(rk.count(), 3);
    let sa = ShiftAnd::new(b"abc", b"xyz");
    assert_eq!(sa.count(), 0);
}

#[test]
fn adler_hasher_matches_reference_checksum() {
    // The Adler-32 of "abc" is a published constant; a broken adapter
    // could not reproduce it.
    let mut h = Adler32Hasher::new();
    h.update_buffer(b"abc");
    assert_eq!(h.hash(), 0x024d_0127);
    // An empty context hashes to 1, Adler-32's initial value.
    let e = Adler32Hasher::new();
    assert_eq!(e.hash(), 1);
}

#[test]
fn adler_hasher_agrees_with_crate() {
    let mut h = Adler32Hasher::new();
    h.update_buffer(b"the quick brown fox");
    assert_eq!(
        h.hash(),
        adler32::RollingAdler32::from_buffer(b"the quick brown fox").hash()
    );
}

#[test]
fn adler_hasher_rolls() {
    // Feeding a window and removing its oldest byte equals hashing the
    // shorter window directly.
    let mut h = Adler32Hasher::new();
    h.update_buffer(b"abcd");
    h.remove(4, b'a');
    let mut expect = Adler32Hasher::new();
    expect.update_buffer(b"bcd");
    assert_eq!(h.hash(), expect.hash());
}

#[test]
fn adler_hasher_rolls_at_window_limit() {
    // Removal is promised only up to windows of 65521 bytes, the
    // checksum's modulus; at exactly that length it is still exact.
    let window: Vec<u8> = (0..65521u32).map(|i| (i % 251) as u8).collect();
    let mut h = Adler32Hasher::new();
    h.update_buffer(&window);
    h.remove(window.len(), window[0]);
    let mut expect = Adler32Hasher::new();
    expect.update_buffer(&window[1..]);
    assert_eq!(h.hash(), expect.hash());
}

#[test]
fn adler_hasher_update_byte_by_byte() {
    let mut h = Adler32Hasher::new();
    h.update(b'x');
    h.update(b'y');
    let mut expect = Adler32Hasher::new();
    expect.update_buffer(b"xy");
    assert_eq!(h.hash(), expect.hash());
    h.reset();
    assert_eq!(h.hash(), 1);
}

#[test]
fn rabin_karp_long_pattern() {
    // Rabin-Karp handles patterns past the bit-automaton capacity.
    let pattern = "c".repeat(CAPACITY + 8);
    let text = format!("xx{pattern}yy{pattern}");
    assert_eq!(
        collect_matches::<Rk>(text.as_bytes(), pattern.as_bytes()),
        vec![2, 76]
    );
}
