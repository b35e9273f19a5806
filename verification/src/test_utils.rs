//! The shared test corpus: concrete searches with their expected answers,
//! runnable against any searcher. Each runner reports whether every one of
//! its cases came out as expected; a searcher that cannot be built over a
//! case's pattern fails that case.
use vstd::prelude::*;
use vstd::string::StringSliceAdditionalSpecFns;

use crate::matching::{first_match_from, lemma_first_match_from_spec, match_chain, occurs_at};
use crate::search::Search;

verus! {

/// Whether the reply `found` of the model is what `expected` says.
pub open spec fn reports(expected: Option<usize>, found: Option<int>) -> bool {
    match (expected, found) {
        (Some(a), Some(b)) => a as int == b,
        (None, None) => true,
        _ => false,
    }
}

/// Runs one search over `(t, p)` and compares the first reported match
/// against `expected`: true exactly when the expectation agrees with the
/// model's answer (and the searcher accepts the pattern at all).
pub fn single<'t, 'p, S: Search<'t, 'p>>(t: &'t [u8], p: &'p [u8], expected: Option<usize>) -> (r:
    bool)
    ensures
        S::pattern_ok(p@) ==> (r <==> reports(expected, first_match_from(t@, p@, 0))),
        !S::pattern_ok(p@) ==> r == false,
{
    if !S::pattern_fits(p) {
        return false;
    }
    let mut s = S::new(t, p);
    let found = s.search();
    proof {
        vstd::slice::axiom_spec_len(t);
        lemma_first_match_from_spec(t@, p@, 0);
        if p@.len() == 0 {
            assert(t@.subrange(0, 0) =~= p@);
            assert(occurs_at(t@, p@, 0));
        }
    }
    match (found, expected) {
        (Some(a), Some(b)) => a == b,
        (None, None) => true,
        _ => false,
    }
}

/// Drives one searcher over `(t, p)` to exhaustion and compares the whole
/// reported sequence against `expected`: true exactly when `expected` is the
/// model's full enumeration (and the searcher accepts the pattern). An
/// empty pattern fails outright: no finite enumeration is defined for it.
pub fn multiple<'t, 'p, S: Search<'t, 'p>>(t: &'t [u8], p: &'p [u8], expected: &[usize]) -> (r:
    bool)
    ensures
        S::pattern_ok(p@) && p@.len() > 0 ==> (r <==> match_chain(t@, p@, 0)
            == expected@.map_values(|x: usize| x as int)),
        !S::pattern_ok(p@) || p@.len() == 0 ==> r == false,
{
    let ghost expect = expected@.map_values(|x: usize| x as int);
    if !S::pattern_fits(p) {
        return false;
    }
    if p.len() == 0 {
        return false;
    }
    proof {
        vstd::slice::axiom_spec_len(t);
    }
    let mut s = S::new(t, p);
    let ghost chain0 = match_chain(t@, p@, 0);
    let mut i: usize = 0;
    while i < expected.len()
        invariant
            s.wf(),
            s.text_view() == t@,
            s.pattern_view() == p@,
            0 <= s.progress(),
            1 <= p@.len(),
            i <= expected@.len(),
            expect == expected@.map_values(|x: usize| x as int),
            chain0 == match_chain(t@, p@, 0),
            match_chain(t@, p@, s.progress()) == chain0.subrange(i as int, chain0.len() as int),
            i <= chain0.len(),
            forall|k: int| 0 <= k < i ==> chain0[k] == expect[k],
        decreases expected@.len() - i,
    {
        let ghost mark = s.progress();
        let found = s.search();
        proof {
            vstd::slice::axiom_spec_len(t);
            crate::matching::lemma_match_chain_step(t@, p@, mark);
            lemma_first_match_from_spec(t@, p@, mark);
        }
        match found {
            Some(v) => {
                proof {
                    let rest = chain0.subrange(i as int, chain0.len() as int);
                    assert(rest[0] == v as int);
                    assert(rest.subrange(1, rest.len() as int) =~= chain0.subrange(
                        i + 1,
                        chain0.len() as int,
                    ));
                    assert(match_chain(t@, p@, s.progress()) =~= rest.subrange(
                        1,
                        rest.len() as int,
                    ));
                }
                if v != expected[i] {
                    proof {
                        if chain0 == expect {
                            assert(chain0[i as int] == expect[i as int]);
                        }
                    }
                    return false;
                }
            },
            None => {
                proof {
                    assert(chain0.subrange(i as int, chain0.len() as int).len() == 0);
                    if chain0 == expect {
                        assert(chain0.len() == expect.len());
                    }
                }
                return false;
            },
        }
        i = i + 1;
    }
    let ghost mark = s.progress();
    let found = s.search();
    proof {
        crate::matching::lemma_match_chain_step(t@, p@, mark);
    }
    match found {
        Some(_) => {
            proof {
                if chain0 == expect {
                    assert(chain0.len() == expect.len());
                }
            }
            false
        },
        None => {
            proof {
                assert(chain0.subrange(i as int, chain0.len() as int).len() == 0);
                assert(chain0 =~= expect);
            }
            true
        },
    }
}

/// One first-match corpus case, as the model states it: the searcher
/// accepts the pattern and `expected` is the model's first match over the
/// UTF-8 bytes of `t` and `p`.
pub open spec fn single_case_ok<'t, 'p, S: Search<'t, 'p>>(
    t: &str,
    p: &str,
    expected: Option<usize>,
) -> bool {
    S::pattern_ok(p.spec_bytes()) && reports(
        expected,
        first_match_from(t.spec_bytes(), p.spec_bytes(), 0),
    )
}

/// One full-enumeration corpus case, as the model states it: the searcher
/// accepts the non-empty pattern and `expected` is the model's whole chain
/// of matches.
pub open spec fn multiple_case_ok<'t, 'p, S: Search<'t, 'p>>(
    t: &str,
    p: &str,
    expected: Seq<int>,
) -> bool {
    S::pattern_ok(p.spec_bytes()) && p.spec_bytes().len() > 0 && match_chain(
        t.spec_bytes(),
        p.spec_bytes(),
        0,
    ) == expected
}

/// The basic corpus, stated over the model.
pub open spec fn basic_corpus<'t, 'p, S: Search<'t, 'p>>() -> bool {
    &&& single_case_ok::<S>("abcABCabc", "A", Some(3))
    &&& single_case_ok::<S>("abcABCabc", "Z", None)
    &&& single_case_ok::<S>("aaaaaaaaaaaaaaaaaaaaaaaaaaaaaab", "aaaab", Some(26))
}

/// The repeated-search corpus, stated over the model.
pub open spec fn multiple_occurrences_corpus<'t, 'p, S: Search<'t, 'p>>() -> bool {
    &&& multiple_case_ok::<S>("BABAB", "A", seq![1int, 3int])
    &&& multiple_case_ok::<S>("XXabcYYabcZZabc", "abc", seq![2int, 7int, 12int])
}

/// The single-occurrence corpus, stated over the model.
pub open spec fn single_occurrence_corpus<'t, 'p, S: Search<'t, 'p>>() -> bool {
    &&& single_case_ok::<S>("", "", Some(0))
    &&& single_case_ok::<S>("", "a", None)
    &&& single_case_ok::<S>("", "foo", None)
    &&& single_case_ok::<S>("fo", "foo", None)
    &&& single_case_ok::<S>("foo", "foo", Some(0))
    &&& single_case_ok::<S>("oofofoofooo", "f", Some(2))
    &&& single_case_ok::<S>("oofofoofooo", "foo", Some(4))
    &&& single_case_ok::<S>("barfoobarfoo", "foo", Some(3))
    &&& single_case_ok::<S>("foo", "", Some(0))
    &&& single_case_ok::<S>("foo", "o", Some(1))
    &&& single_case_ok::<S>("abcABCabc", "A", Some(3))
    &&& single_case_ok::<S>("jrzm6jjhorimglljrea4w3rlgosts0w2gia17hno2td4qd1jz", "jz", Some(47))
    &&& single_case_ok::<S>("ekkuk5oft4eq0ocpacknhwouic1uua46unx12l37nioq9wbpnocqks6", "ks6", Some(52))
    &&& single_case_ok::<S>("999f2xmimunbuyew5vrkla9cpwhmxan8o98ec", "98ec", Some(33))
    &&& single_case_ok::<S>("9lpt9r98i04k8bz6c6dsrthb96bhi", "96bhi", Some(24))
    &&& single_case_ok::<S>("55u558eqfaod2r2gu42xxsu631xf0zobs5840vl", "5840vl", Some(33))
    &&& single_case_ok::<S>("", "a", None)
    &&& single_case_ok::<S>("x", "a", None)
    &&& single_case_ok::<S>("x", "x", Some(0))
    &&& single_case_ok::<S>("abc", "a", Some(0))
    &&& single_case_ok::<S>("abc", "b", Some(1))
    &&& single_case_ok::<S>("abc", "c", Some(2))
    &&& single_case_ok::<S>("abc", "x", None)
    &&& single_case_ok::<S>("", "ab", None)
    &&& single_case_ok::<S>("bc", "ab", None)
    &&& single_case_ok::<S>("ab", "ab", Some(0))
    &&& single_case_ok::<S>("xab", "ab", Some(1))
    &&& single_case_ok::<S>("xa", "ab", None)
    &&& single_case_ok::<S>("", "abc", None)
    &&& single_case_ok::<S>("xbc", "abc", None)
    &&& single_case_ok::<S>("abc", "abc", Some(0))
    &&& single_case_ok::<S>("xabc", "abc", Some(1))
    &&& single_case_ok::<S>("xab", "abc", None)
    &&& single_case_ok::<S>("xabxc", "abc", None)
    &&& single_case_ok::<S>("", "abcd", None)
    &&& single_case_ok::<S>("xbcd", "abcd", None)
    &&& single_case_ok::<S>("abcd", "abcd", Some(0))
    &&& single_case_ok::<S>("xabcd", "abcd", Some(1))
    &&& single_case_ok::<S>("xyabc", "abcd", None)
    &&& single_case_ok::<S>("xbcqq", "abcqq", None)
    &&& single_case_ok::<S>("abcqq", "abcqq", Some(0))
    &&& single_case_ok::<S>("xabcqq", "abcqq", Some(1))
    &&& single_case_ok::<S>("xyabcq", "abcqq", None)
    &&& single_case_ok::<S>("xabxcqq", "abcqq", None)
    &&& single_case_ok::<S>("xabcqxq", "abcqq", None)
    &&& single_case_ok::<S>("", "01234567", None)
    &&& single_case_ok::<S>("32145678", "01234567", None)
    &&& single_case_ok::<S>("01234567", "01234567", Some(0))
    &&& single_case_ok::<S>("x01234567", "01234567", Some(1))
    &&& single_case_ok::<S>("x0123456x01234567", "01234567", Some(9))
    &&& single_case_ok::<S>("xx0123456", "01234567", None)
    &&& single_case_ok::<S>("", "0123456789", None)
    &&& single_case_ok::<S>("3214567844", "0123456789", None)
    &&& single_case_ok::<S>("0123456789", "0123456789", Some(0))
    &&& single_case_ok::<S>("x0123456789", "0123456789", Some(1))
    &&& single_case_ok::<S>("x012345678x0123456789", "0123456789", Some(11))
    &&& single_case_ok::<S>("xyz012345678", "0123456789", None)
    &&& single_case_ok::<S>("x01234567x89", "0123456789", None)
    &&& single_case_ok::<S>("", "0123456789012345", None)
    &&& single_case_ok::<S>("3214567889012345", "0123456789012345", None)
    &&& single_case_ok::<S>("0123456789012345", "0123456789012345", Some(0))
    &&& single_case_ok::<S>("x0123456789012345", "0123456789012345", Some(1))
    &&& single_case_ok::<S>("x012345678901234x0123456789012345", "0123456789012345", Some(17))
    &&& single_case_ok::<S>("", "01234567890123456789", None)
    &&& single_case_ok::<S>("32145678890123456789", "01234567890123456789", None)
    &&& single_case_ok::<S>("01234567890123456789", "01234567890123456789", Some(0))
    &&& single_case_ok::<S>("x01234567890123456789", "01234567890123456789", Some(1))
    &&& single_case_ok::<S>("x0123456789012345678x01234567890123456789", "01234567890123456789", Some(21))
    &&& single_case_ok::<S>("xyz0123456789012345678", "01234567890123456789", None)
    &&& single_case_ok::<S>("", "0123456789012345678901234567890", None)
    &&& single_case_ok::<S>("321456788901234567890123456789012345678911", "0123456789012345678901234567890", None)
    &&& single_case_ok::<S>("0123456789012345678901234567890", "0123456789012345678901234567890", Some(0))
    &&& single_case_ok::<S>("x0123456789012345678901234567890", "0123456789012345678901234567890", Some(1))
    &&& single_case_ok::<S>("x012345678901234567890123456789x0123456789012345678901234567890", "0123456789012345678901234567890", Some(32))
    &&& single_case_ok::<S>("xyz012345678901234567890123456789", "0123456789012345678901234567890", None)
    &&& single_case_ok::<S>("", "01234567890123456789012345678901", None)
    &&& single_case_ok::<S>("32145678890123456789012345678901234567890211", "01234567890123456789012345678901", None)
    &&& single_case_ok::<S>("01234567890123456789012345678901", "01234567890123456789012345678901", Some(0))
    &&& single_case_ok::<S>("x01234567890123456789012345678901", "01234567890123456789012345678901", Some(1))
    &&& single_case_ok::<S>("x0123456789012345678901234567890x01234567890123456789012345678901", "01234567890123456789012345678901", Some(33))
    &&& single_case_ok::<S>("xyz0123456789012345678901234567890", "01234567890123456789012345678901", None)
    &&& single_case_ok::<S>("xxxxxx012345678901234567890123456789012345678901234567890123456789012", "012345678901234567890123456789012345678901234567890123456789012", Some(6))
    &&& single_case_ok::<S>("", "0123456789012345678901234567890123456789", None)
    &&& single_case_ok::<S>("xx012345678901234567890123456789012345678901234567890123456789012", "0123456789012345678901234567890123456789", Some(2))
    &&& single_case_ok::<S>("xx012345678901234567890123456789012345678", "0123456789012345678901234567890123456789", None)
    &&& single_case_ok::<S>("xx012345678901234567890123456789012345678901234567890123456789012", "0123456789012345678901234567890123456xxx", None)
    &&& single_case_ok::<S>("xx0123456789012345678901234567890123456789012345678901234567890120123456789012345678901234567890123456xxx", "0123456789012345678901234567890123456xxx", Some(65))
    &&& single_case_ok::<S>("oxoxoxoxoxoxoxoxoxoxoxoy", "oy", Some(22))
    &&& single_case_ok::<S>("oxoxoxoxoxoxoxoxoxoxoxox", "oy", None)
}

/// Runs the basic corpus: first-match checks on short texts. True exactly
/// when [`basic_corpus`] holds of this searcher.
pub fn basic_tests<'t, 'p, S: Search<'t, 'p>>() -> (r: bool)
    ensures
        r == basic_corpus::<S>(),
{
    let mut ok = true;
    ok = ok && single::<S>("abcABCabc".as_bytes(), "A".as_bytes(), Some(3));
    ok = ok && single::<S>("abcABCabc".as_bytes(), "Z".as_bytes(), None);
    ok = ok && single::<S>("aaaaaaaaaaaaaaaaaaaaaaaaaaaaaab".as_bytes(), "aaaab".as_bytes(), Some(26));
    ok
}

/// Runs the repeated-search corpus: texts whose pattern occurs several
/// times, checked for the full reported sequence. True exactly when
/// [`multiple_occurrences_corpus`] holds of this searcher.
pub fn multiple_occurrences_tests<'t, 'p, S: Search<'t, 'p>>() -> (r: bool)
    ensures
        r == multiple_occurrences_corpus::<S>(),
{
    let mut ok = true;
    let mut e0: Vec<usize> = Vec::new();
    e0.push(1);
    e0.push(3);
    proof {
        assert(e0@.map_values(|x: usize| x as int) =~= seq![1int, 3int]);
    }
    ok = ok && multiple::<S>("BABAB".as_bytes(), "A".as_bytes(), e0.as_slice());
    let mut e1: Vec<usize> = Vec::new();
    e1.push(2);
    e1.push(7);
    e1.push(12);
    proof {
        assert(e1@.map_values(|x: usize| x as int) =~= seq![2int, 7int, 12int]);
    }
    ok = ok && multiple::<S>("XXabcYYabcZZabc".as_bytes(), "abc".as_bytes(), e1.as_slice());
    ok
}

/// Runs the single-occurrence corpus: a broad set of first-match checks,
/// including empty texts and patterns, one-byte strings and long patterns.
/// True exactly when [`single_occurrence_corpus`] holds of this searcher.
pub fn single_occurrence_tests<'t, 'p, S: Search<'t, 'p>>() -> (r: bool)
    ensures
        r == single_occurrence_corpus::<S>(),
{
    let mut ok = true;
    ok = ok && single::<S>("".as_bytes(), "".as_bytes(), Some(0));
    ok = ok && single::<S>("".as_bytes(), "a".as_bytes(), None);
    ok = ok && single::<S>("".as_bytes(), "foo".as_bytes(), None);
    ok = ok && single::<S>("fo".as_bytes(), "foo".as_bytes(), None);
    ok = ok && single::<S>("foo".as_bytes(), "foo".as_bytes(), Some(0));
    ok = ok && single::<S>("oofofoofooo".as_bytes(), "f".as_bytes(), Some(2));
    ok = ok && single::<S>("oofofoofooo".as_bytes(), "foo".as_bytes(), Some(4));
    ok = ok && single::<S>("barfoobarfoo".as_bytes(), "foo".as_bytes(), Some(3));
    ok = ok && single::<S>("foo".as_bytes(), "".as_bytes(), Some(0));
    ok = ok && single::<S>("foo".as_bytes(), "o".as_bytes(), Some(1));
    ok = ok && single::<S>("abcABCabc".as_bytes(), "A".as_bytes(), Some(3));
    ok = ok && single::<S>("jrzm6jjhorimglljrea4w3rlgosts0w2gia17hno2td4qd1jz".as_bytes(), "jz".as_bytes(), Some(47));
    ok = ok && single::<S>("ekkuk5oft4eq0ocpacknhwouic1uua46unx12l37nioq9wbpnocqks6".as_bytes(), "ks6".as_bytes(), Some(52));
    ok = ok && single::<S>("999f2xmimunbuyew5vrkla9cpwhmxan8o98ec".as_bytes(), "98ec".as_bytes(), Some(33));
    ok = ok && single::<S>("9lpt9r98i04k8bz6c6dsrthb96bhi".as_bytes(), "96bhi".as_bytes(), Some(24));
    ok = ok && single::<S>("55u558eqfaod2r2gu42xxsu631xf0zobs5840vl".as_bytes(), "5840vl".as_bytes(), Some(33));
    ok = ok && single::<S>("".as_bytes(), "a".as_bytes(), None);
    ok = ok && single::<S>("x".as_bytes(), "a".as_bytes(), None);
    ok = ok && single::<S>("x".as_bytes(), "x".as_bytes(), Some(0));
    ok = ok && single::<S>("abc".as_bytes(), "a".as_bytes(), Some(0));
    ok = ok && single::<S>("abc".as_bytes(), "b".as_bytes(), Some(1));
    ok = ok && single::<S>("abc".as_bytes(), "c".as_bytes(), Some(2));
    ok = ok && single::<S>("abc".as_bytes(), "x".as_bytes(), None);
    ok = ok && single::<S>("".as_bytes(), "ab".as_bytes(), None);
    ok = ok && single::<S>("bc".as_bytes(), "ab".as_bytes(), None);
    ok = ok && single::<S>("ab".as_bytes(), "ab".as_bytes(), Some(0));
    ok = ok && single::<S>("xab".as_bytes(), "ab".as_bytes(), Some(1));
    ok = ok && single::<S>("xa".as_bytes(), "ab".as_bytes(), None);
    ok = ok && single::<S>("".as_bytes(), "abc".as_bytes(), None);
    ok = ok && single::<S>("xbc".as_bytes(), "abc".as_bytes(), None);
    ok = ok && single::<S>("abc".as_bytes(), "abc".as_bytes(), Some(0));
    ok = ok && single::<S>("xabc".as_bytes(), "abc".as_bytes(), Some(1));
    ok = ok && single::<S>("xab".as_bytes(), "abc".as_bytes(), None);
    ok = ok && single::<S>("xabxc".as_bytes(), "abc".as_bytes(), None);
    ok = ok && single::<S>("".as_bytes(), "abcd".as_bytes(), None);
    ok = ok && single::<S>("xbcd".as_bytes(), "abcd".as_bytes(), None);
    ok = ok && single::<S>("abcd".as_bytes(), "abcd".as_bytes(), Some(0));
    ok = ok && single::<S>("xabcd".as_bytes(), "abcd".as_bytes(), Some(1));
    ok = ok && single::<S>("xyabc".as_bytes(), "abcd".as_bytes(), None);
    ok = ok && single::<S>("xbcqq".as_bytes(), "abcqq".as_bytes(), None);
    ok = ok && single::<S>("abcqq".as_bytes(), "abcqq".as_bytes(), Some(0));
    ok = ok && single::<S>("xabcqq".as_bytes(), "abcqq".as_bytes(), Some(1));
    ok = ok && single::<S>("xyabcq".as_bytes(), "abcqq".as_bytes(), None);
    ok = ok && single::<S>("xabxcqq".as_bytes(), "abcqq".as_bytes(), None);
    ok = ok && single::<S>("xabcqxq".as_bytes(), "abcqq".as_bytes(), None);
    ok = ok && single::<S>("".as_bytes(), "01234567".as_bytes(), None);
    ok = ok && single::<S>("32145678".as_bytes(), "01234567".as_bytes(), None);
    ok = ok && single::<S>("01234567".as_bytes(), "01234567".as_bytes(), Some(0));
    ok = ok && single::<S>("x01234567".as_bytes(), "01234567".as_bytes(), Some(1));
    ok = ok && single::<S>("x0123456x01234567".as_bytes(), "01234567".as_bytes(), Some(9));
    ok = ok && single::<S>("xx0123456".as_bytes(), "01234567".as_bytes(), None);
    ok = ok && single::<S>("".as_bytes(), "0123456789".as_bytes(), None);
    ok = ok && single::<S>("3214567844".as_bytes(), "0123456789".as_bytes(), None);
    ok = ok && single::<S>("0123456789".as_bytes(), "0123456789".as_bytes(), Some(0));
    ok = ok && single::<S>("x0123456789".as_bytes(), "0123456789".as_bytes(), Some(1));
    ok = ok && single::<S>("x012345678x0123456789".as_bytes(), "0123456789".as_bytes(), Some(11));
    ok = ok && single::<S>("xyz012345678".as_bytes(), "0123456789".as_bytes(), None);
    ok = ok && single::<S>("x01234567x89".as_bytes(), "0123456789".as_bytes(), None);
    ok = ok && single::<S>("".as_bytes(), "0123456789012345".as_bytes(), None);
    ok = ok && single::<S>("3214567889012345".as_bytes(), "0123456789012345".as_bytes(), None);
    ok = ok && single::<S>("0123456789012345".as_bytes(), "0123456789012345".as_bytes(), Some(0));
    ok = ok && single::<S>("x0123456789012345".as_bytes(), "0123456789012345".as_bytes(), Some(1));
    ok = ok && single::<S>("x012345678901234x0123456789012345".as_bytes(), "0123456789012345".as_bytes(), Some(17));
    ok = ok && single::<S>("".as_bytes(), "01234567890123456789".as_bytes(), None);
    ok = ok && single::<S>("32145678890123456789".as_bytes(), "01234567890123456789".as_bytes(), None);
    ok = ok && single::<S>("01234567890123456789".as_bytes(), "01234567890123456789".as_bytes(), Some(0));
    ok = ok && single::<S>("x01234567890123456789".as_bytes(), "01234567890123456789".as_bytes(), Some(1));
    ok = ok && single::<S>("x0123456789012345678x01234567890123456789".as_bytes(), "01234567890123456789".as_bytes(), Some(21));
    ok = ok && single::<S>("xyz0123456789012345678".as_bytes(), "01234567890123456789".as_bytes(), None);
    ok = ok && single::<S>("".as_bytes(), "0123456789012345678901234567890".as_bytes(), None);
    ok = ok && single::<S>("321456788901234567890123456789012345678911".as_bytes(), "0123456789012345678901234567890".as_bytes(), None);
    ok = ok && single::<S>("0123456789012345678901234567890".as_bytes(), "0123456789012345678901234567890".as_bytes(), Some(0));
    ok = ok && single::<S>("x0123456789012345678901234567890".as_bytes(), "0123456789012345678901234567890".as_bytes(), Some(1));
    ok = ok && single::<S>("x012345678901234567890123456789x0123456789012345678901234567890".as_bytes(), "0123456789012345678901234567890".as_bytes(), Some(32));
    ok = ok && single::<S>("xyz012345678901234567890123456789".as_bytes(), "0123456789012345678901234567890".as_bytes(), None);
    ok = ok && single::<S>("".as_bytes(), "01234567890123456789012345678901".as_bytes(), None);
    ok = ok && single::<S>("32145678890123456789012345678901234567890211".as_bytes(), "01234567890123456789012345678901".as_bytes(), None);
    ok = ok && single::<S>("01234567890123456789012345678901".as_bytes(), "01234567890123456789012345678901".as_bytes(), Some(0));
    ok = ok && single::<S>("x01234567890123456789012345678901".as_bytes(), "01234567890123456789012345678901".as_bytes(), Some(1));
    ok = ok && single::<S>("x0123456789012345678901234567890x01234567890123456789012345678901".as_bytes(), "01234567890123456789012345678901".as_bytes(), Some(33));
    ok = ok && single::<S>("xyz0123456789012345678901234567890".as_bytes(), "01234567890123456789012345678901".as_bytes(), None);
    ok = ok && single::<S>("xxxxxx012345678901234567890123456789012345678901234567890123456789012".as_bytes(), "012345678901234567890123456789012345678901234567890123456789012".as_bytes(), Some(6));
    ok = ok && single::<S>("".as_bytes(), "0123456789012345678901234567890123456789".as_bytes(), None);
    ok = ok && single::<S>("xx012345678901234567890123456789012345678901234567890123456789012".as_bytes(), "0123456789012345678901234567890123456789".as_bytes(), Some(2));
    ok = ok && single::<S>("xx012345678901234567890123456789012345678".as_bytes(), "0123456789012345678901234567890123456789".as_bytes(), None);
    ok = ok && single::<S>("xx012345678901234567890123456789012345678901234567890123456789012".as_bytes(), "0123456789012345678901234567890123456xxx".as_bytes(), None);
    ok = ok && single::<S>("xx0123456789012345678901234567890123456789012345678901234567890120123456789012345678901234567890123456xxx".as_bytes(), "0123456789012345678901234567890123456xxx".as_bytes(), Some(65));
    ok = ok && single::<S>("oxoxoxoxoxoxoxoxoxoxoxoy".as_bytes(), "oy".as_bytes(), Some(22));
    ok = ok && single::<S>("oxoxoxoxoxoxoxoxoxoxoxox".as_bytes(), "oy".as_bytes(), None);
    ok
}

/// Runs the whole corpus.
pub fn all_tests<'t, 'p, S: Search<'t, 'p>>() -> (r: bool)
    ensures
        r == (basic_corpus::<S>() && multiple_occurrences_corpus::<S>()
            && single_occurrence_corpus::<S>()),
{
    let basic = basic_tests::<S>();
    let multi = multiple_occurrences_tests::<S>();
    let one = single_occurrence_tests::<S>();
    basic && multi && one
}

} // verus!
