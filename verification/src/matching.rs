//! The mathematical model of substring matching: where a pattern occurs in a
//! text, which occurrence a resumable searcher must report next, and the full
//! sequence of positions that repeated calls enumerate.
use vstd::prelude::*;

verus! {

/// The pattern `p` occurs in the text `t` at start position `s`.
pub open spec fn occurs_at(t: Seq<u8>, p: Seq<u8>, s: int) -> bool {
    &&& 0 <= s
    &&& s + p.len() <= t.len()
    &&& t.subrange(s, s + p.len()) == p
}

/// The first position `s >= m` at which `p` occurs in `t`, if any.
///
/// This is what one call of `search` on a searcher whose progress mark is `m`
/// must report.
pub open spec fn first_match_from(t: Seq<u8>, p: Seq<u8>, m: int) -> Option<int>
    decreases t.len() + 1 - m when 0 <= m
{
    if m + p.len() > t.len() {
        None
    } else if occurs_at(t, p, m) {
        Some(m)
    } else {
        first_match_from(t, p, m + 1)
    }
}

/// All positions `s >= m` at which `p` occurs in `t`, in increasing order.
///
/// For a non-empty pattern this is the whole output of a searcher driven to
/// exhaustion from progress mark `m`: each reported position `s` moves the
/// mark to `s + 1`.
pub open spec fn match_chain(t: Seq<u8>, p: Seq<u8>, m: int) -> Seq<int>
    decreases t.len() + 1 - m when 0 <= m
{
    if m + p.len() > t.len() {
        Seq::empty()
    } else if occurs_at(t, p, m) {
        seq![m] + match_chain(t, p, m + 1)
    } else {
        match_chain(t, p, m + 1)
    }
}

/// `first_match_from` reports an occurrence and skips nothing: the reported
/// position is the least occurrence at or after `m`, and a `None` answer
/// means there is no occurrence at or after `m` at all.
pub proof fn lemma_first_match_from_spec(t: Seq<u8>, p: Seq<u8>, m: int)
    requires
        0 <= m,
    ensures
        match first_match_from(t, p, m) {
            Some(s) => {
                &&& occurs_at(t, p, s)
                &&& m <= s
                &&& forall|j: int| m <= j < s ==> !occurs_at(t, p, j)
            },
            None => forall|j: int| m <= j ==> !occurs_at(t, p, j),
        },
    decreases t.len() + 1 - m,
{
    if m + p.len() > t.len() {
        assert forall|j: int| m <= j implies !occurs_at(t, p, j) by {}
    } else if occurs_at(t, p, m) {
    } else {
        lemma_first_match_from_spec(t, p, m + 1);
    }
}

/// Identifies the answer of `first_match_from`: an occurrence at `s` with no
/// earlier occurrence at or after `m` is what the search from `m` reports.
pub proof fn lemma_first_match_from_is(t: Seq<u8>, p: Seq<u8>, m: int, s: int)
    requires
        0 <= m <= s,
        occurs_at(t, p, s),
        forall|j: int| m <= j < s ==> !occurs_at(t, p, j),
    ensures
        first_match_from(t, p, m) == Some(s),
{
    lemma_first_match_from_spec(t, p, m);
    match first_match_from(t, p, m) {
        Some(s2) => {
            if s2 < s {
                assert(!occurs_at(t, p, s2));
            }
            if s < s2 {
                assert(!occurs_at(t, p, s));
            }
        },
        None => {
            assert(!occurs_at(t, p, s));
        },
    }
}

/// When nothing at or after `m` is an occurrence, the search from `m`
/// reports exhaustion.
pub proof fn lemma_first_match_from_none(t: Seq<u8>, p: Seq<u8>, m: int)
    requires
        0 <= m,
        forall|j: int| m <= j ==> !occurs_at(t, p, j),
    ensures
        first_match_from(t, p, m) is None,
{
    lemma_first_match_from_spec(t, p, m);
    if first_match_from(t, p, m) is Some {
        let s = first_match_from(t, p, m)->Some_0;
        assert(!occurs_at(t, p, s));
    }
}

/// Exhaustion is terminal: when no occurrence lies at or after `m1`, none
/// lies at or after any later mark `m2` either.
pub proof fn lemma_exhaustion_monotone(t: Seq<u8>, p: Seq<u8>, m1: int, m2: int)
    requires
        0 <= m1 <= m2,
        first_match_from(t, p, m1) is None,
    ensures
        first_match_from(t, p, m2) is None,
{
    lemma_first_match_from_spec(t, p, m1);
    lemma_first_match_from_spec(t, p, m2);
    if first_match_from(t, p, m2) is Some {
        let s = first_match_from(t, p, m2)->Some_0;
        assert(occurs_at(t, p, s));
        assert(!occurs_at(t, p, s));
    }
}

/// One step of the enumeration: the chain from `m` starts with the first
/// occurrence at or after `m` (and is empty when there is none).
pub proof fn lemma_match_chain_step(t: Seq<u8>, p: Seq<u8>, m: int)
    requires
        0 <= m,
    ensures
        match first_match_from(t, p, m) {
            Some(s) => match_chain(t, p, m) == seq![s] + match_chain(t, p, s + 1),
            None => match_chain(t, p, m) == Seq::<int>::empty(),
        },
    decreases t.len() + 1 - m,
{
    if m + p.len() > t.len() {
    } else if occurs_at(t, p, m) {
    } else {
        lemma_match_chain_step(t, p, m + 1);
        match first_match_from(t, p, m + 1) {
            Some(s) => {
                assert(match_chain(t, p, m) == match_chain(t, p, m + 1));
            },
            None => {
                assert(match_chain(t, p, m) == match_chain(t, p, m + 1));
            },
        }
    }
}

/// A non-empty pattern has at most one occurrence per window start, so the
/// enumeration is no longer than the number of windows.
pub proof fn lemma_match_chain_len(t: Seq<u8>, p: Seq<u8>, m: int)
    requires
        0 <= m,
        1 <= p.len(),
    ensures
        match_chain(t, p, m).len() + m + p.len() <= t.len() + 1 || match_chain(t, p, m).len() == 0,
    decreases t.len() + 1 - m,
{
    if m + p.len() > t.len() {
    } else {
        lemma_match_chain_len(t, p, m + 1);
    }
}

/// Round-trip completeness of the enumeration: driven from mark `m`, the
/// chain holds exactly the positions at or after `m` where the pattern
/// occurs, each once, in strictly increasing order.
pub proof fn lemma_match_chain_complete(t: Seq<u8>, p: Seq<u8>, m: int)
    requires
        0 <= m,
    ensures
        forall|s: int| #[trigger] match_chain(t, p, m).contains(s) <==> (occurs_at(t, p, s) && m <= s),
        forall|i: int, j: int|
            0 <= i < j < match_chain(t, p, m).len() ==> match_chain(t, p, m)[i] < match_chain(t, p, m)[j],
    decreases t.len() + 1 - m,
{
    if m + p.len() > t.len() {
        assert forall|s: int| occurs_at(t, p, s) && m <= s implies match_chain(t, p, m).contains(s) by {}
    } else {
        lemma_match_chain_complete(t, p, m + 1);
        let tail = match_chain(t, p, m + 1);
        if occurs_at(t, p, m) {
            let c = match_chain(t, p, m);
            assert(c == seq![m] + tail);
            assert forall|s: int| occurs_at(t, p, s) && m <= s implies #[trigger] c.contains(s) by {
                if s == m {
                    assert(c[0] == m);
                } else {
                    assert(tail.contains(s));
                    let k = choose|k: int| 0 <= k < tail.len() && tail[k] == s;
                    assert(c[k + 1] == s);
                }
            }
            assert forall|s: int| #[trigger] c.contains(s) implies occurs_at(t, p, s) && m <= s by {
                let k = choose|k: int| 0 <= k < c.len() && c[k] == s;
                if k == 0 {
                } else {
                    assert(tail[k - 1] == s);
                    assert(tail.contains(s));
                }
            }
            assert forall|i: int, j: int| 0 <= i < j < c.len() implies c[i] < c[j] by {
                if i == 0 {
                    assert(c[j] == tail[j - 1]);
                    assert(tail.contains(tail[j - 1]));
                } else {
                    assert(c[i] == tail[i - 1] && c[j] == tail[j - 1]);
                }
            }
        } else {
            let c = match_chain(t, p, m);
            assert(c == tail);
            assert forall|s: int| occurs_at(t, p, s) && m <= s implies #[trigger] c.contains(s) by {
                if s == m {
                    assert(occurs_at(t, p, m));
                } else {
                    assert(tail.contains(s));
                }
            }
        }
    }
}

} // verus!
