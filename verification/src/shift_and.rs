//! The Shift-And (bitap) searcher: a fixed-width shift-register automaton.
//!
//! Construction precomputes, for every byte value, a mask word whose bit `i`
//! is clear exactly where the pattern holds that byte at position `i`. The
//! automaton state is one word: after consuming a text prefix, bit `j` of the
//! state is clear exactly when the last `j + 1` consumed bytes equal the
//! first `j + 1` pattern bytes. Consuming a byte shifts the state left by one
//! and ORs in the byte's mask; a clear accepting bit (the bit at the last
//! pattern position) signals a completed match.
use vstd::prelude::*;

use crate::matching::{lemma_first_match_from_is, lemma_first_match_from_none, occurs_at};
use crate::search::Search;

verus! {

/// The automaton word width: the hard capacity limit on pattern length.
pub const CAPACITY: usize = 64;

/// The all-ones automaton word: no partial match in progress.
pub const ALL_ONES: u64 = 0xffff_ffff_ffff_ffff;

/// The mask word for byte `b` over pattern `p`: bit `i` is clear exactly
/// where `p[i] == b`, built by clearing one bit per pattern position.
pub open spec fn sa_mask(p: Seq<u8>, b: u8) -> u64
    decreases p.len(),
{
    if p.len() == 0 {
        ALL_ONES
    } else if p.last() == b {
        sa_mask(p.drop_last(), b) & !(1u64 << ((p.len() - 1) as u64))
    } else {
        sa_mask(p.drop_last(), b)
    }
}

/// The automaton state over pattern `p` after consuming the bytes `s`:
/// all ones at rest, then shift-and-mask once per consumed byte.
pub open spec fn sa_state(p: Seq<u8>, s: Seq<u8>) -> u64
    decreases s.len(),
{
    if s.len() == 0 {
        ALL_ONES
    } else {
        (sa_state(p, s.drop_last()) << 1u64) | sa_mask(p, s.last())
    }
}

/// What a mask bit means: bit `i` of the mask for byte `b` is clear exactly
/// when the pattern holds `b` at position `i`.
proof fn lemma_sa_mask_bit(p: Seq<u8>, b: u8, i: u64)
    requires
        p.len() <= CAPACITY,
        i < 64,
    ensures
        (sa_mask(p, b) & (1u64 << i) == 0) <==> (i < p.len() && p[i as int] == b),
    decreases p.len(),
{
    if p.len() == 0 {
        assert(ALL_ONES & (1u64 << i) != 0) by (bit_vector)
            requires
                i < 64,
        ;
    } else {
        let q = p.drop_last();
        lemma_sa_mask_bit(q, b, i);
        let prev = sa_mask(q, b);
        let k = (p.len() - 1) as u64;
        assert((i < p.len() && p[i as int] == b) <==> ((i < q.len() && q[i as int] == b) || (i == k
            && p.last() == b)));
        if p.last() == b {
            assert((prev & !(1u64 << k)) & (1u64 << i) == 0 <==> (i == k || prev & (1u64 << i)
                == 0)) by (bit_vector)
                requires
                    i < 64,
                    k < 64,
            ;
        }
    }
}

/// What a state bit means: bit `j` of the state after consuming `s` is clear
/// exactly when the last `j + 1` bytes of `s` equal the first `j + 1` bytes
/// of the pattern.
proof fn lemma_sa_state_bit(p: Seq<u8>, s: Seq<u8>, j: u64)
    requires
        1 <= p.len() <= CAPACITY,
        j < p.len(),
    ensures
        (sa_state(p, s) & (1u64 << j) == 0) <==> (j + 1 <= s.len() && s.subrange(
            s.len() - j - 1,
            s.len() as int,
        ) == p.subrange(0, j + 1)),
    decreases s.len(),
{
    if s.len() == 0 {
        assert(ALL_ONES & (1u64 << j) != 0) by (bit_vector)
            requires
                j < 64,
        ;
    } else {
        let b = s.last();
        let r = s.drop_last();
        let x = sa_state(p, r);
        let m = sa_mask(p, b);
        assert(sa_state(p, s) == (x << 1u64) | m);
        lemma_sa_mask_bit(p, b, j);
        if j == 0 {
            assert(((x << 1u64) | m) & (1u64 << 0u64) == 0 <==> m & (1u64 << 0u64) == 0)
                by (bit_vector);
            if p[0] == b {
                assert(s.subrange(s.len() - 1, s.len() as int) =~= p.subrange(0, 1));
            }
            if s.subrange(s.len() - 1, s.len() as int) == p.subrange(0, 1) {
                assert(s.subrange(s.len() - 1, s.len() as int)[0] == b);
                assert(p.subrange(0, 1)[0] == p[0]);
            }
        } else {
            assert((((x << 1u64) | m) & (1u64 << j) == 0) <==> (m & (1u64 << j) == 0 && x & (1u64
                << (j - 1) as u64) == 0)) by (bit_vector)
                requires
                    1 <= j < 64,
            ;
            lemma_sa_state_bit(p, r, (j - 1) as u64);
            let ji = j as int;
            if m & (1u64 << j) == 0 && x & (1u64 << (j - 1) as u64) == 0 {
                // The last j bytes of r match p[..j] and the new byte is p[j]:
                // together the last j + 1 bytes of s match p[..j + 1].
                assert(s.subrange(s.len() - ji - 1, s.len() as int) =~= p.subrange(0, ji + 1)) by {
                    let left = s.subrange(s.len() - ji - 1, s.len() as int);
                    let rpart = r.subrange(r.len() - ji, r.len() as int);
                    assert forall|idx: int| 0 <= idx < ji + 1 implies left[idx] == p.subrange(
                        0,
                        ji + 1,
                    )[idx] by {
                        if idx < ji {
                            assert(rpart[idx] == p.subrange(0, ji)[idx]);
                            assert(left[idx] == rpart[idx]);
                        } else {
                            assert(left[idx] == b);
                        }
                    }
                }
            }
            if ji + 1 <= s.len() && s.subrange(s.len() - ji - 1, s.len() as int) == p.subrange(
                0,
                ji + 1,
            ) {
                let left = s.subrange(s.len() - ji - 1, s.len() as int);
                assert(left[ji] == b && p.subrange(0, ji + 1)[ji] == p[ji]);
                assert(r.subrange(r.len() - ji, r.len() as int) =~= p.subrange(0, ji)) by {
                    let rpart = r.subrange(r.len() - ji, r.len() as int);
                    assert forall|idx: int| 0 <= idx < ji implies rpart[idx] == p.subrange(
                        0,
                        ji,
                    )[idx] by {
                        assert(rpart[idx] == left[idx]);
                        assert(left[idx] == p.subrange(0, ji + 1)[idx]);
                    }
                }
            }
        }
    }
}

/// A Shift-And searcher over borrowed text and pattern bytes.
///
/// The automaton state persists across `search` calls: the cursor counts the
/// text bytes consumed so far, each consumed exactly once over the
/// searcher's whole life, so a resumed scan continues mid-automaton rather
/// than restarting.
pub struct ShiftAnd<'t, 'p> {
    text: &'t [u8],
    pattern: &'p [u8],
    /// The pattern mask table: one automaton word per byte value.
    pattern_mask: Vec<u64>,
    /// The automaton state over the consumed prefix of the text.
    state: u64,
    /// How many text bytes the automaton has consumed.
    cursor: usize,
}

impl<'t, 'p> Search<'t, 'p> for ShiftAnd<'t, 'p> {
    closed spec fn text_view(&self) -> Seq<u8> {
        self.text@
    }

    closed spec fn pattern_view(&self) -> Seq<u8> {
        self.pattern@
    }

    closed spec fn progress(&self) -> int {
        let p = self.pattern@.len() as int;
        if p == 0 {
            0
        } else if self.cursor + 1 - p >= 0 {
            self.cursor + 1 - p
        } else {
            0
        }
    }

    closed spec fn wf(&self) -> bool {
        &&& self.pattern@.len() <= CAPACITY
        &&& self.cursor <= self.text@.len()
        &&& self.pattern_mask@.len() == 256
        &&& forall|b: int|
            0 <= b < 256 ==> self.pattern_mask@[b] == sa_mask(self.pattern@, b as u8)
        &&& self.state == sa_state(self.pattern@, self.text@.subrange(0, self.cursor as int))
    }

    open spec fn pattern_ok(p: Seq<u8>) -> bool {
        p.len() <= CAPACITY
    }

    fn pattern_fits(pattern: &[u8]) -> (r: bool) {
        pattern.len() <= CAPACITY
    }

    /// An empty pattern is reported at the start on every call: this
    /// searcher neither consumes a byte nor advances for it.
    open spec fn empty_pattern_reply(mark: int, text_len: nat) -> Option<int> {
        Some(0)
    }

    open spec fn empty_pattern_step(mark: int, text_len: nat) -> int {
        mark
    }

    fn new(text: &'t [u8], pattern: &'p [u8]) -> (r: Self) {
        let mut pattern_mask: Vec<u64> = vec![ALL_ONES; 256];
        let mut i: usize = 0;
        proof {
            assert(pattern@.subrange(0, 0) =~= Seq::<u8>::empty());
        }
        while i < pattern.len()
            invariant
                i <= pattern@.len() <= CAPACITY,
                pattern_mask@.len() == 256,
                forall|b: int|
                    0 <= b < 256 ==> pattern_mask@[b] == sa_mask(
                        pattern@.subrange(0, i as int),
                        b as u8,
                    ),
            decreases pattern@.len() - i,
        {
            let pos = pattern[i] as usize;
            let cur = pattern_mask[pos];
            pattern_mask[pos] = cur & !(1u64 << (i as u64));
            proof {
                let pre0 = pattern@.subrange(0, i as int);
                let pre1 = pattern@.subrange(0, i + 1);
                assert(pre1.drop_last() =~= pre0);
                assert(pre1.last() == pattern@[i as int]);
                assert(forall|b: u8|
                    b != pattern@[i as int] ==> #[trigger] sa_mask(pre1, b) == sa_mask(pre0, b));
                assert(sa_mask(pre1, pattern@[i as int]) == sa_mask(pre0, pattern@[i as int]) & !(
                1u64 << (i as u64)));
            }
            i = i + 1;
        }
        proof {
            assert(pattern@.subrange(0, pattern@.len() as int) =~= pattern@);
        }
        ShiftAnd { text, pattern, pattern_mask, state: ALL_ONES, cursor: 0 }
    }

    fn search(&mut self) -> (r: Option<usize>) {
        if self.pattern.len() == 0 {
            return Some(0);
        }
        let l = self.pattern.len() - 1;
        let ghost t = self.text@;
        let ghost p = self.pattern@;
        let ghost c0 = self.cursor as int;
        let ghost m0: int = if c0 - l >= 0 {
            c0 - l
        } else {
            0
        };
        while self.cursor < self.text.len()
            invariant
                self.wf(),
                self.text@ == t,
                self.pattern@ == p,
                t == old(self).text_view(),
                p == old(self).pattern_view(),
                m0 == old(self).progress(),
                1 <= p.len() <= CAPACITY,
                l + 1 == p.len(),
                c0 <= self.cursor <= t.len(),
                m0 == if c0 - l >= 0 {
                    c0 - l
                } else {
                    0
                },
                // The scan so far found no match ending at an already
                // consumed byte of this call's window.
                forall|s0: int| c0 <= s0 + l && s0 + l < self.cursor ==> !occurs_at(t, p, s0),
            decreases t.len() - self.cursor,
        {
            let key = self.text[self.cursor] as usize;
            self.state = (self.state << 1u64) | self.pattern_mask[key];
            let old_c = self.cursor;
            self.cursor = old_c + 1;
            proof {
                let pre0 = t.subrange(0, old_c as int);
                let pre1 = t.subrange(0, self.cursor as int);
                assert(pre1.drop_last() =~= pre0);
                assert(pre1.last() == t[old_c as int]);
                assert(self.state == sa_state(p, pre1));
                lemma_sa_state_bit(p, pre1, l as u64);
            }
            if self.state & (1u64 << (l as u64)) == 0 {
                proof {
                    let pre1 = t.subrange(0, self.cursor as int);
                    let s0 = old_c - l;
                    assert(pre1.len() == old_c + 1);
                    assert(0 <= s0);
                    assert(pre1.subrange(pre1.len() - l - 1, pre1.len() as int) =~= t.subrange(
                        s0,
                        s0 + p.len(),
                    ));
                    assert(p.subrange(0, l + 1) =~= p);
                    assert(occurs_at(t, p, s0));
                    assert forall|j: int| m0 <= j < s0 implies !occurs_at(t, p, j) by {
                        if occurs_at(t, p, j) {
                            assert(c0 <= j + l && j + l < old_c);
                        }
                    }
                    lemma_first_match_from_is(t, p, m0, s0);
                }
                return Some(old_c - l);
            }
            proof {
                let pre1 = t.subrange(0, self.cursor as int);
                assert forall|s0: int| c0 <= s0 + l && s0 + l < self.cursor implies !occurs_at(
                    t,
                    p,
                    s0,
                ) by {
                    if s0 + l < old_c {
                    } else if occurs_at(t, p, s0) {
                        assert(pre1.subrange(pre1.len() - l - 1, pre1.len() as int) =~= t.subrange(
                            s0,
                            s0 + p.len(),
                        ));
                        assert(p.subrange(0, l + 1) =~= p);
                        assert(sa_state(p, pre1) & (1u64 << (l as u64)) == 0);
                        assert(false);
                    }
                }
            }
        }
        proof {
            assert forall|j: int| m0 <= j implies !occurs_at(t, p, j) by {
                if occurs_at(t, p, j) {
                    assert(c0 <= j + l && j + l < t.len());
                }
            }
            lemma_first_match_from_none(t, p, m0);
            assert forall|j: int| self.progress() <= j implies !occurs_at(t, p, j) by {
                if occurs_at(t, p, j) {
                    assert(j + p.len() <= t.len());
                    assert(j >= m0);
                }
            }
            lemma_first_match_from_none(t, p, self.progress());
        }
        None
    }
}

} // verus!
