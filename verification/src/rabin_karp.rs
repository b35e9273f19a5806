//! The Rabin–Karp searcher: hash-filtered window scanning.
//!
//! Each call hashes the pattern once, then slides over the remaining
//! candidate windows of the text, comparing checksums and falling back to a
//! direct byte comparison to rule out collisions. Because the checksum is a
//! pure function of the window bytes, a window equal to the pattern always
//! passes the hash filter, so no match is missed; the byte comparison
//! guarantees that nothing else is reported.
use vstd::prelude::*;

use core::marker::PhantomData;

use crate::hasher::{Adler32Hasher, RollingHasher};
use crate::matching::{lemma_first_match_from_is, lemma_first_match_from_none, occurs_at};
use crate::search::Search;

verus! {

/// A Rabin–Karp searcher over borrowed text and pattern bytes, generic over
/// the rolling checksum it filters with.
///
/// The state beyond the two byte views is the cursor — the position at
/// which the next candidate window starts, never past the text's end — and
/// an exhaustion flag for the one state the cursor cannot encode: an empty
/// pattern's matches run through the very end of the text, so after the
/// last one the searcher is spent while the cursor still points at it.
pub struct RabinKarp<'t, 'p, H = Adler32Hasher> {
    text: &'t [u8],
    pattern: &'p [u8],
    cursor: usize,
    done: bool,
    hasher: PhantomData<H>,
}

/// Resets `hasher` and feeds it `bytes`: the checksum of exactly `bytes`.
pub fn hash<H: RollingHasher>(hasher: &mut H, bytes: &[u8]) -> (r: u32)
    ensures
        r == H::hash_spec(bytes@),
        final(hasher).window() == bytes@,
{
    hasher.reset();
    hasher.update_buffer(bytes);
    proof {
        assert(Seq::<u8>::empty() + bytes@ =~= bytes@);
    }
    hasher.hash()
}

/// Whether the byte slices `a` and `b` hold the same bytes.
fn eq_bytes(a: &[u8], b: &[u8]) -> (r: bool)
    ensures
        r <==> a@ == b@,
{
    if a.len() != b.len() {
        return false;
    }
    let mut i: usize = 0;
    while i < a.len()
        invariant
            i <= a@.len(),
            a@.len() == b@.len(),
            forall|k: int| 0 <= k < i ==> a@[k] == b@[k],
        decreases a@.len() - i,
    {
        if a[i] != b[i] {
            return false;
        }
        i = i + 1;
    }
    proof {
        assert(a@ =~= b@);
    }
    true
}

impl<'t, 'p, H: RollingHasher> Search<'t, 'p> for RabinKarp<'t, 'p, H> {
    closed spec fn text_view(&self) -> Seq<u8> {
        self.text@
    }

    closed spec fn pattern_view(&self) -> Seq<u8> {
        self.pattern@
    }

    closed spec fn progress(&self) -> int {
        if self.done {
            self.text@.len() as int + 1
        } else {
            self.cursor as int
        }
    }

    closed spec fn wf(&self) -> bool {
        self.cursor <= self.text@.len()
    }

    open spec fn pattern_ok(p: Seq<u8>) -> bool {
        true
    }

    fn pattern_fits(pattern: &[u8]) -> (r: bool) {
        true
    }

    /// An empty pattern matches at the cursor itself, one position per
    /// call, through the text's very end; then the searcher is spent.
    open spec fn empty_pattern_reply(mark: int, text_len: nat) -> Option<int> {
        if mark <= text_len {
            Some(mark)
        } else {
            None
        }
    }

    open spec fn empty_pattern_step(mark: int, text_len: nat) -> int {
        if mark <= text_len {
            mark + 1
        } else {
            mark
        }
    }

    fn new(text: &'t [u8], pattern: &'p [u8]) -> (r: Self) {
        RabinKarp { text, pattern, cursor: 0, done: false, hasher: PhantomData }
    }

    fn search(&mut self) -> (r: Option<usize>) {
        let ghost t = self.text@;
        let ghost p = self.pattern@;
        let ghost c0 = old(self).progress();
        if self.done {
            proof {
                assert forall|j: int| c0 <= j implies !occurs_at(t, p, j) by {}
                lemma_first_match_from_none(t, p, c0);
            }
            return None;
        }
        let t_len = self.text.len();
        let p_len = self.pattern.len();
        // The remaining text is shorter than the pattern: no match can fit.
        if t_len - self.cursor < p_len {
            proof {
                assert forall|j: int| c0 <= j implies !occurs_at(t, p, j) by {}
                lemma_first_match_from_none(t, p, c0);
            }
            return None;
        }
        // An empty pattern matches at every position through the text's
        // end, one position per call.
        if p_len == 0 {
            let pos = self.cursor;
            if pos < t_len {
                self.cursor = pos + 1;
            } else {
                self.done = true;
            }
            proof {
                if p.len() > 0 {
                } else {
                    assert(t.subrange(pos as int, pos as int) =~= p);
                    assert(occurs_at(t, p, pos as int));
                    lemma_first_match_from_is(t, p, c0, pos as int);
                }
            }
            return Some(pos);
        }
        let mut hasher = H::new();
        let pattern_hash = hash(&mut hasher, self.pattern);
        while t_len - self.cursor >= p_len
            invariant
                self.wf(),
                !self.done,
                self.text@ == t,
                self.pattern@ == p,
                t == old(self).text_view(),
                p == old(self).pattern_view(),
                c0 == old(self).progress(),
                t_len == t.len(),
                p_len == p.len(),
                1 <= p_len,
                c0 <= self.cursor <= t_len - p_len + 1,
                pattern_hash == H::hash_spec(p),
                // Every window already tried was no match.
                forall|j: int| c0 <= j < self.cursor ==> !occurs_at(t, p, j),
            decreases t_len - self.cursor,
        {
            let start = self.cursor;
            let end = start + p_len;
            let window = &self.text[start..end];
            let window_hash = hash(&mut hasher, window);
            self.cursor = start + 1;
            if window_hash == pattern_hash {
                if eq_bytes(window, self.pattern) {
                    proof {
                        assert(occurs_at(t, p, start as int));
                        lemma_first_match_from_is(t, p, c0, start as int);
                    }
                    return Some(start);
                }
            }
            proof {
                // A window equal to the pattern hashes like the pattern and
                // compares equal byte for byte, so it cannot reach here.
                if occurs_at(t, p, start as int) {
                    assert(window@ == p);
                    assert(false);
                }
            }
        }
        proof {
            assert forall|j: int| c0 <= j implies !occurs_at(t, p, j) by {
                if occurs_at(t, p, j) {
                    assert(j + p.len() <= t.len());
                    assert(j < self.cursor);
                }
            }
            lemma_first_match_from_none(t, p, c0);
            assert forall|j: int| self.progress() <= j implies !occurs_at(t, p, j) by {
                if occurs_at(t, p, j) {
                    assert(j + p.len() <= t.len());
                }
            }
            lemma_first_match_from_none(t, p, self.progress());
        }
        None
    }
}

} // verus!
