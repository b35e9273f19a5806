//! The capability contract shared by the searchers: construction over a
//! `(text, pattern)` pair and a resumable `search` operation that reports
//! match positions one call at a time.
use vstd::prelude::*;

use crate::matching::{
    first_match_from, lemma_match_chain_len, lemma_match_chain_step, match_chain,
};

verus! {

/// A resumable substring searcher over borrowed `text` and `pattern` bytes.
///
/// Abstractly a searcher carries the two byte sequences and a progress mark:
/// the least position at which the next match may still be reported. A fresh
/// searcher has mark `0`; reporting position `s` moves the mark to `s + 1`.
///
/// For a non-empty pattern each `search` call reports exactly
/// `first_match_from(text, pattern, mark)`; once it answers `None`, every
/// later call answers `None` as well. Every implementor is held to that one
/// equation, so two searchers over the same text and pattern report
/// identical position sequences, whichever algorithms drive them.
///
/// For the empty pattern the implementations diverge after the first call
/// (one enumerates every position to exhaustion, the other repeats the
/// start), so there each implementor declares its own reply and mark
/// movement as the spec functions `empty_pattern_reply` and
/// `empty_pattern_step`, and `search` is held to those. All implementors
/// agree that a fresh searcher reports `Some(0)`, and that a reply comes
/// exactly while the mark is within the text.
pub trait Search<'t, 'p>: Sized {
    /// The text this searcher scans.
    spec fn text_view(&self) -> Seq<u8>;

    /// The pattern this searcher looks for.
    spec fn pattern_view(&self) -> Seq<u8>;

    /// The progress mark: no match before this position will be reported.
    spec fn progress(&self) -> int;

    /// The searcher's internal invariant.
    spec fn wf(&self) -> bool;

    /// Which patterns this searcher can be built over (a capacity bound,
    /// where the algorithm has one).
    spec fn pattern_ok(p: Seq<u8>) -> bool;

    /// The runtime test for `pattern_ok`: whether a searcher of this kind
    /// can be built over `pattern`.
    fn pattern_fits(pattern: &[u8]) -> (r: bool)
        ensures
            r == Self::pattern_ok(pattern@),
    ;

    /// What `search` reports on an empty pattern, given the progress mark
    /// and the text length.
    spec fn empty_pattern_reply(mark: int, text_len: nat) -> Option<int>;

    /// Where `search` leaves the progress mark after an empty-pattern call,
    /// given the old mark and the text length.
    spec fn empty_pattern_step(mark: int, text_len: nat) -> int;

    /// Constructs a new searcher.
    fn new(text: &'t [u8], pattern: &'p [u8]) -> (r: Self)
        requires
            Self::pattern_ok(pattern@),
        ensures
            r.wf(),
            r.text_view() == text@,
            r.pattern_view() == pattern@,
            r.progress() == 0,
    ;

    /// Reports the next match position, or `None` once no further match
    /// exists from the current progress mark onward.
    fn search(&mut self) -> (r: Option<usize>)
        requires
            old(self).wf(),
        ensures
            final(self).wf(),
            final(self).text_view() == old(self).text_view(),
            final(self).pattern_view() == old(self).pattern_view(),
            0 <= old(self).progress() <= final(self).progress(),
            old(self).pattern_view().len() > 0 ==> match first_match_from(
                old(self).text_view(),
                old(self).pattern_view(),
                old(self).progress(),
            ) {
                Some(s) => r == Some(s as usize) && final(self).progress() == s + 1,
                None => r == None::<usize>,
            },
            old(self).pattern_view().len() > 0 && r is None ==> first_match_from(
                final(self).text_view(),
                final(self).pattern_view(),
                final(self).progress(),
            ) is None,
            // An exhausted searcher's mark stands exactly past the last
            // window the text offers.
            old(self).pattern_view().len() > 0 && r is None ==> final(self).progress() == (
            if old(self).progress() >= old(self).text_view().len() as int + 1 - old(
                self,
            ).pattern_view().len() as int {
                old(self).progress()
            } else {
                old(self).text_view().len() as int + 1 - old(self).pattern_view().len() as int
            }),
            old(self).pattern_view().len() == 0 && old(self).progress() == 0 ==> r
                == Some(0usize),
            old(self).pattern_view().len() == 0 ==> (r is Some <==> old(self).progress() <= old(
                self,
            ).text_view().len()),
            old(self).pattern_view().len() == 0 ==> match Self::empty_pattern_reply(
                old(self).progress(),
                old(self).text_view().len(),
            ) {
                Some(v) => r == Some(v as usize),
                None => r == None::<usize>,
            },
            old(self).pattern_view().len() == 0 ==> final(self).progress()
                == Self::empty_pattern_step(old(self).progress(), old(self).text_view().len()),
    ;
}

/// Common pattern matching routines on top of the [`Search`] capability.
pub trait SearchExt<'t, 'p>: Search<'t, 'p> {
    /// Consumes the searcher and returns the total number of matches it had
    /// left to report: one per remaining occurrence of the pattern.
    ///
    /// An empty pattern is excluded: a searcher may report it at every one
    /// of the text's `len + 1` positions — or forever at position zero — so
    /// no count is defined for it.
    fn count(self) -> (n: usize)
        requires
            self.wf(),
            0 <= self.progress(),
            self.pattern_view().len() > 0,
            self.text_view().len() <= usize::MAX,
        ensures
            n == match_chain(self.text_view(), self.pattern_view(), self.progress()).len(),
    ;
}

impl<'t, 'p, T: Search<'t, 'p>> SearchExt<'t, 'p> for T {
    fn count(self) -> (n: usize) {
        let ghost t = self.text_view();
        let ghost p = self.pattern_view();
        let ghost chain0 = match_chain(t, p, self.progress());
        let mut s = self;
        let mut n: usize = 0;
        proof {
            lemma_match_chain_len(t, p, s.progress());
        }
        loop
            invariant_except_break
                s.wf(),
                s.text_view() == t,
                s.pattern_view() == p,
                1 <= p.len(),
                0 <= s.progress(),
                n + match_chain(t, p, s.progress()).len() == chain0.len(),
                chain0.len() <= t.len() <= usize::MAX,
            ensures
                n == chain0.len(),
            decreases match_chain(t, p, s.progress()).len(),
        {
            let ghost mark = s.progress();
            match s.search() {
                Some(_) => {
                    proof {
                        lemma_match_chain_step(t, p, mark);
                    }
                    n = n + 1;
                },
                None => {
                    proof {
                        lemma_match_chain_step(t, p, mark);
                    }
                    break ;
                },
            }
        }
        n
    }
}

} // verus!
