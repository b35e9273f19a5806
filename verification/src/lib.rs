//! Exact substring search over byte sequences, with two interchangeable
//! algorithms: a hash-based scanner (Rabin–Karp over a rolling checksum) and
//! a fixed-width bitmask automaton (Shift-And / bitap).
//!
//! A searcher is built once over a `(text, pattern)` pair and then queried
//! repeatedly: each `search` call yields the next match position, until
//! exhaustion is signalled by `None`.
pub mod hasher;
pub mod matching;
pub mod rabin_karp;
pub mod search;
pub mod shift_and;
pub mod test_utils;
