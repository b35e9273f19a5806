//! The rolling-hash capability: an incremental, order-sensitive checksum
//! over a byte window, with reset, append, bulk-append and remove-oldest
//! operations, plus an adapter giving that capability to the Adler-32
//! checksum of the `adler32` crate.
use vstd::prelude::*;

verus! {

/// The Adler-32 checksum of a byte window, exactly as
/// `adler32::RollingAdler32` computes it: a pure function of the bytes fed
/// and not yet removed, in order.
pub uninterp spec fn adler32_of(s: Seq<u8>) -> u32;

/// A capability contract for an incremental, order-sensitive checksum over a
/// byte window.
///
/// Abstractly a hasher carries a window: the bytes fed to it, in order,
/// minus those removed from its front. `hash` reads the checksum, a pure
/// function (`hash_spec`) of that window, so hashing equal windows always
/// yields equal checksums; any concrete checksum meeting this contract is
/// interchangeable.
pub trait RollingHasher: Sized {
    /// The checksum this hasher computes, as a function of the window alone.
    spec fn hash_spec(s: Seq<u8>) -> u32;

    /// The bytes currently in the window.
    spec fn window(&self) -> Seq<u8>;

    /// Creates an empty hasher context.
    fn new() -> (r: Self)
        ensures
            r.window() == Seq::<u8>::empty(),
    ;

    /// Returns the current hash.
    fn hash(&self) -> (r: u32)
        ensures
            r == Self::hash_spec(self.window()),
    ;

    /// Resets the state to the empty window.
    fn reset(&mut self)
        ensures
            final(self).window() == Seq::<u8>::empty(),
    ;

    /// Which windows support removing their oldest byte exactly (a concrete
    /// checksum may bound the window length its removal arithmetic is good
    /// for).
    spec fn remove_supported(window: Seq<u8>) -> bool;

    /// Removes the oldest byte of the window: the given `byte`, which was
    /// fed to the algorithm `size` bytes ago, where `size` is the current
    /// window length.
    fn remove(&mut self, size: usize, byte: u8)
        requires
            old(self).window().len() == size,
            size > 0,
            old(self).window()[0] == byte,
            Self::remove_supported(old(self).window()),
        ensures
            final(self).window() == old(self).window().drop_first(),
    ;

    /// Feeds a new `byte` to the algorithm to update the hash.
    fn update(&mut self, byte: u8)
        ensures
            final(self).window() == old(self).window().push(byte),
    ;

    /// Feeds a buffer of bytes to the algorithm to update the hash.
    fn update_buffer(&mut self, buffer: &[u8])
        ensures
            final(self).window() == old(self).window() + buffer@,
    ;
}

#[verifier::external_type_specification]
#[verifier::external_body]
pub struct ExRollingAdler32(adler32::RollingAdler32);

/// The `adler32` crate's rolling checksum, adapted to the [`RollingHasher`]
/// capability. The window it abstractly carries is tracked alongside the
/// foreign state.
pub struct Adler32Hasher {
    inner: adler32::RollingAdler32,
    window: Ghost<Seq<u8>>,
}

/// Relies on `adler32::RollingAdler32::new`: an empty context, the checksum
/// of no bytes.
#[verifier::external_body]
fn adler_new() -> (r: Adler32Hasher)
    ensures
        r.window@ == Seq::<u8>::empty(),
{
    Adler32Hasher { inner: adler32::RollingAdler32::new(), window: Ghost(Seq::empty()) }
}

/// Relies on `adler32::RollingAdler32::hash`: reads the checksum, a
/// deterministic function of the bytes fed and not removed.
#[verifier::external_body]
fn adler_hash(h: &Adler32Hasher) -> (r: u32)
    ensures
        r == adler32_of(h.window@),
{
    h.inner.hash()
}

/// Relies on `adler32::RollingAdler32::new`: a fresh context stands for the
/// empty window.
#[verifier::external_body]
fn adler_reset(h: &mut Adler32Hasher)
    ensures
        final(h).window@ == Seq::<u8>::empty(),
{
    h.inner = adler32::RollingAdler32::new();
}

/// Relies on `adler32::RollingAdler32::remove`: undoes the contribution of
/// the window's oldest byte, given that byte and the window's length. The
/// crate computes the second accumulator's adjustment in 32 bits and only
/// then reduces modulo 65521, so the step is exact only while the window is
/// no longer than that modulus; longer windows let the intermediate wrap.
#[verifier::external_body]
fn adler_remove(h: &mut Adler32Hasher, size: usize, byte: u8)
    requires
        old(h).window@.len() == size,
        0 < size <= 65521,
        old(h).window@[0] == byte,
    ensures
        final(h).window@ == old(h).window@.drop_first(),
{
    h.inner.remove(size, byte);
}

/// Relies on `adler32::RollingAdler32::update`: feeds one byte to the
/// checksum.
#[verifier::external_body]
fn adler_update(h: &mut Adler32Hasher, byte: u8)
    ensures
        final(h).window@ == old(h).window@.push(byte),
{
    h.inner.update(byte);
}

/// Relies on `adler32::RollingAdler32::update_buffer`: feeds a buffer to the
/// checksum, in order.
#[verifier::external_body]
fn adler_update_buffer(h: &mut Adler32Hasher, buffer: &[u8])
    ensures
        final(h).window@ == old(h).window@ + buffer@,
{
    h.inner.update_buffer(buffer);
}

impl RollingHasher for Adler32Hasher {
    open spec fn hash_spec(s: Seq<u8>) -> u32 {
        adler32_of(s)
    }

    closed spec fn window(&self) -> Seq<u8> {
        self.window@
    }

    /// The removal arithmetic is exact up to windows of 65521 bytes, the
    /// checksum's modulus.
    open spec fn remove_supported(window: Seq<u8>) -> bool {
        window.len() <= 65521
    }

    fn new() -> (r: Self) {
        adler_new()
    }

    fn hash(&self) -> (r: u32) {
        adler_hash(self)
    }

    fn reset(&mut self) {
        adler_reset(self)
    }

    fn remove(&mut self, size: usize, byte: u8) {
        adler_remove(self, size, byte)
    }

    fn update(&mut self, byte: u8) {
        adler_update(self, byte)
    }

    fn update_buffer(&mut self, buffer: &[u8]) {
        adler_update_buffer(self, buffer)
    }
}

} // verus!
