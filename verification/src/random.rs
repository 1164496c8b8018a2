//! Randomness from the operating system.

use vstd::prelude::*;

verus! {

/// Whether bytes came out of the random source.
///
/// As far as the bytes themselves go, any that are few enough may have. What this is
/// for is where it holds: outside this module nothing but a draw establishes it, so a
/// contract that demands it of a key demands that the key was drawn.
pub closed spec fn drawn(bytes: Seq<u8>) -> bool {
    bytes.len() <= 1024
}

/// Bytes from `rand_core::OsRng`, filled in by `rand::RngCore::fill_bytes`.
///
/// Claims only that the bytes were drawn, and how many come back: `fill_bytes` fills
/// exactly the slice it is given, and which bytes it writes is chance. Where the
/// operating system has no randomness to give, `fill_bytes` panics; no argument
/// brings that about.
#[verifier::external_body]
pub(crate) fn random_bytes(length: usize) -> (bytes: Vec<u8>)
    requires
        length <= 1024,
    ensures
        bytes@.len() == length,
        drawn(bytes@),
{
    let mut bytes: Vec<u8> = vec![0u8; length];
    rand::RngCore::fill_bytes(&mut rand_core::OsRng, &mut bytes);
    bytes
}

} // verus!
