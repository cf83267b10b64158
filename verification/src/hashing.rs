//! Content hashing and blockhash generation.
//!
//! The chain's content hash is BLAKE3; its value on given bytes is named by
//! the uninterpreted function [`blake3_of`], so that every contract over a
//! hash speaks of the same function of the hashed bytes.

use vstd::prelude::*;

verus! {

/// The 32-byte BLAKE3 digest of a byte sequence, as a function of the bytes
/// alone: the same bytes give the same digest on every machine.
pub uninterp spec fn blake3_of(input: Seq<u8>) -> Seq<u8>;

/// Relies on blake3::hash: a pure 32-byte digest of the input bytes.
#[verifier::external_body]
pub(crate) fn blake3_hash(input: &[u8]) -> (r: [u8; 32])
    ensures
        r@ == blake3_of(input@),
{
    blake3::hash(input).into()
}

/// Relies on rand::random: 32 fresh bytes; nothing is promised of their value.
#[verifier::external_body]
pub(crate) fn fresh_blockhash() -> [u8; 32] {
    rand::random::<[u8; 32]>()
}

/// Relies on rand::random: a fresh 32-bit value; nothing is promised of it.
#[verifier::external_body]
pub(crate) fn random_u32() -> u32 {
    rand::random::<u32>()
}

} // verus!
