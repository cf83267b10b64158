//! The second-curve signature precompile, as the stub this chain carries:
//! the identifiers, sizes and offset layout are real, and every operation
//! answers that it is unsupported.

use vstd::prelude::*;

verus! {

/// The precompile's program identifier.
pub open spec fn spec_secp256r1_id() -> Seq<u8> {
    seq![
        6u8, 146, 13, 236, 47, 234, 113, 181, 183, 35, 129, 77, 116, 45, 169, 3, 28, 131, 231,
        95, 219, 121, 93, 86, 142, 117, 71, 128, 32, 0, 0, 0,
    ]
}

/// The precompile's program identifier.
pub fn id() -> (r: [u8; 32])
    ensures
        r@ == spec_secp256r1_id(),
{
    let r: [u8; 32] = [
        6u8, 146, 13, 236, 47, 234, 113, 181, 183, 35, 129, 77, 116, 45, 169, 3, 28, 131, 231,
        95, 219, 121, 93, 86, 142, 117, 71, 128, 32, 0, 0, 0,
    ];
    proof {
        assert(r@ =~= spec_secp256r1_id());
    }
    r
}

/// Is `candidate` the precompile's identifier?
pub fn check_id(candidate: &[u8; 32]) -> (r: bool)
    ensures
        r == (candidate@ == spec_secp256r1_id()),
{
    let own = id();
    crate::bytes32_eq(candidate, &own)
}

/// Size of a compressed public key.
pub const COMPRESSED_PUBKEY_SERIALIZED_SIZE: usize = 33;

/// Size of a serialized signature.
pub const SIGNATURE_SERIALIZED_SIZE: usize = 64;

/// Size of a field element.
pub const FIELD_SIZE: usize = 32;

/// Offset of the data section in an instruction.
pub const DATA_START: usize = 2;

/// Offset of the signature offsets in an instruction.
pub const SIGNATURE_OFFSETS_START: usize = 2;

/// Serialized size of one offsets record.
pub const SIGNATURE_OFFSETS_SERIALIZED_SIZE: usize = 14;

/// Where a signature, key and message stand inside an instruction.
#[derive(Debug, Clone, Copy, Default)]
pub struct Secp256r1SignatureOffsets {
    pub signature_offset: u16,
    pub signature_instruction_index: u8,
    pub public_key_offset: u16,
    pub public_key_instruction_index: u8,
    pub message_data_offset: u16,
    pub message_data_size: u16,
    pub message_instruction_index: u8,
}

/// Why a precompile operation failed.
#[derive(Debug, Clone, Copy, PartialEq, Eq, Structural)]
pub enum Secp256r1Error {
    /// The stub supports no signing or verification.
    NotSupported,
}

/// Sign a message; the stub always refuses.
pub fn sign_message(priv_key: &[u8], message: &[u8]) -> (r: Result<[u8; 64], Secp256r1Error>)
    ensures
        r == Err::<[u8; 64], Secp256r1Error>(Secp256r1Error::NotSupported),
{
    Err(Secp256r1Error::NotSupported)
}

/// Verify a precompile instruction; the stub always refuses.
pub fn verify(data: &[u8]) -> (r: Result<(), Secp256r1Error>)
    ensures
        r == Err::<(), Secp256r1Error>(Secp256r1Error::NotSupported),
{
    Err(Secp256r1Error::NotSupported)
}

} // verus!
