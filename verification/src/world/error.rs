//! The world program's error taxonomy and its numeric codes.

use vstd::prelude::*;

verus! {

/// Everything the world program can refuse.
#[derive(Debug, Clone, Copy, PartialEq, Eq, Structural)]
pub enum WorldError {
    WorldFull,
    PlayerNotFound,
    PlayerAlreadyExists,
    InvalidDirection,
    PlayerDead,
    CannotAttackSelf,
    TargetOutOfRange,
    InvalidAuthority,
    InvalidWorld,
    InvalidAccountOwner,
    AccountNotInitialized,
    AccountAlreadyInitialized,
    ArithmeticOverflow,
    InvalidInstructionData,
    MissingRequiredSignature,
    AccountDataTooSmall,
}

impl WorldError {
    /// The numeric code carried in a custom program error.
    pub fn code(&self) -> (r: u32)
        ensures
            r == self.spec_code(),
    {
        match self {
            WorldError::WorldFull => 0,
            WorldError::PlayerNotFound => 1,
            WorldError::PlayerAlreadyExists => 2,
            WorldError::InvalidDirection => 3,
            WorldError::PlayerDead => 4,
            WorldError::CannotAttackSelf => 5,
            WorldError::TargetOutOfRange => 6,
            WorldError::InvalidAuthority => 7,
            WorldError::InvalidWorld => 8,
            WorldError::InvalidAccountOwner => 9,
            WorldError::AccountNotInitialized => 10,
            WorldError::AccountAlreadyInitialized => 11,
            WorldError::ArithmeticOverflow => 12,
            WorldError::InvalidInstructionData => 13,
            WorldError::MissingRequiredSignature => 14,
            WorldError::AccountDataTooSmall => 15,
        }
    }

    /// The numeric code, as a function.
    pub open spec fn spec_code(&self) -> u32 {
        match self {
            WorldError::WorldFull => 0,
            WorldError::PlayerNotFound => 1,
            WorldError::PlayerAlreadyExists => 2,
            WorldError::InvalidDirection => 3,
            WorldError::PlayerDead => 4,
            WorldError::CannotAttackSelf => 5,
            WorldError::TargetOutOfRange => 6,
            WorldError::InvalidAuthority => 7,
            WorldError::InvalidWorld => 8,
            WorldError::InvalidAccountOwner => 9,
            WorldError::AccountNotInitialized => 10,
            WorldError::AccountAlreadyInitialized => 11,
            WorldError::ArithmeticOverflow => 12,
            WorldError::InvalidInstructionData => 13,
            WorldError::MissingRequiredSignature => 14,
            WorldError::AccountDataTooSmall => 15,
        }
    }
}

} // verus!
