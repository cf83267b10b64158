//! The well-known 32-byte program identifiers the runtime registers: the
//! system program, the native loader, the upgradeable loader, and the world
//! program hosting the game logic.

use vstd::prelude::*;
use crate::chain::{zero_root, zeroed_root};

verus! {

/// The system program's identifier: all zero bytes.
pub open spec fn spec_system_program_id() -> Seq<u8> {
    zero_root()
}

pub fn system_program_id() -> (r: [u8; 32])
    ensures
        r@ == spec_system_program_id(),
{
    zeroed_root()
}

/// The world program's identifier.
pub open spec fn spec_world_program_id() -> Seq<u8> {
    seq![
        7u8, 162, 207, 176, 171, 49, 187, 79, 241, 103, 154, 105, 151, 87, 245, 245, 251, 142,
        85, 179, 47, 200, 132, 249, 172, 78, 217, 197, 0, 0, 0, 0,
    ]
}

pub fn world_program_id() -> (r: [u8; 32])
    ensures
        r@ == spec_world_program_id(),
{
    let r: [u8; 32] = [
        7u8, 162, 207, 176, 171, 49, 187, 79, 241, 103, 154, 105, 151, 87, 245, 245, 251, 142,
        85, 179, 47, 200, 132, 249, 172, 78, 217, 197, 0, 0, 0, 0,
    ];
    proof {
        assert(r@ =~= spec_world_program_id());
    }
    r
}

/// The native loader's identifier: the owner of builtin program accounts.
pub open spec fn spec_native_loader_id() -> Seq<u8> {
    seq![
        5u8, 135, 132, 191, 20, 139, 164, 40, 47, 176, 18, 87, 72, 136, 169, 241, 83, 160, 125,
        173, 247, 101, 192, 69, 92, 154, 151, 3, 128, 0, 0, 0,
    ]
}

pub fn native_loader_id() -> (r: [u8; 32])
    ensures
        r@ == spec_native_loader_id(),
{
    let r: [u8; 32] = [
        5u8, 135, 132, 191, 20, 139, 164, 40, 47, 176, 18, 87, 72, 136, 169, 241, 83, 160, 125,
        173, 247, 101, 192, 69, 92, 154, 151, 3, 128, 0, 0, 0,
    ];
    proof {
        assert(r@ =~= spec_native_loader_id());
    }
    r
}

/// The upgradeable loader's identifier: the owner of loaded program
/// accounts.
pub open spec fn spec_upgradeable_loader_id() -> Seq<u8> {
    seq![
        2u8, 168, 246, 145, 78, 136, 161, 176, 226, 16, 21, 62, 247, 99, 174, 43, 0, 194, 185,
        61, 22, 193, 36, 210, 192, 83, 122, 16, 4, 128, 0, 0,
    ]
}

pub fn upgradeable_loader_id() -> (r: [u8; 32])
    ensures
        r@ == spec_upgradeable_loader_id(),
{
    let r: [u8; 32] = [
        2u8, 168, 246, 145, 78, 136, 161, 176, 226, 16, 21, 62, 247, 99, 174, 43, 0, 194, 185,
        61, 22, 193, 36, 210, 192, 83, 122, 16, 4, 128, 0, 0,
    ];
    proof {
        assert(r@ =~= spec_upgradeable_loader_id());
    }
    r
}

} // verus!
