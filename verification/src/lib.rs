//! Core of a leader-driven layer-2 execution chain.
//!
//! A leader node runs a fixed-rate tick: it drains an admission queue of
//! transactions, executes them against an in-memory account store, seals the
//! modified accounts of each slot into a hash-chained log entry, and
//! broadcasts that entry to follower nodes, which reapply and verify it.

use vstd::prelude::*;

pub mod account;
pub mod block_producer;
pub mod callback;
pub mod config;
pub mod chain;
pub mod leader;
pub mod persistence;
pub mod processor;
pub mod ids;
pub mod l1;
pub mod queue;
pub mod rpc;
pub mod secp;
pub mod subscriptions;
pub mod world;
pub mod validator;
pub mod wire;
pub mod game;
pub mod hashing;

verus! {

/// Target tick period in milliseconds.
pub const BLOCK_TIME_MS: u64 = 33;

/// Number of ticks per second at the target period.
pub const TICKS_PER_SECOND: u64 = 30;

/// Maximum number of transactions drained from the admission queue per slot.
pub const MAX_TXS_PER_BLOCK: usize = 64;

/// Compare two 32-byte identifiers for byte equality.
pub fn bytes32_eq(a: &[u8; 32], b: &[u8; 32]) -> (r: bool)
    ensures
        r == (a@ == b@),
{
    let mut i: usize = 0;
    while i < 32
        invariant
            i <= 32,
            forall|j: int| 0 <= j < i ==> a@[j] == b@[j],
        decreases 32 - i,
    {
        if a[i] != b[i] {
            return false;
        }
        i = i + 1;
    }
    proof {
        assert(a@ =~= b@);
    }
    true
}

} // verus!
