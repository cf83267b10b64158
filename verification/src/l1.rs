//! The settlement-layer bridge: the record shapes shared with the base
//! chain, and the reader, delegator and committer that will speak to it.
//! The base chain's programs are not deployed, so the outward calls are
//! stubs with pinned answers; the interval logic around committing is real.

use vstd::prelude::*;
use crate::chain::zero_root;

verus! {

/// Most tokens a user record can hold.
pub const MAX_TOKENS: usize = 25;

/// Precision of percentage arithmetic on the base chain.
pub const PERCENTAGE_PRECISION: u128 = 1_000_000;

/// One token balance entry.
#[derive(Debug, Clone, Copy)]
pub struct Token {
    pub mint: [u8; 32],
    pub amount: u128,
}

/// A user's token balances: a fixed-capacity table and its fill count.
#[derive(Debug)]
pub struct TokenBalance {
    pub tokens: Vec<Token>,
    pub count: u8,
}

impl TokenBalance {
    /// The table holds exactly the fixed capacity.
    pub open spec fn wf(&self) -> bool {
        self.tokens@.len() == MAX_TOKENS
    }
}

impl Default for TokenBalance {
    fn default() -> (r: Self)
        ensures
            r.wf(),
            r.count == 0,
            forall|i: int|
                0 <= i < r.tokens@.len() ==> (#[trigger] r.tokens@[i]).amount == 0
                    && r.tokens@[i].mint@ == zero_root(),
    {
        let mut tokens: Vec<Token> = Vec::new();
        let mut i: usize = 0;
        while i < MAX_TOKENS
            invariant
                i <= MAX_TOKENS,
                tokens@.len() == i,
                forall|j: int|
                    0 <= j < i ==> (#[trigger] tokens@[j]).amount == 0 && tokens@[j].mint@
                        == zero_root(),
            decreases MAX_TOKENS - i,
        {
            let t = Token { mint: crate::chain::zeroed_root(), amount: 0 };
            tokens.push(t);
            i = i + 1;
        }
        TokenBalance { tokens, count: 0 }
    }
}

/// A player's standing inside the contested zone on the base chain.
#[derive(Debug, Clone, Copy)]
pub struct InGame {
    pub state: bool,
    pub init_ts: i64,
}

impl Default for InGame {
    fn default() -> (r: Self)
        ensures
            !r.state,
            r.init_ts == 0,
    {
        InGame { state: false, init_ts: 0 }
    }
}

/// A user record as the base chain stores it.
#[derive(Debug)]
pub struct L1User {
    pub game: [u8; 32],
    pub pubkey: [u8; 32],
    pub authority: [u8; 32],
    pub game_key: [u8; 32],
    pub bank: [u8; 32],
    pub init_ts: i64,
    pub last_key_update_ts: i64,
    pub in_game: InGame,
    pub token_balance: TokenBalance,
    pub total_deposits: u64,
    pub total_withdraws: u64,
    pub total_fee_paid: u64,
    pub bump: u8,
}

/// A bank record as the base chain stores it.
#[derive(Debug)]
pub struct L1Bank {
    pub pubkey: [u8; 32],
    pub authority: [u8; 32],
    pub game: [u8; 32],
    pub token_balance: TokenBalance,
    pub bump: u8,
}

/// Weapon statistics read from the base chain's inventory.
#[derive(Debug, Clone, Copy)]
pub struct WeaponStats {
    pub damage: u16,
    pub range: u16,
    pub attack_speed: u8,
}

/// Armor statistics read from the base chain's inventory.
#[derive(Debug, Clone, Copy)]
pub struct ArmorStats {
    pub defense: u16,
    pub durability: u16,
}

/// Reads base-chain state. With no base-chain programs deployed, every read
/// answers the empty default.
#[derive(Debug)]
pub struct L1Reader {
    rpc_url: String,
}

impl L1Reader {
    /// The endpoint this reader would speak to.
    pub closed spec fn spec_rpc_url(&self) -> Seq<char> {
        self.rpc_url@
    }

    pub fn new(rpc_url: &str) -> (r: Self)
        ensures
            r.spec_rpc_url() == rpc_url@,
    {
        L1Reader { rpc_url: rpc_url.to_owned() }
    }

    /// Whether a user stands in the contested zone; always no while the
    /// base chain is not deployed.
    pub fn is_in_pvp_zone(&self, user_pda: &[u8; 32]) -> (r: bool)
        ensures
            !r,
    {
        false
    }

    /// Weapon statistics for a user; always absent while the base chain is
    /// not deployed.
    pub fn get_weapon_stats(&self, user_pda: &[u8; 32]) -> (r: Option<WeaponStats>)
        ensures
            r is None,
    {
        None
    }

    /// A user's inventory; always absent while the base chain is not
    /// deployed.
    pub fn get_user_inventory(&self, user_pda: &[u8; 32]) -> (r: Option<L1User>)
        ensures
            r is None,
    {
        None
    }
}

/// Fetches delegated accounts from the base chain; a stub while the
/// delegation program is not deployed.
#[derive(Debug)]
pub struct AccountDelegator {
    rpc_url: String,
    l1_program_id: Option<[u8; 32]>,
}

impl AccountDelegator {
    pub closed spec fn spec_rpc_url(&self) -> Seq<char> {
        self.rpc_url@
    }

    pub fn new(rpc_url: &str) -> (r: Self)
        ensures
            r.spec_rpc_url() == rpc_url@,
    {
        AccountDelegator { rpc_url: rpc_url.to_owned(), l1_program_id: None }
    }

    pub fn with_program_id(rpc_url: &str, program_id: [u8; 32]) -> (r: Self)
        ensures
            r.spec_rpc_url() == rpc_url@,
    {
        AccountDelegator { rpc_url: rpc_url.to_owned(), l1_program_id: Some(program_id) }
    }

    /// The endpoint this delegator would speak to.
    pub fn rpc_url(&self) -> (r: &str)
        ensures
            r@ == self.spec_rpc_url(),
    {
        self.rpc_url.as_str()
    }

    /// Fetch a user record; always absent while the base chain is not
    /// deployed.
    pub fn fetch_l1_user(&self, pubkey: &[u8; 32]) -> (r: Option<L1User>)
        ensures
            r is None,
    {
        None
    }

    /// Whether an account is delegated to this chain; always no while the
    /// delegation program is not deployed.
    pub fn is_delegated(&self, pubkey: &[u8; 32]) -> (r: bool)
        ensures
            !r,
    {
        false
    }
}

/// Commits state back to the base chain on an interval of slots; the send
/// itself is a stub while the delegation program is not deployed.
#[derive(Debug)]
pub struct StateCommitter {
    rpc_url: String,
    delegation_program_id: Option<[u8; 32]>,
    commit_interval_slots: u64,
    last_commit_slot: u64,
}

impl StateCommitter {
    pub closed spec fn spec_rpc_url(&self) -> Seq<char> {
        self.rpc_url@
    }

    pub closed spec fn spec_interval(&self) -> u64 {
        self.commit_interval_slots
    }

    pub closed spec fn spec_last_commit_slot(&self) -> u64 {
        self.last_commit_slot
    }

    pub fn new(rpc_url: &str) -> (r: Self)
        ensures
            r.spec_rpc_url() == rpc_url@,
            r.spec_interval() == 100,
            r.spec_last_commit_slot() == 0,
    {
        StateCommitter {
            rpc_url: rpc_url.to_owned(),
            delegation_program_id: None,
            commit_interval_slots: 100,
            last_commit_slot: 0,
        }
    }

    pub fn with_delegation_program(self, program_id: [u8; 32]) -> (r: Self)
        ensures
            r.spec_rpc_url() == self.spec_rpc_url(),
            r.spec_interval() == self.spec_interval(),
            r.spec_last_commit_slot() == self.spec_last_commit_slot(),
    {
        StateCommitter { delegation_program_id: Some(program_id), ..self }
    }

    pub fn with_commit_interval(self, slots: u64) -> (r: Self)
        ensures
            r.spec_rpc_url() == self.spec_rpc_url(),
            r.spec_interval() == slots,
            r.spec_last_commit_slot() == self.spec_last_commit_slot(),
    {
        StateCommitter { commit_interval_slots: slots, ..self }
    }

    /// The endpoint this committer would speak to.
    pub fn rpc_url(&self) -> (r: &str)
        ensures
            r@ == self.spec_rpc_url(),
    {
        self.rpc_url.as_str()
    }

    /// Whether the interval since the last commit has elapsed.
    pub fn should_commit(&self, current_slot: u64) -> (r: bool)
        requires
            current_slot >= self.spec_last_commit_slot(),
        ensures
            r == (current_slot - self.spec_last_commit_slot() >= self.spec_interval()),
    {
        current_slot - self.last_commit_slot >= self.commit_interval_slots
    }

    /// Commit state at `l2_slot`: the slot is recorded, and no signature
    /// comes back while the delegation program is not deployed.
    pub fn commit_state(
        &mut self,
        account_pubkey: &[u8; 32],
        new_data: Vec<u8>,
        l2_slot: u64,
    ) -> (r: Option<[u8; 64]>)
        ensures
            r is None,
            final(self).spec_last_commit_slot() == l2_slot,
            final(self).spec_interval() == old(self).spec_interval(),
            final(self).spec_rpc_url() == old(self).spec_rpc_url(),
    {
        self.last_commit_slot = l2_slot;
        None
    }

    /// The slot of the last commit.
    pub fn last_commit_slot(&self) -> (r: u64)
        ensures
            r == self.spec_last_commit_slot(),
    {
        self.last_commit_slot
    }
}

} // verus!
