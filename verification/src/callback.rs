//! The account-loading callback (the bridge between the executor and the
//! store). A missing account is synthesized rather than refused: a derived
//! key gets a program-owned account sized for the hosting program's record,
//! a plain key gets an empty system-owned account, and either carries enough
//! lamports to pass fee-payer checks. Whether a key is derived is decided
//! outside the core and handed in.

use vstd::prelude::*;
use crate::account::{Account, AccountStore, AccountV};
use crate::bytes32_eq;
use crate::ids::{
    native_loader_id, spec_native_loader_id, spec_system_program_id, spec_world_program_id,
    system_program_id, world_program_id,
};
use crate::world::state::WORLD_PLAYER_LEN;

verus! {

/// Lamports given to a synthesized account, enough for fee-payer checks.
pub const DEFAULT_ACCOUNT_LAMPORTS: u64 = 1_000_000_000;

/// The account synthesized for a missing key: owned by the world program
/// with room for a player record when the key is derived, else owned by the
/// system program with no data.
pub open spec fn spec_default_account(is_derived: bool) -> AccountV {
    AccountV {
        lamports: DEFAULT_ACCOUNT_LAMPORTS,
        data: if is_derived {
            Seq::new(WORLD_PLAYER_LEN as nat, |i: int| 0u8)
        } else {
            Seq::empty()
        },
        owner: if is_derived {
            spec_world_program_id()
        } else {
            spec_system_program_id()
        },
        executable: false,
        rent_epoch: 0,
    }
}

/// The owner a reader should assume for a key: the stored owner, else the
/// owner its synthesized account would carry.
pub open spec fn spec_assumed_owner(
    m: Map<Seq<u8>, AccountV>,
    key: Seq<u8>,
    is_derived: bool,
) -> Seq<u8> {
    if m.dom().contains(key) {
        m[key].owner
    } else if is_derived {
        spec_world_program_id()
    } else {
        spec_system_program_id()
    }
}

/// The account loader handed to the executor: it reads one account store.
pub struct L2AccountLoader {
    account_store: AccountStore,
}

impl L2AccountLoader {
    pub closed spec fn contents(&self) -> Map<Seq<u8>, AccountV> {
        self.account_store.contents()
    }

    pub closed spec fn wf(&self) -> bool {
        self.account_store.wf()
    }

    pub fn new(account_store: AccountStore) -> (r: Self)
        requires
            account_store.wf(),
        ensures
            r.wf(),
            r.contents() == account_store.contents(),
    {
        L2AccountLoader { account_store }
    }

    /// A reference to the store behind the loader.
    pub fn account_store(&self) -> (r: &AccountStore)
        ensures
            r.contents() == self.contents(),
            r.wf() == self.wf(),
    {
        &self.account_store
    }

    /// Load the account under `pubkey`, synthesizing the default for a
    /// missing key: the missing-account rule.
    pub fn get_account_shared_data(&self, pubkey: &[u8; 32], is_derived: bool) -> (r: Option<
        Account,
    >)
        requires
            self.wf(),
        ensures
            r matches Some(a) && a@ == (if self.contents().dom().contains(pubkey@) {
                self.contents()[pubkey@]
            } else {
                spec_default_account(is_derived)
            }),
    {
        match self.account_store.get_account(pubkey) {
            Some(a) => Some(a),
            None => {
                let r = Some(default_account_for_missing(is_derived));
                r
            },
        }
    }

    /// The position in `owners` of the owner assumed for `account`: its
    /// stored owner, or the synthesized owner when the key is missing.
    pub fn account_matches_owners(
        &self,
        account: &[u8; 32],
        is_derived: bool,
        owners: &Vec<[u8; 32]>,
    ) -> (r: Option<usize>)
        requires
            self.wf(),
        ensures
            ({
                let owner = spec_assumed_owner(self.contents(), account@, is_derived);
                match r {
                    Some(i) => i < owners@.len() && owners@[i as int]@ == owner && forall|j: int|
                        0 <= j < i ==> owners@[j]@ != owner,
                    None => forall|j: int| 0 <= j < owners@.len() ==> owners@[j]@ != owner,
                }
            }),
    {
        let owner: [u8; 32] = match self.account_store.get_account(account) {
            Some(a) => a.owner,
            None => {
                if is_derived {
                    world_program_id()
                } else {
                    system_program_id()
                }
            },
        };
        proof {
            assert(owner@ == spec_assumed_owner(self.contents(), account@, is_derived));
        }
        let n = owners.len();
        let mut i: usize = 0;
        while i < n
            invariant
                n == owners@.len(),
                i <= n,
                owner@ == spec_assumed_owner(self.contents(), account@, is_derived),
                forall|j: int| 0 <= j < i ==> owners@[j]@ != owner@,
            decreases n - i,
        {
            if bytes32_eq(&owners[i], &owner) {
                return Some(i);
            }
            i = i + 1;
        }
        None
    }
}

/// The synthesized account for a missing key.
pub fn default_account_for_missing(is_derived: bool) -> (r: Account)
    ensures
        r@ == spec_default_account(is_derived),
{
    let data: Vec<u8> = if is_derived {
        let mut d: Vec<u8> = Vec::new();
        let mut i: usize = 0;
        while i < WORLD_PLAYER_LEN
            invariant
                i <= WORLD_PLAYER_LEN,
                d@.len() == i,
                forall|j: int| 0 <= j < i ==> d@[j] == 0u8,
            decreases WORLD_PLAYER_LEN - i,
        {
            d.push(0u8);
            i = i + 1;
        }
        proof {
            assert(d@ =~= Seq::new(WORLD_PLAYER_LEN as nat, |j: int| 0u8));
        }
        d
    } else {
        Vec::new()
    };
    let owner = if is_derived {
        world_program_id()
    } else {
        system_program_id()
    };
    let r = Account {
        lamports: DEFAULT_ACCOUNT_LAMPORTS,
        data,
        owner,
        executable: false,
        rent_epoch: 0,
    };
    proof {
        assert(r@ =~= spec_default_account(is_derived));
    }
    r
}

/// Register a builtin program: an executable account holding the program's
/// own key as data, owned by the native loader, stored at slot zero.
pub fn add_builtin_account(store: &mut AccountStore, program_id: &[u8; 32])
    requires
        old(store).wf(),
    ensures
        final(store).wf(),
        final(store).contents() == old(store).contents().insert(
            program_id@,
            spec_builtin_account(program_id@),
        ),
{
    let mut data: Vec<u8> = Vec::new();
    data.extend_from_slice(program_id.as_slice());
    let account = Account {
        lamports: 1,
        data,
        owner: native_loader_id(),
        executable: true,
        rent_epoch: 0,
    };
    proof {
        assert(account@ =~= spec_builtin_account(program_id@));
    }
    store.store_account(*program_id, account, 0);
}

/// The account a builtin program is registered under.
pub open spec fn spec_builtin_account(program_id: Seq<u8>) -> AccountV {
    AccountV {
        lamports: 1,
        data: program_id,
        owner: spec_native_loader_id(),
        executable: true,
        rent_epoch: 0,
    }
}

} // verus!
