//! In-memory account store: a mapping from 32-byte keys to accounts, with a
//! parallel record of the slot in which each key was last written.

use vstd::prelude::*;
use crate::bytes32_eq;

verus! {

/// A stored account: balance, owner program, executable flag, payload bytes.
#[derive(Debug)]
pub struct Account {
    pub lamports: u64,
    pub data: Vec<u8>,
    pub owner: [u8; 32],
    pub executable: bool,
    pub rent_epoch: u64,
}

/// Mathematical value of an [`Account`].
#[verifier::ext_equal]
pub struct AccountV {
    pub lamports: u64,
    pub data: Seq<u8>,
    pub owner: Seq<u8>,
    pub executable: bool,
    pub rent_epoch: u64,
}

impl View for Account {
    type V = AccountV;

    open spec fn view(&self) -> AccountV {
        AccountV {
            lamports: self.lamports,
            data: self.data@,
            owner: self.owner@,
            executable: self.executable,
            rent_epoch: self.rent_epoch,
        }
    }
}

impl Clone for Account {
    fn clone(&self) -> (r: Self)
        ensures
            r@ == self@,
    {
        Account {
            lamports: self.lamports,
            data: self.data.clone(),
            owner: self.owner,
            executable: self.executable,
            rent_epoch: self.rent_epoch,
        }
    }
}

struct StoreEntry {
    key: [u8; 32],
    account: Account,
    slot: u64,
}

/// The account store (component C1): keyed by 32-byte identifiers, one entry
/// per key, each entry carrying the slot of its last mutation.
pub struct AccountStore {
    entries: Vec<StoreEntry>,
}

spec fn has_key(s: Seq<StoreEntry>, k: Seq<u8>) -> bool {
    exists|i: int| 0 <= i < s.len() && s[i].key@ == k
}

spec fn index_of_key(s: Seq<StoreEntry>, k: Seq<u8>) -> int {
    choose|i: int| 0 <= i < s.len() && s[i].key@ == k
}

impl AccountStore {
    /// No two entries share a key.
    pub closed spec fn wf(&self) -> bool {
        forall|i: int, j: int|
            0 <= i < j < self.entries@.len() ==> self.entries@[i].key@ != self.entries@[j].key@
    }

    /// The accounts held, as a map from key bytes to account values.
    pub closed spec fn contents(&self) -> Map<Seq<u8>, AccountV> {
        Map::new(
            |k: Seq<u8>| has_key(self.entries@, k),
            |k: Seq<u8>| self.entries@[index_of_key(self.entries@, k)].account@,
        )
    }

    /// The slot of last mutation for each key held.
    pub closed spec fn slots(&self) -> Map<Seq<u8>, u64> {
        Map::new(
            |k: Seq<u8>| has_key(self.entries@, k),
            |k: Seq<u8>| self.entries@[index_of_key(self.entries@, k)].slot,
        )
    }

    /// The keys held, in insertion order.
    pub closed spec fn keys_in_order(&self) -> Seq<Seq<u8>> {
        Seq::new(self.entries@.len(), |i: int| self.entries@[i].key@)
    }

    /// Number of accounts held.
    pub closed spec fn spec_len(&self) -> nat {
        self.entries@.len()
    }

    proof fn lemma_at_index(&self, i: int)
        requires
            self.wf(),
            0 <= i < self.entries@.len(),
        ensures
            self.contents().dom().contains(self.entries@[i].key@),
            self.contents()[self.entries@[i].key@] == self.entries@[i].account@,
            self.slots()[self.entries@[i].key@] == self.entries@[i].slot,
    {
        let s = self.entries@;
        let k = s[i].key@;
        assert(has_key(s, k));
        let j = index_of_key(s, k);
        assert(0 <= j < s.len() && s[j].key@ == k);
        if i != j {
            if i < j {
                assert(s[i].key@ != s[j].key@);
            } else {
                assert(s[j].key@ != s[i].key@);
            }
        }
    }

    pub fn new() -> (r: Self)
        ensures
            r.wf(),
            r.contents() == Map::<Seq<u8>, AccountV>::empty(),
            r.slots() == Map::<Seq<u8>, u64>::empty(),
            r.spec_len() == 0,
    {
        let r = AccountStore { entries: Vec::new() };
        proof {
            assert(r.contents() =~= Map::<Seq<u8>, AccountV>::empty());
            assert(r.slots() =~= Map::<Seq<u8>, u64>::empty());
        }
        r
    }

    /// Look up an account by key.
    pub fn get_account(&self, pubkey: &[u8; 32]) -> (r: Option<Account>)
        requires
            self.wf(),
        ensures
            match r {
                Some(a) => self.contents().dom().contains(pubkey@) && a@ == self.contents()[pubkey@],
                None => !self.contents().dom().contains(pubkey@),
            },
    {
        let n = self.entries.len();
        let mut i: usize = 0;
        while i < n
            invariant
                self.wf(),
                n == self.entries@.len(),
                i <= n,
                forall|j: int| 0 <= j < i ==> self.entries@[j].key@ != pubkey@,
            decreases n - i,
        {
            if bytes32_eq(&self.entries[i].key, pubkey) {
                proof {
                    self.lemma_at_index(i as int);
                }
                return Some(self.entries[i].account.clone());
            }
            i = i + 1;
        }
        proof {
            assert(!has_key(self.entries@, pubkey@));
        }
        None
    }

    /// Look up an account together with the slot of its last mutation.
    pub fn get_account_with_slot(&self, pubkey: &[u8; 32]) -> (r: Option<(Account, u64)>)
        requires
            self.wf(),
        ensures
            match r {
                Some(p) => self.contents().dom().contains(pubkey@) && p.0@ == self.contents()[pubkey@] && p.1 == self.slots()[pubkey@],
                None => !self.contents().dom().contains(pubkey@),
            },
    {
        let n = self.entries.len();
        let mut i: usize = 0;
        while i < n
            invariant
                self.wf(),
                n == self.entries@.len(),
                i <= n,
                forall|j: int| 0 <= j < i ==> self.entries@[j].key@ != pubkey@,
            decreases n - i,
        {
            if bytes32_eq(&self.entries[i].key, pubkey) {
                proof {
                    self.lemma_at_index(i as int);
                }
                return Some((self.entries[i].account.clone(), self.entries[i].slot));
            }
            i = i + 1;
        }
        proof {
            assert(!has_key(self.entries@, pubkey@));
        }
        None
    }

    /// Insert or replace the account under `pubkey`, tagging it with `slot`.
    pub fn store_account(&mut self, pubkey: [u8; 32], account: Account, slot: u64)
        requires
            old(self).wf(),
        ensures
            final(self).wf(),
            final(self).contents() == old(self).contents().insert(pubkey@, account@),
            final(self).slots() == old(self).slots().insert(pubkey@, slot),
            old(self).contents().dom().contains(pubkey@) ==> final(self).spec_len() == old(
                self,
            ).spec_len(),
            !old(self).contents().dom().contains(pubkey@) ==> final(self).spec_len() == old(
                self,
            ).spec_len() + 1,
            final(self).keys_in_order() == if old(self).contents().dom().contains(pubkey@) {
                old(self).keys_in_order()
            } else {
                old(self).keys_in_order().push(pubkey@)
            },
    {
        let n = self.entries.len();
        let mut i: usize = 0;
        while i < n
            invariant
                self.wf(),
                self.entries@ == old(self).entries@,
                n == self.entries@.len(),
                i <= n,
                forall|j: int| 0 <= j < i ==> self.entries@[j].key@ != pubkey@,
            decreases n - i,
        {
            if bytes32_eq(&self.entries[i].key, &pubkey) {
                proof {
                    self.lemma_at_index(i as int);
                }
                let ghost av = account@;
                self.entries[i] = StoreEntry { key: pubkey, account, slot };
                proof {
                    self.lemma_update_at(old(self), i as int, pubkey@, av, slot);
                }
                return ;
            }
            i = i + 1;
        }
        self.entries.push(StoreEntry { key: pubkey, account, slot });
        proof {
            let s = self.entries@;
            let so = old(self).entries@;
            assert(forall|j: int| 0 <= j < so.len() ==> s[j] == so[j]);
            assert(!has_key(so, pubkey@));
            assert forall|k: Seq<u8>| has_key(s, k) implies (has_key(so, k) || k == pubkey@) by {
                let w = choose|w: int| 0 <= w < s.len() && s[w].key@ == k;
                if w < so.len() {
                    assert(so[w].key@ == k);
                } else {
                    assert(k == pubkey@);
                }
            }
            assert forall|k: Seq<u8>| has_key(so, k) implies has_key(s, k) by {
                let w = choose|w: int| 0 <= w < so.len() && so[w].key@ == k;
                assert(s[w].key@ == k);
            }
            assert(has_key(s, pubkey@)) by {
                assert(s[s.len() - 1].key@ == pubkey@);
            }
            assert forall|k: Seq<u8>| has_key(s, k) && k != pubkey@ implies index_of_key(s, k)
                == index_of_key(so, k) && 0 <= index_of_key(so, k) < so.len() by {
                let w = index_of_key(s, k);
                assert(0 <= w < s.len() && s[w].key@ == k);
                assert(w < so.len());
                let wo = index_of_key(so, k);
                assert(0 <= wo < so.len() && so[wo].key@ == k);
                if w != wo {
                    assert(s[w].key@ == s[wo].key@);
                    assert(false);
                }
            }
            assert(index_of_key(s, pubkey@) == s.len() - 1) by {
                let w = index_of_key(s, pubkey@);
                assert(0 <= w < s.len() && s[w].key@ == pubkey@);
                if w < so.len() {
                    assert(has_key(so, pubkey@));
                }
            }
            assert(self.contents() =~= old(self).contents().insert(pubkey@, account@));
            assert(self.slots() =~= old(self).slots().insert(pubkey@, slot));
            assert(self.keys_in_order() =~= old(self).keys_in_order().push(pubkey@));
        }
    }

    proof fn lemma_update_at(&self, prev: &Self, i: int, k: Seq<u8>, a: AccountV, slot: u64)
        requires
            prev.wf(),
            0 <= i < prev.entries@.len(),
            prev.entries@[i].key@ == k,
            self.entries@ == prev.entries@.update(
                i,
                self.entries@[i],
            ),
            self.entries@[i].key@ == k,
            self.entries@[i].account@ == a,
            self.entries@[i].slot == slot,
        ensures
            self.wf(),
            self.contents() == prev.contents().insert(k, a),
            self.slots() == prev.slots().insert(k, slot),
            self.spec_len() == prev.spec_len(),
            self.keys_in_order() == prev.keys_in_order(),
    {
        let s = self.entries@;
        let so = prev.entries@;
        assert(s.len() == so.len());
        assert(forall|j: int| 0 <= j < s.len() && j != i ==> s[j] == so[j]);
        assert(forall|j: int| 0 <= j < s.len() ==> s[j].key@ == so[j].key@);
        assert(self.wf());
        assert forall|x: Seq<u8>| has_key(s, x) implies has_key(so, x) by {
            let w = choose|w: int| 0 <= w < s.len() && s[w].key@ == x;
            assert(so[w].key@ == x);
        }
        assert forall|x: Seq<u8>| has_key(so, x) implies has_key(s, x) by {
            let w = choose|w: int| 0 <= w < so.len() && so[w].key@ == x;
            assert(s[w].key@ == x);
        }
        assert forall|x: Seq<u8>| has_key(s, x) implies 0 <= index_of_key(s, x) < s.len() && 0
            <= index_of_key(so, x) < s.len() && index_of_key(s, x) == index_of_key(so, x) by {
            let w = index_of_key(s, x);
            assert(0 <= w < s.len() && s[w].key@ == x);
            let wo = index_of_key(so, x);
            assert(0 <= wo < so.len() && so[wo].key@ == x);
            if w != wo {
                assert(s[wo].key@ == so[wo].key@);
                assert(s[w].key@ == s[wo].key@);
                assert(false);
            }
        }
        assert(index_of_key(so, k) == i) by {
            let wo = index_of_key(so, k);
            assert(0 <= wo < so.len() && so[wo].key@ == k);
            if wo != i {
                assert(so[wo].key@ == so[i].key@);
                assert(false);
            }
        }
        assert(self.contents() =~= prev.contents().insert(k, a));
        assert(self.slots() =~= prev.slots().insert(k, slot));
        assert(self.keys_in_order() =~= prev.keys_in_order());
    }

    /// Store several accounts, all tagged with the same slot, in order.
    pub fn store_accounts(&mut self, accounts: &Vec<([u8; 32], Account)>, slot: u64)
        requires
            old(self).wf(),
        ensures
            final(self).wf(),
            final(self).contents() == spec_store_all(
                old(self).contents(),
                accounts@.map_values(|p: ([u8; 32], Account)| (p.0@, p.1@)),
            ),
            final(self).slots() == spec_store_all_slots(
                old(self).slots(),
                accounts@.map_values(|p: ([u8; 32], Account)| (p.0@, p.1@)),
                slot,
            ),
    {
        let ghost pairs = accounts@.map_values(|p: ([u8; 32], Account)| (p.0@, p.1@));
        let n = accounts.len();
        let mut i: usize = 0;
        while i < n
            invariant
                self.wf(),
                n == accounts@.len(),
                i <= n,
                pairs == accounts@.map_values(|p: ([u8; 32], Account)| (p.0@, p.1@)),
                self.contents() == spec_store_all(old(self).contents(), pairs.take(i as int)),
                self.slots() == spec_store_all_slots(
                    old(self).slots(),
                    pairs.take(i as int),
                    slot,
                ),
            decreases n - i,
        {
            let k = accounts[i].0;
            let a = accounts[i].1.clone();
            self.store_account(k, a, slot);
            proof {
                assert(pairs.take(i + 1).drop_last() =~= pairs.take(i as int));
                assert(pairs.take(i + 1).last() == pairs[i as int]);
            }
            i = i + 1;
        }
        proof {
            assert(pairs.take(n as int) =~= pairs);
        }
    }

    /// Does the store hold an account under `pubkey`?
    pub fn account_exists(&self, pubkey: &[u8; 32]) -> (r: bool)
        requires
            self.wf(),
        ensures
            r == self.contents().dom().contains(pubkey@),
    {
        let n = self.entries.len();
        let mut i: usize = 0;
        while i < n
            invariant
                self.wf(),
                n == self.entries@.len(),
                i <= n,
                forall|j: int| 0 <= j < i ==> self.entries@[j].key@ != pubkey@,
            decreases n - i,
        {
            if bytes32_eq(&self.entries[i].key, pubkey) {
                proof {
                    self.lemma_at_index(i as int);
                }
                return true;
            }
            i = i + 1;
        }
        proof {
            assert(!has_key(self.entries@, pubkey@));
        }
        false
    }

    /// Number of accounts held.
    pub fn len(&self) -> (r: usize)
        ensures
            r == self.spec_len(),
    {
        self.entries.len()
    }

    /// Each position of `keys_in_order` is a held key.
    pub proof fn lemma_key_at(&self, j: int)
        requires
            self.wf(),
            0 <= j < self.keys_in_order().len(),
        ensures
            self.contents().dom().contains(self.keys_in_order()[j]),
    {
        self.lemma_at_index(j);
    }

    /// Every held key stands somewhere in `keys_in_order`.
    pub proof fn lemma_dom_in_keys(&self, k: Seq<u8>)
        requires
            self.wf(),
            self.contents().dom().contains(k),
        ensures
            exists|j: int| 0 <= j < self.keys_in_order().len() && self.keys_in_order()[j] == k,
    {
        let w = choose|w: int| 0 <= w < self.entries@.len() && self.entries@[w].key@ == k;
        assert(self.keys_in_order()[w] == k);
    }

    /// Is the store empty?
    pub fn is_empty(&self) -> (r: bool)
        ensures
            r == (self.spec_len() == 0),
    {
        self.entries.len() == 0
    }

    /// Balance under `pubkey`; zero when the key is absent.
    pub fn get_lamports(&self, pubkey: &[u8; 32]) -> (r: u64)
        requires
            self.wf(),
        ensures
            r == if self.contents().dom().contains(pubkey@) {
                self.contents()[pubkey@].lamports
            } else {
                0u64
            },
    {
        match self.get_account(pubkey) {
            Some(a) => a.lamports,
            None => 0,
        }
    }

    /// All keys held, in insertion order.
    pub fn get_all_pubkeys(&self) -> (r: Vec<[u8; 32]>)
        ensures
            r@.map_values(|k: [u8; 32]| k@) == self.keys_in_order(),
            r@.len() == self.spec_len(),
    {
        let n = self.entries.len();
        let mut r: Vec<[u8; 32]> = Vec::new();
        let mut i: usize = 0;
        while i < n
            invariant
                n == self.entries@.len(),
                i <= n,
                r@.len() == i,
                forall|j: int| 0 <= j < i ==> r@[j]@ == self.entries@[j].key@,
            decreases n - i,
        {
            r.push(self.entries[i].key);
            i = i + 1;
        }
        proof {
            assert(r@.map_values(|k: [u8; 32]| k@) =~= self.keys_in_order());
        }
        r
    }

    /// Remove the account under `pubkey`, returning it if it was present.
    pub fn remove_account(&mut self, pubkey: &[u8; 32]) -> (r: Option<Account>)
        requires
            old(self).wf(),
        ensures
            final(self).wf(),
            final(self).contents() == old(self).contents().remove(pubkey@),
            final(self).slots() == old(self).slots().remove(pubkey@),
            match r {
                Some(a) => old(self).contents().dom().contains(pubkey@) && a@ == old(
                    self,
                ).contents()[pubkey@],
                None => !old(self).contents().dom().contains(pubkey@),
            },
    {
        let n = self.entries.len();
        let mut i: usize = 0;
        while i < n
            invariant
                self.wf(),
                self.entries@ == old(self).entries@,
                n == self.entries@.len(),
                i <= n,
                forall|j: int| 0 <= j < i ==> self.entries@[j].key@ != pubkey@,
            decreases n - i,
        {
            if bytes32_eq(&self.entries[i].key, pubkey) {
                proof {
                    self.lemma_at_index(i as int);
                }
                let e = self.entries.remove(i);
                proof {
                    self.lemma_remove_at(old(self), i as int, pubkey@);
                }
                return Some(e.account);
            }
            i = i + 1;
        }
        proof {
            assert(!has_key(self.entries@, pubkey@));
            assert(self.contents() =~= old(self).contents().remove(pubkey@));
            assert(self.slots() =~= old(self).slots().remove(pubkey@));
        }
        None
    }

    proof fn lemma_remove_at(&self, prev: &Self, i: int, k: Seq<u8>)
        requires
            prev.wf(),
            0 <= i < prev.entries@.len(),
            prev.entries@[i].key@ == k,
            self.entries@ == prev.entries@.remove(i),
        ensures
            self.wf(),
            self.contents() == prev.contents().remove(k),
            self.slots() == prev.slots().remove(k),
    {
        let s = self.entries@;
        let so = prev.entries@;
        assert(s.len() == so.len() - 1);
        assert(forall|j: int| 0 <= j < i ==> s[j] == so[j]);
        assert(forall|j: int| i <= j < s.len() ==> s[j] == so[j + 1]);
        assert forall|p: int, q: int| 0 <= p < q < s.len() implies s[p].key@ != s[q].key@ by {
            let po: int = if p < i { p } else { p + 1 };
            let qo: int = if q < i { q } else { q + 1 };
            assert(s[p] == so[po] && s[q] == so[qo]);
            assert(so[po].key@ != so[qo].key@);
        }
        assert forall|x: Seq<u8>| has_key(s, x) implies has_key(so, x) && x != k by {
            let w = choose|w: int| 0 <= w < s.len() && s[w].key@ == x;
            let wo: int = if w < i { w } else { w + 1 };
            assert(so[wo].key@ == x);
            if x == k {
                assert(so[wo].key@ == so[i].key@ && wo != i);
                assert(false);
            }
        }
        assert forall|x: Seq<u8>| has_key(so, x) && x != k implies has_key(s, x) by {
            let wo = choose|w: int| 0 <= w < so.len() && so[w].key@ == x;
            if wo != i {
                let w: int = if wo < i { wo } else { wo - 1 };
                assert(s[w] == so[wo]);
                assert(s[w].key@ == x);
            } else {
                assert(x == k);
            }
        }
        assert forall|x: Seq<u8>| has_key(s, x) implies {
            &&& 0 <= index_of_key(s, x) < s.len()
            &&& 0 <= index_of_key(so, x) < so.len()
            &&& s[index_of_key(s, x)] == so[index_of_key(so, x)]
        } by {
            let w = index_of_key(s, x);
            assert(0 <= w < s.len() && s[w].key@ == x);
            let wo = index_of_key(so, x);
            assert(0 <= wo < so.len() && so[wo].key@ == x);
            let wmap: int = if w < i { w } else { w + 1 };
            assert(s[w] == so[wmap]);
            if wmap != wo {
                assert(so[wmap].key@ == so[wo].key@);
                assert(false);
            }
        }
        assert(self.contents() =~= prev.contents().remove(k));
        assert(self.slots() =~= prev.slots().remove(k));
    }

    /// Drop every account.
    pub fn clear(&mut self)
        ensures
            final(self).wf(),
            final(self).contents() == Map::<Seq<u8>, AccountV>::empty(),
            final(self).slots() == Map::<Seq<u8>, u64>::empty(),
            final(self).spec_len() == 0,
    {
        self.entries.clear();
        proof {
            assert(self.contents() =~= Map::<Seq<u8>, AccountV>::empty());
            assert(self.slots() =~= Map::<Seq<u8>, u64>::empty());
        }
    }

    /// The keys and accounts owned by `program_id`: a point-in-time scan, in
    /// insertion order, holding exactly the held accounts with that owner.
    pub fn get_program_accounts(&self, program_id: &[u8; 32]) -> (r: Vec<([u8; 32], Account)>)
        requires
            self.wf(),
        ensures
            forall|j: int|
                0 <= j < r@.len() ==> owned_pair(self.contents(), program_id@, #[trigger] r@[j]),
            forall|k: Seq<u8>|
                self.contents().dom().contains(k) && self.contents()[k].owner == program_id@
                    ==> exists|j: int| 0 <= j < r@.len() && (#[trigger] r@[j]).0@ == k,
    {
        let n = self.entries.len();
        let mut r: Vec<([u8; 32], Account)> = Vec::new();
        let mut i: usize = 0;
        while i < n
            invariant
                self.wf(),
                n == self.entries@.len(),
                i <= n,
                forall|j: int|
                    0 <= j < r@.len() ==> owned_pair(
                        self.contents(),
                        program_id@,
                        #[trigger] r@[j],
                    ),
                forall|w: int|
                    0 <= w < i && (#[trigger] self.entries@[w].account@.owner) == program_id@
                        ==> exists|j: int| 0 <= j < r@.len() && (#[trigger] r@[j]).0@
                        == self.entries@[w].key@,
            decreases n - i,
        {
            let ghost r_old = r@;
            if bytes32_eq(&self.entries[i].account.owner, program_id) {
                proof {
                    self.lemma_at_index(i as int);
                }
                let k = self.entries[i].key;
                let a = self.entries[i].account.clone();
                r.push((k, a));
                proof {
                    assert(r@.len() == r_old.len() + 1);
                    assert(forall|jj: int| 0 <= jj < r_old.len() ==> r_old[jj] == #[trigger] r@[jj]);
                    assert forall|j: int| 0 <= j < r@.len() implies owned_pair(
                        self.contents(),
                        program_id@,
                        #[trigger] r@[j],
                    ) by {
                        if j < r_old.len() {
                            assert(r@[j] == r_old[j]);
                        } else {
                            assert(r@[j].0@ == self.entries@[i as int].key@);
                            assert(r@[j].1@ == self.entries@[i as int].account@);
                        }
                    }
                    assert forall|w: int|
                        0 <= w < i + 1 && (#[trigger] self.entries@[w].account@.owner)
                            == program_id@ implies exists|j: int|
                        0 <= j < r@.len() && (#[trigger] r@[j]).0@ == self.entries@[w].key@ by {
                        if w < i {
                            assert(exists|j: int|
                                0 <= j < r_old.len() && (#[trigger] r_old[j]).0@
                                    == self.entries@[w].key@);
                            let j0 = choose|j: int|
                                0 <= j < r_old.len() && (#[trigger] r_old[j]).0@
                                    == self.entries@[w].key@;
                            assert(0 <= j0 < r@.len() && (r@[j0]).0@ == self.entries@[w].key@);
                        } else {
                            assert(0 <= r@.len() - 1 < r@.len() && (r@[r@.len() - 1]).0@
                                == self.entries@[w].key@);
                        }
                    }
                }
            } else {
                proof {
                    assert forall|w: int|
                        0 <= w < i + 1 && (#[trigger] self.entries@[w].account@.owner)
                            == program_id@ implies exists|j: int|
                        0 <= j < r@.len() && (#[trigger] r@[j]).0@ == self.entries@[w].key@ by {
                        assert(w < i);
                    }
                }
            }
            i = i + 1;
        }
        proof {
            assert forall|k: Seq<u8>|
                self.contents().dom().contains(k) && self.contents()[k].owner
                    == program_id@ implies exists|j: int|
                0 <= j < r@.len() && (#[trigger] r@[j]).0@ == k by {
                let w = choose|w: int| 0 <= w < self.entries@.len() && self.entries@[w].key@ == k;
                self.lemma_at_index(w);
                assert(self.entries@[w].account@.owner == program_id@);
            }
        }
        r
    }
}

/// `p` is an account pair owned by `owner` and held, with that value, in `m`.
pub open spec fn owned_pair(
    m: Map<Seq<u8>, AccountV>,
    owner: Seq<u8>,
    p: ([u8; 32], Account),
) -> bool {
    &&& p.1@.owner == owner
    &&& m.dom().contains(p.0@)
    &&& m[p.0@] == p.1@
}


/// The slot tags after storing each pair of `pairs` in turn at `slot`.
pub open spec fn spec_store_all_slots(
    m: Map<Seq<u8>, u64>,
    pairs: Seq<(Seq<u8>, AccountV)>,
    slot: u64,
) -> Map<Seq<u8>, u64>
    decreases pairs.len(),
{
    if pairs.len() == 0 {
        m
    } else {
        spec_store_all_slots(m, pairs.drop_last(), slot).insert(pairs.last().0, slot)
    }
}

/// Store each `(key, account)` pair of `pairs` in turn into `m`.
pub open spec fn spec_store_all(
    m: Map<Seq<u8>, AccountV>,
    pairs: Seq<(Seq<u8>, AccountV)>,
) -> Map<Seq<u8>, AccountV>
    decreases pairs.len(),
{
    if pairs.len() == 0 {
        m
    } else {
        spec_store_all(m, pairs.drop_last()).insert(pairs.last().0, pairs.last().1)
    }
}

} // verus!
