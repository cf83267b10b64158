//! The subscription notifier (component C10): watchers register for a key,
//! and each commit yields the notifications owed to the watchers of the keys
//! it wrote. Delivery itself is the caller's: this component decides who is
//! notified of what.

use vstd::prelude::*;
use crate::account::Account;
use crate::bytes32_eq;

verus! {

/// One registered watcher: an identifier and the key it watches.
#[derive(Debug, Clone, Copy)]
pub struct Subscription {
    pub id: u64,
    pub pubkey: [u8; 32],
}

/// One notification owed to one watcher.
#[derive(Debug)]
pub struct AccountNotification {
    pub subscription_id: u64,
    pub pubkey: [u8; 32],
    pub slot: u64,
    pub account: Account,
}

/// Every notification in `r` is for the key of some write in `updates`.
pub open spec fn notifications_for_batch(
    r: Seq<AccountNotification>,
    updates: Seq<([u8; 32], Account)>,
) -> bool {
    forall|j: int|
        #![trigger r[j]]
        0 <= j < r.len() ==> exists|w: int|
            #![trigger updates[w]]
            0 <= w < updates.len() && r[j].pubkey@ == updates[w].0@
}

/// The registry of watchers.
pub struct SubscriptionManager {
    subs: Vec<Subscription>,
    next_id: u64,
}

impl SubscriptionManager {
    /// The live subscriptions, in registration order.
    pub closed spec fn subs(&self) -> Seq<Subscription> {
        self.subs@
    }

    pub closed spec fn spec_next_id(&self) -> u64 {
        self.next_id
    }

    /// Identifiers are unique and below the next to be handed out.
    pub closed spec fn wf(&self) -> bool {
        &&& forall|i: int, j: int|
            0 <= i < j < self.subs@.len() ==> self.subs@[i].id != self.subs@[j].id
        &&& forall|i: int| 0 <= i < self.subs@.len() ==> (#[trigger] self.subs@[i]).id
            < self.next_id
    }

    pub fn new() -> (r: Self)
        ensures
            r.wf(),
            r.subs() == Seq::<Subscription>::empty(),
            r.spec_next_id() == 1,
    {
        SubscriptionManager { subs: Vec::new(), next_id: 1 }
    }

    /// Register a watcher for `pubkey`; the fresh identifier is returned.
    pub fn subscribe_account(&mut self, pubkey: [u8; 32]) -> (id: u64)
        requires
            old(self).wf(),
            old(self).spec_next_id() < u64::MAX,
        ensures
            final(self).wf(),
            id == old(self).spec_next_id(),
            final(self).subs() == old(self).subs().push(Subscription { id, pubkey }),
            final(self).spec_next_id() == old(self).spec_next_id() + 1,
    {
        let id = self.next_id;
        self.next_id = self.next_id + 1;
        self.subs.push(Subscription { id, pubkey });
        id
    }

    /// Remove the watcher with the given identifier; answers whether one was
    /// registered under it. Nothing else changes: on success the matching
    /// entry alone leaves the registry.
    pub fn unsubscribe(&mut self, subscription_id: u64) -> (r: bool)
        requires
            old(self).wf(),
        ensures
            final(self).wf(),
            final(self).spec_next_id() == old(self).spec_next_id(),
            r ==> exists|i: int|
                0 <= i < old(self).subs().len() && old(self).subs()[i].id == subscription_id
                    && final(self).subs() == #[trigger] old(self).subs().remove(i),
            !r ==> final(self).subs() == old(self).subs() && (forall|i: int|
                0 <= i < old(self).subs().len() ==> (#[trigger] old(self).subs()[i]).id
                    != subscription_id),
            forall|i: int|
                0 <= i < final(self).subs().len() ==> (#[trigger] final(self).subs()[i]).id
                    != subscription_id,
    {
        let n = self.subs.len();
        let mut i: usize = 0;
        while i < n
            invariant
                self.wf(),
                self.subs() == old(self).subs(),
                self.spec_next_id() == old(self).spec_next_id(),
                n == self.subs().len(),
                i <= n,
                forall|j: int| 0 <= j < i ==> (#[trigger] self.subs()[j]).id != subscription_id,
            decreases n - i,
        {
            if self.subs[i].id == subscription_id {
                let ghost pre = self.subs();
                proof {
                    assert(pre[i as int].id == subscription_id);
                }
                let _ = self.subs.remove(i);
                proof {
                    assert(self.subs() =~= pre.remove(i as int));
                    assert(forall|j: int| 0 <= j < i ==> self.subs()[j] == #[trigger] pre[j]);
                    assert(forall|j: int|
                        i <= j < self.subs().len() ==> self.subs()[j] == #[trigger] pre[j + 1]);
                    assert forall|p: int, q: int|
                        0 <= p < q < self.subs().len() implies self.subs()[p].id
                        != self.subs()[q].id by {
                        let po: int = if p < i {
                            p
                        } else {
                            p + 1
                        };
                        let qo: int = if q < i {
                            q
                        } else {
                            q + 1
                        };
                        assert(self.subs()[p] == pre[po] && self.subs()[q] == pre[qo]);
                    }
                    assert forall|w: int|
                        0 <= w < self.subs().len() implies (#[trigger] self.subs()[w]).id
                        != subscription_id by {
                        if w >= i {
                            assert(self.subs()[w] == pre[w + 1]);
                            assert(pre[w + 1].id != pre[i as int].id);
                        }
                    }
                    assert forall|w: int|
                        0 <= w < self.subs().len() implies (#[trigger] self.subs()[w]).id
                        < self.spec_next_id() by {
                        let wo: int = if w < i {
                            w
                        } else {
                            w + 1
                        };
                        assert(self.subs()[w] == pre[wo]);
                    }
                }
                return true;
            }
            i = i + 1;
        }
        false
    }

    /// The notifications owed for a write of `account` under `pubkey` at
    /// `slot`: one per watcher of that key, in registration order.
    pub fn notify_account_update(&self, pubkey: &[u8; 32], slot: u64, account: &Account) -> (r:
        Vec<AccountNotification>)
        ensures
            forall|j: int|
                0 <= j < r@.len() ==> {
                    &&& (#[trigger] r@[j]).pubkey@ == pubkey@
                    &&& r@[j].slot == slot
                    &&& r@[j].account@ == account@
                    &&& exists|i: int|
                        0 <= i < self.subs().len() && (#[trigger] self.subs()[i]).id == r@[j].subscription_id
                            && self.subs()[i].pubkey@ == pubkey@
                },
            forall|i: int|
                0 <= i < self.subs().len() && (#[trigger] self.subs()[i]).pubkey@ == pubkey@
                    ==> exists|j: int|
                    0 <= j < r@.len() && (#[trigger] r@[j]).subscription_id == self.subs()[i].id,
    {
        let n = self.subs.len();
        let mut r: Vec<AccountNotification> = Vec::new();
        let mut i: usize = 0;
        while i < n
            invariant
                n == self.subs().len(),
                i <= n,
                forall|j: int|
                    0 <= j < r@.len() ==> {
                        &&& (#[trigger] r@[j]).pubkey@ == pubkey@
                        &&& r@[j].slot == slot
                        &&& r@[j].account@ == account@
                        &&& exists|w: int|
                            0 <= w < self.subs().len() && (#[trigger] self.subs()[w]).id == r@[j].subscription_id
                                && self.subs()[w].pubkey@ == pubkey@
                    },
                forall|w: int|
                    0 <= w < i && (#[trigger] self.subs()[w]).pubkey@ == pubkey@ ==> exists|j: int|
                        0 <= j < r@.len() && (#[trigger] r@[j]).subscription_id
                            == self.subs()[w].id,
            decreases n - i,
        {
            let sub = self.subs[i];
            proof {
                assert(sub == self.subs()[i as int]);
            }
            if bytes32_eq(&sub.pubkey, pubkey) {
                let ghost r_old = r@;
                r.push(
                    AccountNotification {
                        subscription_id: sub.id,
                        pubkey: *pubkey,
                        slot,
                        account: account.clone(),
                    },
                );
                proof {
                    assert(forall|j: int| 0 <= j < r_old.len() ==> r_old[j] == #[trigger] r@[j]);
                    assert((r@[r@.len() - 1]).subscription_id == self.subs()[i as int].id);
                    assert((r@[r@.len() - 1]).pubkey@ == pubkey@);
                    assert((r@[r@.len() - 1]).account@ == account@);
                    assert(self.subs()[i as int].pubkey@ == pubkey@);
                    assert forall|w: int|
                        0 <= w < i + 1 && (#[trigger] self.subs()[w]).pubkey@
                            == pubkey@ implies exists|j: int|
                        0 <= j < r@.len() && (#[trigger] r@[j]).subscription_id
                            == self.subs()[w].id by {
                        if w < i {
                            let j0 = choose|j: int|
                                0 <= j < r_old.len() && (#[trigger] r_old[j]).subscription_id
                                    == self.subs()[w].id;
                            assert(r@[j0] == r_old[j0]);
                        } else {
                            assert((r@[r@.len() - 1]).subscription_id == self.subs()[w].id);
                        }
                    }
                }
            }
            i = i + 1;
        }
        r
    }

    /// The notifications owed for a batch of writes: each notification is
    /// for the key of some write in the batch.
    pub fn notify_account_updates(&self, updates: &Vec<([u8; 32], Account)>, slot: u64) -> (r: Vec<
        AccountNotification,
    >)
        ensures
            notifications_for_batch(r@, updates@),
    {
        let n = updates.len();
        let mut r: Vec<AccountNotification> = Vec::new();
        let mut i: usize = 0;
        while i < n
            invariant
                n == updates@.len(),
                i <= n,
                notifications_for_batch(r@, updates@),
            decreases n - i,
        {
            let batch = self.notify_account_update(&updates[i].0, slot, &updates[i].1);
            let ghost r_old = r@;
            let m = batch.len();
            let mut k: usize = 0;
            while k < m
                invariant
                    m == batch@.len(),
                    k <= m,
                    i < n,
                    n == updates@.len(),
                    forall|j: int|
                        0 <= j < batch@.len() ==> (#[trigger] batch@[j]).pubkey@ == updates@[
                        i as int].0@,
                    r@.len() == r_old.len() + k,
                    forall|j: int| 0 <= j < r_old.len() ==> r_old[j] == #[trigger] r@[j],
                    forall|j: int|
                        r_old.len() <= j < r@.len() ==> (#[trigger] r@[j]).pubkey@ == updates@[
                        i as int].0@,
                    notifications_for_batch(r_old, updates@),
                decreases m - k,
            {
                let note = AccountNotification {
                    subscription_id: batch[k].subscription_id,
                    pubkey: batch[k].pubkey,
                    slot: batch[k].slot,
                    account: batch[k].account.clone(),
                };
                r.push(note);
                k = k + 1;
            }
            proof {
                assert forall|j: int| #![trigger r@[j]] 0 <= j < r@.len() implies exists|w: int|
                    #![trigger updates@[w]]
                    0 <= w < updates@.len() && r@[j].pubkey@ == updates@[w].0@ by {
                    if j < r_old.len() {
                        assert(r@[j] == r_old[j]);
                        assert(exists|w: int|
                            #![trigger updates@[w]]
                            0 <= w < updates@.len() && r_old[j].pubkey@ == updates@[w].0@);
                    } else {
                        assert(r@[j].pubkey@ == (updates@[i as int]).0@);
                        assert(0 <= i < updates@.len() && r@[j].pubkey@ == (updates@[i as int]).0@);
                    }
                }
                assert(notifications_for_batch(r@, updates@));
            }
            i = i + 1;
        }
        r
    }

    /// How many watchers are registered.
    pub fn subscription_count(&self) -> (r: usize)
        ensures
            r == self.subs().len(),
    {
        self.subs.len()
    }

    /// Is a watcher registered under this identifier?
    pub fn has_subscription(&self, subscription_id: u64) -> (r: bool)
        ensures
            r == exists|i: int|
                0 <= i < self.subs().len() && (#[trigger] self.subs()[i]).id == subscription_id,
    {
        let n = self.subs.len();
        let mut i: usize = 0;
        while i < n
            invariant
                n == self.subs().len(),
                i <= n,
                forall|j: int| 0 <= j < i ==> (#[trigger] self.subs()[j]).id != subscription_id,
            decreases n - i,
        {
            if self.subs[i].id == subscription_id {
                proof {
                    assert(self.subs()[i as int].id == subscription_id);
                }
                return true;
            }
            i = i + 1;
        }
        false
    }
}

} // verus!
