//! The follower node (component C8): it receives broadcast records, verifies
//! each against its local chain root and the record's own digest, applies the
//! writes on success, and answers with a verification, a fraud challenge, or
//! a sync request when it detects a slot gap.

use vstd::prelude::*;
use crate::account::{Account, AccountStore, AccountV};
use crate::bytes32_eq;
use crate::chain::{
    apply_writes_slots, apply_writes_to, sealed_root, writes_keys, zero_root, zeroed_root,
    AccountWriteV, ConsensusConfig, StateChange, StateChangeV, ValidatorMessage, ValidatorMessageV,
};
use vstd::string::StrSliceExecFns;
use vstd::string::StringSliceAdditionalSpecFns;

verus! {

/// Why a received record was rejected.
#[derive(Debug)]
pub enum VerifyError {
    /// Its `prev_state_root` is not the follower's current root.
    RootMismatch { expected: [u8; 32], got: [u8; 32] },
    /// Its claimed `new_state_root` is not the digest of its own body.
    HashMismatch { computed: [u8; 32], claimed: [u8; 32] },
}

impl VerifyError {
    /// The challenge reason carried on the wire for this rejection.
    pub fn reason(&self) -> (r: Vec<u8>)
        ensures
            (self is RootMismatch) ==> r@ == "root mismatch".spec_bytes(),
            (self is HashMismatch) ==> r@ == "hash mismatch".spec_bytes(),
    {
        match self {
            VerifyError::RootMismatch { .. } => "root mismatch".as_bytes_vec(),
            VerifyError::HashMismatch { .. } => "hash mismatch".as_bytes_vec(),
        }
    }
}

/// What a follower does with a received record.
#[derive(Debug)]
pub enum FollowerAction {
    /// The record verified and was applied; acknowledge `slot`.
    Verified { slot: u64 },
    /// A slot gap was detected; ask the leader to resend from `from_slot`.
    SyncNeeded { from_slot: u64 },
    /// The record is fraudulent; challenge it.
    Challenge { slot: u64, reason: Vec<u8> },
}

/// Follower node: holds a local account store and chain root, and verifies
/// the leader's broadcast records against them.
pub struct ValidatorNode {
    accounts: AccountStore,
    state_root: [u8; 32],
    last_verified_slot: u64,
    config: ConsensusConfig,
    node_id: [u8; 32],
}

impl ValidatorNode {
    /// The follower's account map.
    pub closed spec fn contents(&self) -> Map<Seq<u8>, AccountV> {
        self.accounts.contents()
    }

    /// The follower's per-key last-write slots.
    pub closed spec fn slot_tags(&self) -> Map<Seq<u8>, u64> {
        self.accounts.slots()
    }

    /// The follower's current chain root.
    pub closed spec fn spec_state_root(&self) -> Seq<u8> {
        self.state_root@
    }

    /// The last slot the follower verified.
    pub closed spec fn spec_last_verified(&self) -> u64 {
        self.last_verified_slot
    }

    pub closed spec fn wf(&self) -> bool {
        self.accounts.wf()
    }

    pub fn new(config: ConsensusConfig) -> (r: Self)
        ensures
            r.wf(),
            r.contents() == Map::<Seq<u8>, AccountV>::empty(),
            r.spec_state_root() == zero_root(),
            r.spec_last_verified() == 0,
            r.spec_node_id() == config.node_id@,
    {
        let node_id = config.node_id;
        ValidatorNode {
            accounts: AccountStore::new(),
            state_root: zeroed_root(),
            last_verified_slot: 0,
            config,
            node_id,
        }
    }

    /// Whether `change` would be accepted: its previous root must match the
    /// follower's (a fresh follower at the zero root accepts any), and its
    /// claimed root must be the digest of its body.
    pub open spec fn accepts(&self, c: StateChangeV) -> bool {
        &&& (self.spec_state_root() == zero_root() || c.prev_state_root == self.spec_state_root())
        &&& c.new_state_root == sealed_root(c)
    }

    /// Verify one received record and, on success, apply its writes in order
    /// and advance the local root. A rejected record changes nothing.
    pub fn verify_and_apply(&mut self, change: &StateChange) -> (r: Result<(), VerifyError>)
        requires
            old(self).wf(),
        ensures
            final(self).wf(),
            r is Ok <==> old(self).accepts(change@),
            match r {
                Ok(()) => {
                    &&& final(self).contents() == apply_writes_to(
                        old(self).contents(),
                        change@.writes,
                    )
                    &&& final(self).slot_tags() == apply_writes_slots(
                        old(self).slot_tags(),
                        change@.writes,
                        change@.slot,
                    )
                    &&& final(self).spec_state_root() == change@.new_state_root
                    &&& final(self).spec_last_verified() == change@.slot
                },
                Err(e) => {
                    &&& final(self).contents() == old(self).contents()
                    &&& final(self).slot_tags() == old(self).slot_tags()
                    &&& final(self).spec_state_root() == old(self).spec_state_root()
                    &&& final(self).spec_last_verified() == old(self).spec_last_verified()
                    &&& (e is RootMismatch <==> !(old(self).spec_state_root() == zero_root()
                        || change@.prev_state_root == old(self).spec_state_root()))
                    &&& (e is HashMismatch ==> change@.new_state_root != sealed_root(change@))
                },
            },
    {
        let zero = zeroed_root();
        if !bytes32_eq(&self.state_root, &zero) && !bytes32_eq(
            &change.prev_state_root,
            &self.state_root,
        ) {
            return Err(
                VerifyError::RootMismatch { expected: self.state_root, got: change.prev_state_root },
            );
        }
        let computed = change.compute_hash();
        if !bytes32_eq(&computed, &change.new_state_root) {
            return Err(
                VerifyError::HashMismatch { computed, claimed: change.new_state_root },
            );
        }
        let n = change.writes.len();
        let mut i: usize = 0;
        while i < n
            invariant
                self.wf(),
                n == change.writes@.len(),
                i <= n,
                self.state_root@ == old(self).spec_state_root(),
                self.spec_last_verified() == old(self).spec_last_verified(),
                self.contents() == apply_writes_to(
                    old(self).contents(),
                    change@.writes.take(i as int),
                ),
                self.slot_tags() == apply_writes_slots(
                    old(self).slot_tags(),
                    change@.writes.take(i as int),
                    change@.slot,
                ),
            decreases n - i,
        {
            let w = &change.writes[i];
            let account = Account {
                lamports: w.lamports,
                data: w.data.clone(),
                owner: w.owner,
                executable: false,
                rent_epoch: 0,
            };
            self.accounts.store_account(w.pubkey, account, change.slot);
            proof {
                let ws = change@.writes;
                assert(ws.take(i + 1).drop_last() =~= ws.take(i as int));
                assert(ws.take(i + 1).last() == ws[i as int]);
                assert(ws[i as int] == change.writes@[i as int]@);
            }
            i = i + 1;
        }
        proof {
            assert(change@.writes.take(n as int) =~= change@.writes);
        }
        self.state_root = change.new_state_root;
        self.last_verified_slot = change.slot;
        Ok(())
    }

    /// Handle one received record: detect slot gaps, else verify and apply,
    /// answering with the action the leader should see.
    pub fn on_state_change(&mut self, change: &StateChange) -> (a: FollowerAction)
        requires
            old(self).wf(),
        ensures
            final(self).wf(),
            ({
                let gap = old(self).spec_last_verified() != 0 && change@.slot > old(
                    self,
                ).spec_last_verified() + 1;
                match a {
                    FollowerAction::SyncNeeded { from_slot } => {
                        &&& gap
                        &&& from_slot == old(self).spec_last_verified() + 1
                        &&& final(self).contents() == old(self).contents()
                        &&& final(self).spec_state_root() == old(self).spec_state_root()
                        &&& final(self).spec_last_verified() == old(self).spec_last_verified()
                    },
                    FollowerAction::Verified { slot } => {
                        &&& !gap
                        &&& old(self).accepts(change@)
                        &&& slot == change@.slot
                        &&& final(self).contents() == apply_writes_to(
                            old(self).contents(),
                            change@.writes,
                        )
                        &&& final(self).spec_state_root() == change@.new_state_root
                        &&& final(self).spec_last_verified() == change@.slot
                    },
                    FollowerAction::Challenge { slot, reason } => {
                        &&& !gap
                        &&& !old(self).accepts(change@)
                        &&& slot == change@.slot
                        &&& (reason@ == "root mismatch".spec_bytes() || reason@
                            == "hash mismatch".spec_bytes())
                        &&& final(self).contents() == old(self).contents()
                        &&& final(self).spec_state_root() == old(self).spec_state_root()
                        &&& final(self).spec_last_verified() == old(self).spec_last_verified()
                    },
                }
            }),
    {
        if self.last_verified_slot != 0 && change.slot > self.last_verified_slot && change.slot
            - self.last_verified_slot > 1 {
            return FollowerAction::SyncNeeded { from_slot: self.last_verified_slot + 1 };
        }
        match self.verify_and_apply(change) {
            Ok(()) => FollowerAction::Verified { slot: change.slot },
            Err(e) => FollowerAction::Challenge { slot: change.slot, reason: e.reason() },
        }
    }

    /// The protocol frame answering `action`, from this follower.
    pub fn frame_for(&self, action: &FollowerAction) -> (r: ValidatorMessage)
        ensures
            match action {
                FollowerAction::Verified { slot } => r@ == (ValidatorMessageV::SlotVerified {
                    slot: *slot,
                    validator_id: self.spec_node_id(),
                }),
                FollowerAction::SyncNeeded { from_slot } => r@ == (ValidatorMessageV::SyncRequest {
                    from_slot: *from_slot,
                }),
                FollowerAction::Challenge { slot, reason } => r@
                    == (ValidatorMessageV::FraudChallenge {
                    slot: *slot,
                    reason: reason@,
                    evidence: Seq::<u8>::empty(),
                }),
            },
    {
        match action {
            FollowerAction::Verified { slot } => ValidatorMessage::SlotVerified {
                slot: *slot,
                validator_id: self.node_id,
            },
            FollowerAction::SyncNeeded { from_slot } => ValidatorMessage::SyncRequest {
                from_slot: *from_slot,
            },
            FollowerAction::Challenge { slot, reason } => {
                let r = ValidatorMessage::FraudChallenge {
                    slot: *slot,
                    reason: clone_bytes(reason),
                    evidence: Vec::new(),
                };
                proof {
                    assert(r@ matches ValidatorMessageV::FraudChallenge { evidence, .. }
                        && evidence =~= Seq::<u8>::empty());
                }
                r
            },
        }
    }

    /// This follower's identity.
    pub closed spec fn spec_node_id(&self) -> Seq<u8> {
        self.node_id@
    }

    /// Read an account from the local store.
    pub fn get_account(&self, pubkey: &[u8; 32]) -> (r: Option<Account>)
        requires
            self.wf(),
        ensures
            match r {
                Some(a) => self.contents().dom().contains(pubkey@) && a@ == self.contents()[
                    pubkey@
                ],
                None => !self.contents().dom().contains(pubkey@),
            },
    {
        self.accounts.get_account(pubkey)
    }

    /// The last slot this follower verified.
    pub fn last_verified_slot(&self) -> (r: u64)
        ensures
            r == self.spec_last_verified(),
    {
        self.last_verified_slot
    }

    /// The follower's current chain root.
    pub fn state_root(&self) -> (r: [u8; 32])
        ensures
            r@ == self.spec_state_root(),
    {
        self.state_root
    }
}

fn clone_bytes(v: &Vec<u8>) -> (r: Vec<u8>)
    ensures
        r@ == v@,
{
    v.clone()
}

/// Applying one sequence of writes to two account maps makes them agree on
/// every key the writes touch.
proof fn lemma_writes_agree(
    m1: Map<Seq<u8>, AccountV>,
    m2: Map<Seq<u8>, AccountV>,
    ws: Seq<AccountWriteV>,
    k: Seq<u8>,
)
    requires
        writes_keys(ws).contains(k),
    ensures
        apply_writes_to(m1, ws).dom().contains(k),
        apply_writes_to(m2, ws).dom().contains(k),
        apply_writes_to(m1, ws)[k] == apply_writes_to(m2, ws)[k],
    decreases ws.len(),
{
    let i = choose|i: int| 0 <= i < ws.len() && (#[trigger] ws[i]).pubkey == k;
    if ws.last().pubkey == k {
    } else {
        assert(i < ws.len() - 1);
        assert(ws.drop_last()[i] == ws[i]);
        assert(writes_keys(ws.drop_last()).contains(k));
        lemma_writes_agree(m1, m2, ws.drop_last(), k);
    }
}

/// An untouched key keeps its mapping through a sequence of writes.
proof fn lemma_writes_frame(m: Map<Seq<u8>, AccountV>, ws: Seq<AccountWriteV>, k: Seq<u8>)
    requires
        !writes_keys(ws).contains(k),
    ensures
        apply_writes_to(m, ws).dom().contains(k) == m.dom().contains(k),
        m.dom().contains(k) ==> apply_writes_to(m, ws)[k] == m[k],
    decreases ws.len(),
{
    if ws.len() > 0 {
        assert(forall|j: int|
            0 <= j < ws.drop_last().len() ==> (#[trigger] ws.drop_last()[j]) == ws[j]);
        assert(!writes_keys(ws.drop_last()).contains(k)) by {
            if writes_keys(ws.drop_last()).contains(k) {
                let i = choose|i: int|
                    0 <= i < ws.drop_last().len() && (#[trigger] ws.drop_last()[i]).pubkey == k;
                assert(ws[i].pubkey == k);
            }
        }
        assert(ws.last().pubkey != k) by {
            if ws.last().pubkey == k {
                assert(ws[ws.len() - 1].pubkey == k);
            }
        }
        lemma_writes_frame(m, ws.drop_last(), k);
    }
}

/// The keys touched by any record of a log prefix.
pub open spec fn log_touched_keys(log: Seq<StateChangeV>) -> Set<Seq<u8>> {
    Set::new(
        |k: Seq<u8>| exists|i: int| 0 <= i < log.len() && writes_keys((#[trigger] log[i]).writes).contains(k),
    )
}

/// Replay the writes of each record of `log`, in order, over `m`.
pub open spec fn replay_contents(
    m: Map<Seq<u8>, AccountV>,
    log: Seq<StateChangeV>,
) -> Map<Seq<u8>, AccountV>
    decreases log.len(),
{
    if log.len() == 0 {
        m
    } else {
        apply_writes_to(replay_contents(m, log.drop_last()), log.last().writes)
    }
}

/// Follower equivalence: replaying the same broadcast log over any two
/// account maps — the leader's, holding extra untouched accounts, and a
/// follower's, starting from anything — yields maps that agree exactly on
/// every key touched in that log. The follower's root then equals the
/// leader's, since each applied record sets the root to its sealed digest.
pub proof fn lemma_follower_equivalence(
    m_leader: Map<Seq<u8>, AccountV>,
    m_follower: Map<Seq<u8>, AccountV>,
    log: Seq<StateChangeV>,
    k: Seq<u8>,
)
    requires
        log_touched_keys(log).contains(k),
    ensures
        replay_contents(m_leader, log).dom().contains(k),
        replay_contents(m_follower, log).dom().contains(k),
        replay_contents(m_leader, log)[k] == replay_contents(m_follower, log)[k],
    decreases log.len(),
{
    let i = choose|i: int| 0 <= i < log.len() && writes_keys((#[trigger] log[i]).writes).contains(k);
    if writes_keys(log.last().writes).contains(k) {
        lemma_writes_agree(
            replay_contents(m_leader, log.drop_last()),
            replay_contents(m_follower, log.drop_last()),
            log.last().writes,
            k,
        );
    } else {
        assert(i < log.len() - 1);
        assert(log.drop_last()[i] == log[i]);
        assert(log_touched_keys(log.drop_last()).contains(k));
        lemma_follower_equivalence(m_leader, m_follower, log.drop_last(), k);
        lemma_writes_frame(replay_contents(m_leader, log.drop_last()), log.last().writes, k);
        lemma_writes_frame(replay_contents(m_follower, log.drop_last()), log.last().writes, k);
    }
}

} // verus!

verus! {

/// Step-by-step construction of a follower node.
pub struct ValidatorNodeBuilder {
    config: ConsensusConfig,
}

impl ValidatorNodeBuilder {
    pub closed spec fn spec_config(&self) -> ConsensusConfig {
        self.config
    }

    pub fn new() -> (r: Self)
        ensures
            r.spec_config().role == crate::chain::NodeRole::Validator,
    {
        let base = ConsensusConfig::default();
        ValidatorNodeBuilder {
            config: ConsensusConfig { role: crate::chain::NodeRole::Validator, ..base },
        }
    }

    pub fn leader_addr(self, addr: &str) -> (r: Self)
        ensures
            r.spec_config().leader_addr@ == addr@,
            r.spec_config().node_id == self.spec_config().node_id,
            r.spec_config().role == self.spec_config().role,
    {
        ValidatorNodeBuilder {
            config: ConsensusConfig { leader_addr: addr.to_owned(), ..self.config },
        }
    }

    pub fn node_id(self, id: [u8; 32]) -> (r: Self)
        ensures
            r.spec_config().node_id == id,
            r.spec_config().role == self.spec_config().role,
    {
        ValidatorNodeBuilder { config: ConsensusConfig { node_id: id, ..self.config } }
    }

    pub fn build(self) -> (r: ValidatorNode)
        ensures
            r.wf(),
            r.contents() == Map::<Seq<u8>, crate::account::AccountV>::empty(),
            r.spec_state_root() == zero_root(),
            r.spec_last_verified() == 0,
            r.spec_node_id() == self.spec_config().node_id@,
    {
        ValidatorNode::new(self.config)
    }
}

impl Default for ValidatorNodeBuilder {
    fn default() -> (r: Self)
        ensures
            r.spec_config().role == crate::chain::NodeRole::Validator,
    {
        ValidatorNodeBuilder::new()
    }
}

} // verus!
