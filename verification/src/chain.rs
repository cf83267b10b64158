//! Chain record types: account writes, hash-chained state changes, and the
//! messages exchanged between a leader and its followers.

use vstd::prelude::*;
use vstd::bytes::spec_u64_to_le_bytes;
use crate::hashing::{blake3_of, blake3_hash};

verus! {

/// One account mutation recorded in a slot.
#[derive(Debug)]
pub struct AccountWrite {
    pub pubkey: [u8; 32],
    pub data: Vec<u8>,
    pub lamports: u64,
    pub owner: [u8; 32],
}

/// Mathematical value of an [`AccountWrite`].
#[verifier::ext_equal]
pub struct AccountWriteV {
    pub pubkey: Seq<u8>,
    pub data: Seq<u8>,
    pub lamports: u64,
    pub owner: Seq<u8>,
}

impl View for AccountWrite {
    type V = AccountWriteV;

    open spec fn view(&self) -> AccountWriteV {
        AccountWriteV {
            pubkey: self.pubkey@,
            data: self.data@,
            lamports: self.lamports,
            owner: self.owner@,
        }
    }
}

impl Clone for AccountWrite {
    fn clone(&self) -> (r: Self)
        ensures
            r@ == self@,
    {
        AccountWrite {
            pubkey: self.pubkey,
            data: self.data.clone(),
            lamports: self.lamports,
            owner: self.owner,
        }
    }
}

/// The sealed record of one non-empty slot (component C6's log entry).
///
/// `new_state_root` is the BLAKE3 digest of this record's hash input; the
/// `prev_state_root` of each broadcast record equals the `new_state_root` of
/// the record broadcast before it.
#[derive(Debug)]
pub struct StateChange {
    pub slot: u64,
    pub prev_state_root: [u8; 32],
    pub new_state_root: [u8; 32],
    pub writes: Vec<AccountWrite>,
    pub timestamp: u64,
    pub leader_signature: Vec<u8>,
}

/// Mathematical value of a [`StateChange`].
#[verifier::ext_equal]
pub struct StateChangeV {
    pub slot: u64,
    pub prev_state_root: Seq<u8>,
    pub new_state_root: Seq<u8>,
    pub writes: Seq<AccountWriteV>,
    pub timestamp: u64,
    pub leader_signature: Seq<u8>,
}

impl View for StateChange {
    type V = StateChangeV;

    open spec fn view(&self) -> StateChangeV {
        StateChangeV {
            slot: self.slot,
            prev_state_root: self.prev_state_root@,
            new_state_root: self.new_state_root@,
            writes: self.writes@.map_values(|w: AccountWrite| w@),
            timestamp: self.timestamp,
            leader_signature: self.leader_signature@,
        }
    }
}

impl Clone for StateChange {
    fn clone(&self) -> (r: Self)
        ensures
            r@ == self@,
    {
        let mut writes: Vec<AccountWrite> = Vec::new();
        let n = self.writes.len();
        let mut i: usize = 0;
        while i < n
            invariant
                n == self.writes@.len(),
                i <= n,
                writes@.len() == i,
                forall|j: int| 0 <= j < i ==> writes@[j]@ == self.writes@[j]@,
            decreases n - i,
        {
            writes.push(self.writes[i].clone());
            i = i + 1;
        }
        let r = StateChange {
            slot: self.slot,
            prev_state_root: self.prev_state_root,
            new_state_root: self.new_state_root,
            writes,
            timestamp: self.timestamp,
            leader_signature: self.leader_signature.clone(),
        };
        proof {
            assert(r@.writes =~= self@.writes);
            assert(r@ =~= self@);
        }
        r
    }
}

/// The 32-byte all-zero root from which every chain starts.
pub open spec fn zero_root() -> Seq<u8> {
    Seq::new(32, |i: int| 0u8)
}

/// The all-zero 32-byte value.
pub fn zeroed_root() -> (r: [u8; 32])
    ensures
        r@ == zero_root(),
{
    let r = [0u8; 32];
    proof {
        assert(r@ =~= zero_root());
    }
    r
}

/// The bytes a single write contributes to the hash input:
/// `key || data || lamports (little endian) || owner`.
pub open spec fn write_hash_bytes(w: AccountWriteV) -> Seq<u8> {
    w.pubkey + w.data + spec_u64_to_le_bytes(w.lamports) + w.owner
}

/// The concatenated hash bytes of a sequence of writes, in order.
pub open spec fn writes_hash_bytes(ws: Seq<AccountWriteV>) -> Seq<u8>
    decreases ws.len(),
{
    if ws.len() == 0 {
        Seq::empty()
    } else {
        writes_hash_bytes(ws.drop_last()) + write_hash_bytes(ws.last())
    }
}

/// The full hash input of a record:
/// `slot || prev_state_root || timestamp || writes`, all integers little
/// endian. The claimed `new_state_root` and the signature are outputs of the
/// record and are not hashed.
pub open spec fn state_change_hash_input(sc: StateChangeV) -> Seq<u8> {
    spec_u64_to_le_bytes(sc.slot) + sc.prev_state_root + spec_u64_to_le_bytes(sc.timestamp)
        + writes_hash_bytes(sc.writes)
}

/// The root a record with the given body seals to.
pub open spec fn sealed_root(sc: StateChangeV) -> Seq<u8> {
    blake3_of(state_change_hash_input(sc))
}

impl StateChange {
    /// A fresh, unsealed record for `slot`, chained to `prev_state_root`.
    pub fn new(slot: u64, prev_state_root: [u8; 32], timestamp: u64) -> (r: Self)
        ensures
            r@.slot == slot,
            r@.prev_state_root == prev_state_root@,
            r@.new_state_root == zero_root(),
            r@.writes == Seq::<AccountWriteV>::empty(),
            r@.timestamp == timestamp,
            r@.leader_signature == Seq::<u8>::empty(),
    {
        let r = StateChange {
            slot,
            prev_state_root,
            new_state_root: zeroed_root(),
            writes: Vec::new(),
            timestamp,
            leader_signature: Vec::new(),
        };
        proof {
            assert(r@.writes =~= Seq::<AccountWriteV>::empty());
        }
        r
    }

    /// Record one more account write.
    pub fn add_write(&mut self, pubkey: [u8; 32], data: Vec<u8>, lamports: u64, owner: [u8; 32])
        ensures
            final(self)@ == (StateChangeV {
                writes: old(self)@.writes.push(
                    AccountWriteV { pubkey: pubkey@, data: data@, lamports, owner: owner@ },
                ),
                ..old(self)@
            }),
    {
        let ghost dv = data@;
        self.writes.push(AccountWrite { pubkey, data, lamports, owner });
        proof {
            assert(self@.writes =~= old(self)@.writes.push(
                AccountWriteV { pubkey: pubkey@, data: dv, lamports, owner: owner@ },
            ));
            assert(self@ =~= StateChangeV {
                writes: old(self)@.writes.push(
                    AccountWriteV { pubkey: pubkey@, data: dv, lamports, owner: owner@ },
                ),
                ..old(self)@
            });
        }
    }

    /// The canonical hash input of this record.
    pub fn hash_input(&self) -> (r: Vec<u8>)
        ensures
            r@ == state_change_hash_input(self@),
    {
        let mut r: Vec<u8> = vstd::bytes::u64_to_le_bytes(self.slot);
        r.extend_from_slice(self.prev_state_root.as_slice());
        let ts = vstd::bytes::u64_to_le_bytes(self.timestamp);
        r.extend_from_slice(ts.as_slice());
        proof {
            assert(r@ =~= spec_u64_to_le_bytes(self@.slot) + self@.prev_state_root
                + spec_u64_to_le_bytes(self@.timestamp));
        }
        let ghost header = r@;
        let n = self.writes.len();
        let mut i: usize = 0;
        while i < n
            invariant
                n == self.writes@.len(),
                i <= n,
                r@ == header + writes_hash_bytes(self@.writes.take(i as int)),
            decreases n - i,
        {
            let w = &self.writes[i];
            r.extend_from_slice(w.pubkey.as_slice());
            r.extend_from_slice(w.data.as_slice());
            let lam = vstd::bytes::u64_to_le_bytes(w.lamports);
            r.extend_from_slice(lam.as_slice());
            r.extend_from_slice(w.owner.as_slice());
            proof {
                let ws = self@.writes;
                assert(ws.take(i + 1).drop_last() =~= ws.take(i as int));
                assert(ws.take(i + 1).last() == ws[i as int]);
                assert(ws[i as int] == self.writes@[i as int]@);
                assert(r@ =~= header + writes_hash_bytes(ws.take(i + 1)));
            }
            i = i + 1;
        }
        proof {
            assert(self@.writes.take(n as int) =~= self@.writes);
        }
        r
    }

    /// The BLAKE3 digest of this record's hash input.
    pub fn compute_hash(&self) -> (r: [u8; 32])
        ensures
            r@ == sealed_root(self@),
    {
        let input = self.hash_input();
        blake3_hash(input.as_slice())
    }
}

/// Two records whose slot, previous root, timestamp and writes agree seal to
/// the same root: the root is a function of the record's body alone, so two
/// runs that produce the same bodies produce the same chain of roots.
pub proof fn lemma_seal_deterministic(a: StateChangeV, b: StateChangeV)
    requires
        a.slot == b.slot,
        a.prev_state_root == b.prev_state_root,
        a.timestamp == b.timestamp,
        a.writes == b.writes,
    ensures
        sealed_root(a) == sealed_root(b),
{
}

/// A node is either the single leader or one of the verifying followers.
#[derive(Debug, Clone, Copy, PartialEq, Eq, Structural)]
pub enum NodeRole {
    Leader,
    Validator,
}

/// Configuration of a consensus node.
#[derive(Debug)]
pub struct ConsensusConfig {
    pub role: NodeRole,
    pub node_id: [u8; 32],
    pub leader_addr: String,
    pub broadcast_port: u16,
    pub checkpoint_interval: u64,
}

impl Clone for ConsensusConfig {
    fn clone(&self) -> (r: Self)
        ensures
            r.role == self.role,
            r.node_id@ == self.node_id@,
            r.leader_addr@ == self.leader_addr@,
            r.broadcast_port == self.broadcast_port,
            r.checkpoint_interval == self.checkpoint_interval,
    {
        ConsensusConfig {
            role: self.role,
            node_id: self.node_id,
            leader_addr: self.leader_addr.clone(),
            broadcast_port: self.broadcast_port,
            checkpoint_interval: self.checkpoint_interval,
        }
    }
}

impl Default for ConsensusConfig {
    fn default() -> (r: Self)
        ensures
            r.role == NodeRole::Leader,
            r.node_id@ == zero_root(),
            r.leader_addr@ == "127.0.0.1:9000"@,
            r.broadcast_port == 9000,
            r.checkpoint_interval == 100,
    {
        ConsensusConfig {
            role: NodeRole::Leader,
            node_id: zeroed_root(),
            leader_addr: String::from_str("127.0.0.1:9000"),
            broadcast_port: 9000,
            checkpoint_interval: 100,
        }
    }
}

/// Counters describing a consensus node's progress.
#[derive(Debug, Clone, Copy)]
pub struct ConsensusStats {
    pub current_slot: u64,
    pub connected_validators: usize,
    pub state_changes_broadcast: u64,
    pub verifications_received: u64,
    pub challenges_received: u64,
    pub last_checkpoint_slot: u64,
}

impl Default for ConsensusStats {
    fn default() -> (r: Self)
        ensures
            r.current_slot == 0,
            r.connected_validators == 0,
            r.state_changes_broadcast == 0,
            r.verifications_received == 0,
            r.challenges_received == 0,
            r.last_checkpoint_slot == 0,
    {
        ConsensusStats {
            current_slot: 0,
            connected_validators: 0,
            state_changes_broadcast: 0,
            verifications_received: 0,
            challenges_received: 0,
            last_checkpoint_slot: 0,
        }
    }
}

/// A frame of the leader-follower protocol. The fraud-challenge reason is
/// carried as UTF-8 bytes, exactly as it travels on the wire.
#[derive(Debug)]
pub enum ValidatorMessage {
    StateChange(StateChange),
    SyncRequest { from_slot: u64 },
    SyncResponse { changes: Vec<StateChange> },
    SlotVerified { slot: u64, validator_id: [u8; 32] },
    FraudChallenge { slot: u64, reason: Vec<u8>, evidence: Vec<u8> },
    Heartbeat { slot: u64 },
}

/// Mathematical value of a [`ValidatorMessage`].
#[verifier::ext_equal]
pub enum ValidatorMessageV {
    StateChange(StateChangeV),
    SyncRequest { from_slot: u64 },
    SyncResponse { changes: Seq<StateChangeV> },
    SlotVerified { slot: u64, validator_id: Seq<u8> },
    FraudChallenge { slot: u64, reason: Seq<u8>, evidence: Seq<u8> },
    Heartbeat { slot: u64 },
}

impl View for ValidatorMessage {
    type V = ValidatorMessageV;

    open spec fn view(&self) -> ValidatorMessageV {
        match self {
            ValidatorMessage::StateChange(sc) => ValidatorMessageV::StateChange(sc@),
            ValidatorMessage::SyncRequest { from_slot } => ValidatorMessageV::SyncRequest {
                from_slot: *from_slot,
            },
            ValidatorMessage::SyncResponse { changes } => ValidatorMessageV::SyncResponse {
                changes: changes@.map_values(|c: StateChange| c@),
            },
            ValidatorMessage::SlotVerified { slot, validator_id } => {
                ValidatorMessageV::SlotVerified { slot: *slot, validator_id: validator_id@ }
            },
            ValidatorMessage::FraudChallenge { slot, reason, evidence } => {
                ValidatorMessageV::FraudChallenge {
                    slot: *slot,
                    reason: reason@,
                    evidence: evidence@,
                }
            },
            ValidatorMessage::Heartbeat { slot } => ValidatorMessageV::Heartbeat { slot: *slot },
        }
    }
}

} // verus!

verus! {

/// The account value that applying a write installs: the written data,
/// lamports and owner; applied accounts are not executable and carry rent
/// epoch zero.
pub open spec fn write_account(w: AccountWriteV) -> crate::account::AccountV {
    crate::account::AccountV {
        lamports: w.lamports,
        data: w.data,
        owner: w.owner,
        executable: false,
        rent_epoch: 0,
    }
}

/// Apply a sequence of writes to an account map, in order.
pub open spec fn apply_writes_to(
    m: Map<Seq<u8>, crate::account::AccountV>,
    ws: Seq<AccountWriteV>,
) -> Map<Seq<u8>, crate::account::AccountV>
    decreases ws.len(),
{
    if ws.len() == 0 {
        m
    } else {
        apply_writes_to(m, ws.drop_last()).insert(ws.last().pubkey, write_account(ws.last()))
    }
}

/// Apply a sequence of writes to the per-key slot map, tagging each written
/// key with `slot`.
pub open spec fn apply_writes_slots(m: Map<Seq<u8>, u64>, ws: Seq<AccountWriteV>, slot: u64) -> Map<
    Seq<u8>,
    u64,
>
    decreases ws.len(),
{
    if ws.len() == 0 {
        m
    } else {
        apply_writes_slots(m, ws.drop_last(), slot).insert(ws.last().pubkey, slot)
    }
}

/// The keys a sequence of writes touches.
pub open spec fn writes_keys(ws: Seq<AccountWriteV>) -> Set<Seq<u8>> {
    Set::new(|k: Seq<u8>| exists|i: int| 0 <= i < ws.len() && (#[trigger] ws[i]).pubkey == k)
}

} // verus!
