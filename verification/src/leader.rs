//! The leader node (component C4's commit side and C6's log): it opens a
//! record at each slot begin, collects the slot's writes, and at slot end
//! seals and broadcasts the record — unless the slot wrote nothing, in which
//! case the chain root does not move and nothing is broadcast.

use vstd::prelude::*;
use crate::bytes32_eq;
use crate::chain::{
    AccountWrite, AccountWriteV, ConsensusConfig, ConsensusStats, StateChange, StateChangeV,
    ValidatorMessage, sealed_root, zero_root, zeroed_root,
};

verus! {

/// Every record of `log` seals its own body, chains to the record before it
/// (the first to `genesis`), and holds at least one write.
pub open spec fn chained_from(log: Seq<StateChangeV>, genesis: Seq<u8>) -> bool {
    forall|i: int|
        0 <= i < log.len() ==> {
            &&& (#[trigger] log[i]).prev_state_root == (if i == 0 {
                genesis
            } else {
                log[i - 1].new_state_root
            })
            &&& log[i].new_state_root == sealed_root(log[i])
            &&& log[i].writes.len() > 0
        }
}

/// No two writes share a key.
pub open spec fn unique_write_keys(ws: Seq<AccountWriteV>) -> bool {
    forall|i: int, j: int|
        0 <= i < j < ws.len() ==> (#[trigger] ws[i]).pubkey != (#[trigger] ws[j]).pubkey
}

/// The position of the write under key `k`.
pub open spec fn write_index_of(ws: Seq<AccountWriteV>, k: Seq<u8>) -> int {
    choose|i: int| 0 <= i < ws.len() && (#[trigger] ws[i]).pubkey == k
}

/// Merge one write into a slot's pending writes: a key already touched in
/// the slot keeps its first-touch position and takes the new write's values
/// (last writer wins); a fresh key is appended.
pub open spec fn spec_merge_write(ws: Seq<AccountWriteV>, w: AccountWriteV) -> Seq<AccountWriteV> {
    if crate::chain::writes_keys(ws).contains(w.pubkey) {
        ws.update(write_index_of(ws, w.pubkey), w)
    } else {
        ws.push(w)
    }
}

/// Submission ordering: the canonical `writes` sequence lists each key at
/// its first-touch position, carrying the last write recorded for it in the
/// slot, with no key twice.
pub proof fn lemma_first_touch_order(ws: Seq<AccountWriteV>, w: AccountWriteV)
    requires
        unique_write_keys(ws),
    ensures
        unique_write_keys(spec_merge_write(ws, w)),
        !crate::chain::writes_keys(ws).contains(w.pubkey) ==> spec_merge_write(ws, w) == ws.push(
            w,
        ),
        crate::chain::writes_keys(ws).contains(w.pubkey) ==> {
            let i = write_index_of(ws, w.pubkey);
            &&& 0 <= i < ws.len()
            &&& ws[i].pubkey == w.pubkey
            &&& spec_merge_write(ws, w) == ws.update(i, w)
        },
        forall|j: int|
            0 <= j < ws.len() ==> (#[trigger] spec_merge_write(ws, w)[j]).pubkey
                == ws[j].pubkey,
        crate::chain::writes_keys(spec_merge_write(ws, w)) == crate::chain::writes_keys(
            ws,
        ).insert(w.pubkey),
{
    let merged = spec_merge_write(ws, w);
    if crate::chain::writes_keys(ws).contains(w.pubkey) {
        let i = write_index_of(ws, w.pubkey);
        assert(0 <= i < ws.len() && ws[i].pubkey == w.pubkey);
        assert(forall|j: int| 0 <= j < ws.len() && j != i ==> merged[j] == ws[j]);
        assert(merged[i] == w);
        assert(unique_write_keys(merged)) by {
            assert forall|p: int, q: int|
                0 <= p < q < merged.len() implies (#[trigger] merged[p]).pubkey != (
            #[trigger] merged[q]).pubkey by {
                if p != i && q != i {
                    assert(merged[p] == ws[p] && merged[q] == ws[q]);
                } else if p == i {
                    assert(merged[q] == ws[q]);
                    assert(ws[i].pubkey != ws[q].pubkey);
                } else {
                    assert(merged[p] == ws[p]);
                    assert(ws[p].pubkey != ws[i].pubkey);
                }
            }
        }
        assert(crate::chain::writes_keys(merged) =~= crate::chain::writes_keys(ws).insert(
            w.pubkey,
        )) by {
            assert forall|k: Seq<u8>|
                crate::chain::writes_keys(merged).contains(k) implies crate::chain::writes_keys(
                ws,
            ).insert(w.pubkey).contains(k) by {
                let j0 = choose|j: int| 0 <= j < merged.len() && (#[trigger] merged[j]).pubkey == k;
                if j0 != i {
                    assert(ws[j0].pubkey == k);
                }
            }
            assert forall|k: Seq<u8>|
                crate::chain::writes_keys(ws).insert(w.pubkey).contains(
                    k,
                ) implies crate::chain::writes_keys(merged).contains(k) by {
                if k == w.pubkey {
                    assert(merged[i].pubkey == k);
                } else {
                    let j0 = choose|j: int| 0 <= j < ws.len() && (#[trigger] ws[j]).pubkey == k;
                    assert(j0 != i);
                    assert(merged[j0].pubkey == k);
                }
            }
        }
    } else {
        assert(forall|j: int| 0 <= j < ws.len() ==> merged[j] == ws[j]);
        assert(merged[merged.len() - 1] == w);
        assert(unique_write_keys(merged)) by {
            assert forall|p: int, q: int|
                0 <= p < q < merged.len() implies (#[trigger] merged[p]).pubkey != (
            #[trigger] merged[q]).pubkey by {
                if q == merged.len() - 1 {
                    assert(merged[p] == ws[p]);
                    if ws[p].pubkey == w.pubkey {
                        assert(crate::chain::writes_keys(ws).contains(w.pubkey));
                    }
                } else {
                    assert(merged[p] == ws[p] && merged[q] == ws[q]);
                }
            }
        }
        assert(crate::chain::writes_keys(merged) =~= crate::chain::writes_keys(ws).insert(
            w.pubkey,
        )) by {
            assert forall|k: Seq<u8>|
                crate::chain::writes_keys(merged).contains(k) implies crate::chain::writes_keys(
                ws,
            ).insert(w.pubkey).contains(k) by {
                let j0 = choose|j: int| 0 <= j < merged.len() && (#[trigger] merged[j]).pubkey == k;
                if j0 < ws.len() {
                    assert(ws[j0].pubkey == k);
                }
            }
            assert forall|k: Seq<u8>|
                crate::chain::writes_keys(ws).insert(w.pubkey).contains(
                    k,
                ) implies crate::chain::writes_keys(merged).contains(k) by {
                if k == w.pubkey {
                    assert(merged[merged.len() - 1].pubkey == k);
                } else {
                    let j0 = choose|j: int| 0 <= j < ws.len() && (#[trigger] ws[j]).pubkey == k;
                    assert(merged[j0].pubkey == k);
                }
            }
        }
    }
}

/// Leader node: executes slots and broadcasts sealed state changes.
pub struct LeaderNode {
    state_root: [u8; 32],
    current_change: Option<StateChange>,
    broadcast_log: Vec<StateChange>,
    stats: ConsensusStats,
    config: ConsensusConfig,
}

impl LeaderNode {
    /// The sealed records broadcast so far, oldest first.
    pub closed spec fn log(&self) -> Seq<StateChangeV> {
        self.broadcast_log@.map_values(|c: StateChange| c@)
    }

    /// The root of the chain: the `new_state_root` of the last broadcast
    /// record, or the zero root before any broadcast.
    pub closed spec fn spec_state_root(&self) -> Seq<u8> {
        self.state_root@
    }

    /// The record open for the current slot, if one is.
    pub closed spec fn pending(&self) -> Option<StateChangeV> {
        match self.current_change {
            Some(c) => Some(c@),
            None => None,
        }
    }

    pub closed spec fn spec_stats(&self) -> ConsensusStats {
        self.stats
    }

    /// The chain is well formed: the log is hash-chained from the zero root,
    /// the state root is the last sealed root, an open record chains to the
    /// state root, and the broadcast counter counts the log.
    pub closed spec fn wf(&self) -> bool {
        &&& chained_from(self.log(), zero_root())
        &&& self.spec_state_root() == (if self.log().len() == 0 {
            zero_root()
        } else {
            self.log().last().new_state_root
        })
        &&& (match self.pending() {
            Some(c) => c.prev_state_root == self.spec_state_root() && unique_write_keys(c.writes),
            None => true,
        })
        &&& (forall|i: int|
            0 <= i < self.log().len() ==> unique_write_keys((#[trigger] self.log()[i]).writes))
        &&& self.stats.state_changes_broadcast == self.log().len()
    }

    pub fn new(config: ConsensusConfig) -> (r: Self)
        ensures
            r.wf(),
            r.log() == Seq::<StateChangeV>::empty(),
            r.spec_state_root() == zero_root(),
            r.pending() is None,
            r.spec_stats().current_slot == 0,
            r.spec_stats().state_changes_broadcast == 0,
    {
        let r = LeaderNode {
            state_root: zeroed_root(),
            current_change: None,
            broadcast_log: Vec::new(),
            stats: ConsensusStats::default(),
            config,
        };
        proof {
            assert(r.log() =~= Seq::<StateChangeV>::empty());
        }
        r
    }

    /// Open a record for `slot`, chained to the current state root.
    pub fn begin_slot(&mut self, slot: u64, timestamp: u64)
        requires
            old(self).wf(),
        ensures
            final(self).wf(),
            final(self).log() == old(self).log(),
            final(self).spec_state_root() == old(self).spec_state_root(),
            final(self).pending() matches Some(c) && c.slot == slot && c.timestamp == timestamp
                && c.prev_state_root == old(self).spec_state_root() && c.writes.len() == 0
                && c.new_state_root == zero_root(),
            final(self).spec_stats().current_slot == slot,
            final(self).spec_stats().state_changes_broadcast == old(
                self,
            ).spec_stats().state_changes_broadcast,
    {
        let change = StateChange::new(slot, self.state_root, timestamp);
        self.current_change = Some(change);
        self.stats.current_slot = slot;
    }

    /// Record an account write into the open record, merging by key: a key
    /// already written this slot keeps its first-touch position and takes
    /// the new values; a fresh key is appended. With no record open, the
    /// write is dropped.
    #[verifier::spinoff_prover]
    #[verifier::rlimit(100)]
    pub fn record_write(&mut self, pubkey: [u8; 32], data: Vec<u8>, lamports: u64, owner: [u8; 32])
        requires
            old(self).wf(),
        ensures
            final(self).wf(),
            final(self).log() == old(self).log(),
            final(self).spec_state_root() == old(self).spec_state_root(),
            final(self).spec_stats() == old(self).spec_stats(),
            match old(self).pending() {
                Some(c) => final(self).pending() matches Some(c2) && c2 == (StateChangeV {
                    writes: spec_merge_write(
                        c.writes,
                        AccountWriteV { pubkey: pubkey@, data: data@, lamports, owner: owner@ },
                    ),
                    ..c
                }),
                None => final(self).pending() is None,
            },
    {
        let ghost dv = data@;
        let change_opt = self.current_change.take();
        match change_opt {
            Some(mut change) => {
                let ghost c0 = change@;
                let ghost w = AccountWriteV { pubkey: pubkey@, data: dv, lamports, owner: owner@ };
                proof {
                    lemma_first_touch_order(c0.writes, w);
                }
                let n = change.writes.len();
                let mut i: usize = 0;
                while i < n
                    invariant
                        old(self).wf(),
                        old(self).pending() == Some(c0),
                        self.log() == old(self).log(),
                        self.spec_state_root() == old(self).spec_state_root(),
                        self.spec_stats() == old(self).spec_stats(),
                        self.pending() is None,
                        change@ == c0,
                        forall|j: int| 0 <= j < i ==> c0.writes[j].pubkey != pubkey@,
                        unique_write_keys(c0.writes),
                        n == c0.writes.len(),
                        i <= n,
                        data@ == dv,
                        w == (AccountWriteV {
                            pubkey: pubkey@,
                            data: dv,
                            lamports,
                            owner: owner@,
                        }),
                    decreases n - i,
                {
                    if bytes32_eq(&change.writes[i].pubkey, &pubkey) {
                        proof {
                            assert(c0.writes[i as int].pubkey == pubkey@);
                            assert(crate::chain::writes_keys(c0.writes).contains(pubkey@));
                            let i0 = write_index_of(c0.writes, pubkey@);
                            assert(0 <= i0 < c0.writes.len() && c0.writes[i0].pubkey == pubkey@);
                            if i0 != i {
                                assert(c0.writes[i0].pubkey != c0.writes[i as int].pubkey);
                            }
                        }
                        let replacement = AccountWrite { pubkey, data, lamports, owner };
                        let ghost pre_ws = change.writes@;
                        proof {
                            assert(replacement@ =~= w);
                        }
                        change.writes[i] = replacement;
                        proof {
                            assert(change.writes@ == pre_ws.update(i as int, replacement));
                            assert forall|j: int|
                                0 <= j < change@.writes.len() implies change@.writes[j]
                                == c0.writes.update(i as int, w)[j] by {
                                assert(change@.writes[j] == change.writes@[j]@);
                                if j != i {
                                    assert(change.writes@[j] == pre_ws[j]);
                                    assert(pre_ws[j]@ == c0.writes[j]);
                                }
                            }
                            assert(change@.writes =~= c0.writes.update(i as int, w));
                            assert(change@ =~= (StateChangeV {
                                writes: spec_merge_write(c0.writes, w),
                                ..c0
                            }));
                        }
                        self.current_change = Some(change);
                        return ;
                    }
                    i = i + 1;
                }
                proof {
                    assert(!crate::chain::writes_keys(c0.writes).contains(pubkey@)) by {
                        if crate::chain::writes_keys(c0.writes).contains(pubkey@) {
                            let j0 = choose|j: int|
                                0 <= j < c0.writes.len() && (#[trigger] c0.writes[j]).pubkey
                                    == pubkey@;
                            assert(false);
                        }
                    }
                }
                change.add_write(pubkey, data, lamports, owner);
                proof {
                    assert(change@ =~= (StateChangeV {
                        writes: spec_merge_write(c0.writes, w),
                        ..c0
                    }));
                }
                self.current_change = Some(change);
            },
            None => {},
        }
    }

    /// Close the slot. A record with writes is sealed — its root becomes the
    /// digest of its body — appended to the broadcast log, made the new state
    /// root, and returned for broadcast. An empty record is discarded: the
    /// state root does not move and nothing is broadcast.
    #[verifier::rlimit(100)]
    pub fn end_slot(&mut self) -> (r: Option<StateChange>)
        requires
            old(self).wf(),
        ensures
            final(self).wf(),
            final(self).pending() is None,
            final(self).spec_stats().current_slot == old(self).spec_stats().current_slot,
            match old(self).pending() {
                None => {
                    &&& r is None
                    &&& final(self).log() == old(self).log()
                    &&& final(self).spec_state_root() == old(self).spec_state_root()
                    &&& final(self).spec_stats().state_changes_broadcast == old(
                        self,
                    ).spec_stats().state_changes_broadcast
                },
                Some(c) => {
                    if c.writes.len() == 0 {
                        &&& r is None
                        &&& final(self).log() == old(self).log()
                        &&& final(self).spec_state_root() == old(self).spec_state_root()
                        &&& final(self).spec_stats().state_changes_broadcast == old(
                            self,
                        ).spec_stats().state_changes_broadcast
                    } else {
                        &&& r matches Some(sealed) && sealed@ == (StateChangeV {
                            new_state_root: sealed_root(c),
                            ..c
                        })
                        &&& final(self).log() == old(self).log().push(
                            StateChangeV { new_state_root: sealed_root(c), ..c },
                        )
                        &&& final(self).spec_state_root() == sealed_root(c)
                        &&& final(self).spec_stats().state_changes_broadcast == old(
                            self,
                        ).spec_stats().state_changes_broadcast + 1
                    }
                },
            },
    {
        let change = self.current_change.take();
        match change {
            None => None,
            Some(mut change) => {
                if change.writes.len() == 0 {
                    return None;
                }
                let ghost c = change@;
                let root = change.compute_hash();
                change.new_state_root = root;
                proof {
                    assert(change@ =~= (StateChangeV { new_state_root: sealed_root(c), ..c }));
                }
                self.state_root = root;
                let out = change.clone();
                let ghost old_log = self.log();
                let ghost sealed = StateChangeV { new_state_root: sealed_root(c), ..c };
                self.broadcast_log.push(change);
                proof {
                    let logv = self.log();
                    assert(logv.len() == old_log.len() + 1);
                    assert(forall|j: int| 0 <= j < old_log.len() ==> logv[j] == old_log[j]);
                    assert(logv.last() == sealed);
                    assert(sealed_root(sealed) == sealed_root(c)) by {
                        assert(crate::chain::state_change_hash_input(sealed)
                            == crate::chain::state_change_hash_input(c));
                    }
                    assert forall|j: int| 0 <= j < logv.len() implies {
                        &&& (#[trigger] logv[j]).prev_state_root == (if j == 0 {
                            zero_root()
                        } else {
                            logv[j - 1].new_state_root
                        })
                        &&& logv[j].new_state_root == sealed_root(logv[j])
                        &&& logv[j].writes.len() > 0
                    } by {
                        if j < old_log.len() {
                            assert(old_log[j].prev_state_root == (if j == 0 {
                                zero_root()
                            } else {
                                old_log[j - 1].new_state_root
                            }));
                        } else {
                            assert(logv[j] == sealed);
                            if j > 0 {
                                assert(logv[j - 1] == old_log[j - 1]);
                            }
                        }
                    }
                    assert(self.log() =~= old_log.push(
                        StateChangeV { new_state_root: sealed_root(c), ..c },
                    ));
                }
                let grown = self.broadcast_log.len();
                proof {
                    assert(self.stats.state_changes_broadcast + 1 == grown as u64);
                }
                self.stats.state_changes_broadcast = self.stats.state_changes_broadcast + 1;
                Some(out)
            },
        }
    }

    /// A heartbeat frame for `slot`, to be sent when the chain is idle.
    pub fn heartbeat(&self, slot: u64) -> (r: ValidatorMessage)
        ensures
            r@ == (crate::chain::ValidatorMessageV::Heartbeat { slot }),
    {
        ValidatorMessage::Heartbeat { slot }
    }

    /// Current counters.
    pub fn stats(&self) -> (r: ConsensusStats)
        ensures
            r == self.spec_stats(),
    {
        self.stats.clone()
    }

    /// Number of followers currently connected, as last recorded.
    pub fn connected_validators(&self) -> (r: usize)
        ensures
            r == self.spec_stats().connected_validators,
    {
        self.stats.connected_validators
    }

    /// Record how many followers are connected.
    pub fn set_connected_validators(&mut self, n: usize)
        requires
            old(self).wf(),
        ensures
            final(self).wf(),
            final(self).spec_stats().connected_validators == n,
            final(self).log() == old(self).log(),
            final(self).spec_state_root() == old(self).spec_state_root(),
            final(self).pending() == old(self).pending(),
    {
        self.stats.connected_validators = n;
    }

    /// The broadcast records with slot at least `from_slot`, in order: the
    /// answer to a follower's sync request.
    pub fn sync_response(&self, from_slot: u64) -> (r: Vec<StateChange>)
        ensures
            r@.map_values(|c: StateChange| c@) == self.log().filter(
                |c: StateChangeV| c.slot >= from_slot,
            ),
    {
        let n = self.broadcast_log.len();
        let mut r: Vec<StateChange> = Vec::new();
        let mut i: usize = 0;
        proof {
            assert(self.log().take(0) =~= Seq::<StateChangeV>::empty());
            assert(r@.map_values(|c: StateChange| c@) =~= Seq::<StateChangeV>::empty());
            assert(Seq::<StateChangeV>::empty().filter(|c: StateChangeV| c.slot >= from_slot)
                =~= Seq::<StateChangeV>::empty());
        }
        while i < n
            invariant
                n == self.broadcast_log@.len(),
                i <= n,
                r@.map_values(|c: StateChange| c@) == self.log().take(i as int).filter(
                    |c: StateChangeV| c.slot >= from_slot,
                ),
            decreases n - i,
        {
            proof {
                assert(self.log().take(i + 1).drop_last() =~= self.log().take(i as int));
                assert(self.log().take(i + 1).last() == self.log()[i as int]);
                reveal_with_fuel(Seq::filter, 2);
            }
            let ghost prev = r@.map_values(|c: StateChange| c@);
            if self.broadcast_log[i].slot >= from_slot {
                r.push(self.broadcast_log[i].clone());
                proof {
                    assert(r@.map_values(|c: StateChange| c@) =~= prev.push(
                        self.log()[i as int],
                    ));
                }
            }
            proof {
                assert(self.log().take(i + 1).filter(|c: StateChangeV| c.slot >= from_slot)
                    =~= r@.map_values(|c: StateChange| c@));
            }
            i = i + 1;
        }
        proof {
            assert(self.log().take(n as int) =~= self.log());
        }
        r
    }
}

/// The broadcast counter counts exactly the records broadcast so far.
pub proof fn lemma_broadcast_counts_log(leader: &LeaderNode)
    requires
        leader.wf(),
    ensures
        leader.spec_stats().state_changes_broadcast == leader.log().len(),
{
}

/// Hash chain: each broadcast record's `prev_state_root` is the
/// `new_state_root` of the record broadcast before it.
pub proof fn lemma_hash_chain(leader: &LeaderNode, i: int)
    requires
        leader.wf(),
        1 <= i < leader.log().len(),
    ensures
        leader.log()[i].prev_state_root == leader.log()[i - 1].new_state_root,
{
}

} // verus!

verus! {

/// Step-by-step construction of a leader node.
pub struct LeaderNodeBuilder {
    config: ConsensusConfig,
}

impl LeaderNodeBuilder {
    pub closed spec fn spec_config(&self) -> ConsensusConfig {
        self.config
    }

    pub fn new() -> (r: Self)
        ensures
            r.spec_config().role == crate::chain::NodeRole::Leader,
            r.spec_config().broadcast_port == 9000,
    {
        LeaderNodeBuilder { config: ConsensusConfig::default() }
    }

    pub fn broadcast_port(self, port: u16) -> (r: Self)
        ensures
            r.spec_config().broadcast_port == port,
            r.spec_config().node_id == self.spec_config().node_id,
    {
        LeaderNodeBuilder { config: ConsensusConfig { broadcast_port: port, ..self.config } }
    }

    pub fn node_id(self, id: [u8; 32]) -> (r: Self)
        ensures
            r.spec_config().node_id == id,
            r.spec_config().broadcast_port == self.spec_config().broadcast_port,
    {
        LeaderNodeBuilder { config: ConsensusConfig { node_id: id, ..self.config } }
    }

    pub fn build(self) -> (r: LeaderNode)
        ensures
            r.wf(),
            r.log() == Seq::<StateChangeV>::empty(),
            r.spec_state_root() == zero_root(),
            r.pending() is None,
    {
        LeaderNode::new(self.config)
    }
}

impl Default for LeaderNodeBuilder {
    fn default() -> (r: Self)
        ensures
            r.spec_config().role == crate::chain::NodeRole::Leader,
            r.spec_config().broadcast_port == 9000,
    {
        LeaderNodeBuilder::new()
    }
}

} // verus!
