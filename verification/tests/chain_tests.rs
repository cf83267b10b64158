//! Leader-side chain behavior: sealing, hashing, the hash chain, empty
//! slots, determinism and submission ordering.

use l2_core::chain::StateChange;
use l2_core::leader::LeaderNode;
use l2_core::chain::ConsensusConfig;
use l2_core::validator::{FollowerAction, ValidatorNode};

fn leader() -> LeaderNode {
    LeaderNode::new(ConsensusConfig::default())
}

fn follower() -> ValidatorNode {
    ValidatorNode::new(ConsensusConfig::default())
}

#[test]
fn test_empty_slots_do_not_move_the_chain() {
    // ten ticks with no submissions: the root stays zero, nothing is
    // broadcast, and a follower has nothing to verify
    let mut node = leader();
    let mut frames = Vec::new();
    for slot in 1..=10u64 {
        node.begin_slot(slot, 1000 + slot);
        if let Some(frame) = node.end_slot() {
            frames.push(frame);
        }
    }
    assert_eq!(frames.len(), 0);
    assert_eq!(node.stats().state_changes_broadcast, 0);
    assert_eq!(node.stats().current_slot, 10);

    let fol = follower();
    assert_eq!(fol.last_verified_slot(), 0);
    assert_eq!(fol.state_root(), [0u8; 32]);
}

#[test]
fn test_single_write_seals_the_expected_root() {
    // one write: the sealed root is the digest of
    // slot || prev_root || timestamp || key || data || lamports || owner
    let mut node = leader();
    let k1 = [0x11u8; 32];
    let owner = [0x22u8; 32];
    let ts = 777u64;
    node.begin_slot(1, ts);
    node.record_write(k1, vec![0xAA, 0xBB], 42, owner);
    let frame = node.end_slot().expect("a slot with writes is broadcast");

    assert_eq!(frame.slot, 1);
    assert_eq!(frame.prev_state_root, [0u8; 32]);
    assert_eq!(frame.writes.len(), 1);
    assert_eq!(frame.writes[0].pubkey, k1);
    assert_eq!(frame.writes[0].data, vec![0xAA, 0xBB]);
    assert_eq!(frame.writes[0].lamports, 42);
    assert_eq!(frame.writes[0].owner, owner);

    let mut preimage = Vec::new();
    preimage.extend_from_slice(&1u64.to_le_bytes());
    preimage.extend_from_slice(&[0u8; 32]);
    preimage.extend_from_slice(&ts.to_le_bytes());
    preimage.extend_from_slice(&k1);
    preimage.extend_from_slice(&[0xAA, 0xBB]);
    preimage.extend_from_slice(&42u64.to_le_bytes());
    preimage.extend_from_slice(&owner);
    let expected: [u8; 32] = blake3::hash(&preimage).into();
    assert_eq!(frame.new_state_root, expected);
}

#[test]
fn test_hash_chain_links_consecutive_frames() {
    let mut node = leader();
    let mut frames = Vec::new();
    for slot in 1..=3u64 {
        node.begin_slot(slot, 100 + slot);
        node.record_write([slot as u8; 32], vec![slot as u8], slot, [1u8; 32]);
        frames.push(node.end_slot().unwrap());
    }
    for i in 1..frames.len() {
        assert_eq!(frames[i].prev_state_root, frames[i - 1].new_state_root);
    }
    assert_eq!(frames[0].prev_state_root, [0u8; 32]);
}

#[test]
fn test_empty_write_slot_keeps_last_sealed_root() {
    let mut node = leader();
    node.begin_slot(1, 10);
    node.record_write([1u8; 32], vec![1], 1, [2u8; 32]);
    let sealed = node.end_slot().unwrap();

    // an empty slot between two sealed ones: nothing moves
    node.begin_slot(2, 11);
    assert!(node.end_slot().is_none());

    node.begin_slot(3, 12);
    node.record_write([3u8; 32], vec![3], 3, [2u8; 32]);
    let next = node.end_slot().unwrap();
    assert_eq!(next.prev_state_root, sealed.new_state_root);
}

#[test]
fn test_identical_runs_seal_identical_roots() {
    // two independent leaders fed the same submissions produce the same
    // chain of roots
    let run = || {
        let mut node = leader();
        let mut roots = Vec::new();
        for slot in 1..=4u64 {
            node.begin_slot(slot, 500 + slot);
            node.record_write([7u8; 32], vec![slot as u8, 0x55], slot * 10, [8u8; 32]);
            node.record_write([9u8; 32], vec![0x66], slot, [8u8; 32]);
            roots.push(node.end_slot().unwrap().new_state_root);
        }
        roots
    };
    assert_eq!(run(), run());
}

#[test]
fn test_writes_keep_first_touch_order_with_last_writer_wins() {
    // within a slot the canonical sequence lists keys in first-touch order,
    // each carrying its last written value
    let mut node = leader();
    let a = [0xA1u8; 32];
    let b = [0xB2u8; 32];
    let owner = [1u8; 32];
    node.begin_slot(1, 5);
    node.record_write(a, vec![1], 1, owner);
    node.record_write(b, vec![2], 2, owner);
    node.record_write(a, vec![3], 3, owner);
    let frame = node.end_slot().unwrap();

    assert_eq!(frame.writes.len(), 2);
    assert_eq!(frame.writes[0].pubkey, a);
    assert_eq!(frame.writes[0].data, vec![3]);
    assert_eq!(frame.writes[0].lamports, 3);
    assert_eq!(frame.writes[1].pubkey, b);
    assert_eq!(frame.writes[1].data, vec![2]);
}

#[test]
fn test_compute_hash_matches_to_bytes_preimage() {
    // the record's own digest is over its hash input, not its wire bytes
    let mut sc = StateChange::new(5, [3u8; 32], 99);
    sc.add_write([4u8; 32], vec![1, 2], 7, [5u8; 32]);
    let h1 = sc.compute_hash();
    // rewriting the claimed root does not move the digest
    sc.new_state_root = [0xFFu8; 32];
    assert_eq!(sc.compute_hash(), h1);
}

#[test]
fn test_sync_response_serves_requested_range() {
    let mut node = leader();
    for slot in 1..=5u64 {
        node.begin_slot(slot, slot);
        node.record_write([slot as u8; 32], vec![slot as u8], slot, [1u8; 32]);
        node.end_slot().unwrap();
    }
    let batch = node.sync_response(3);
    assert_eq!(batch.len(), 3);
    assert_eq!(batch[0].slot, 3);
    assert_eq!(batch[2].slot, 5);
}

#[test]
fn test_heartbeat_frame_carries_the_slot() {
    let node = leader();
    let frame = node.heartbeat(12);
    match frame {
        l2_core::chain::ValidatorMessage::Heartbeat { slot } => assert_eq!(slot, 12),
        _ => panic!("expected a heartbeat"),
    }
}

#[test]
fn test_follower_verifies_and_tracks_the_leader() {
    // a follower fed every broadcast frame converges to the leader's root
    let mut node = leader();
    let mut fol = follower();
    for slot in 1..=3u64 {
        node.begin_slot(slot, slot);
        node.record_write([slot as u8; 32], vec![slot as u8, 0x10], slot, [2u8; 32]);
        let frame = node.end_slot().unwrap();
        match fol.on_state_change(&frame) {
            FollowerAction::Verified { slot: s } => assert_eq!(s, slot),
            other => panic!("expected verification, got {:?}", other),
        }
    }
    assert_eq!(fol.last_verified_slot(), 3);

    // the applied accounts byte-match the broadcast writes
    let applied = fol.get_account(&[2u8; 32]).unwrap();
    assert_eq!(applied.data, vec![2, 0x10]);
    assert_eq!(applied.lamports, 2);
}

#[test]
fn test_builders_configure_their_nodes() {
    let node = l2_core::leader::LeaderNodeBuilder::new()
        .broadcast_port(9100)
        .node_id([5u8; 32])
        .build();
    assert_eq!(node.stats().current_slot, 0);

    let fol = l2_core::validator::ValidatorNodeBuilder::new()
        .leader_addr("127.0.0.1:9100")
        .node_id([6u8; 32])
        .build();
    assert_eq!(fol.last_verified_slot(), 0);
    assert_eq!(fol.state_root(), [0u8; 32]);
}
