//! Follower-side verification: fraud detection, root mismatches, slot gaps
//! and resynchronization.

use l2_core::chain::{ConsensusConfig, StateChange};
use l2_core::leader::LeaderNode;
use l2_core::validator::{FollowerAction, ValidatorNode, VerifyError};

fn leader() -> LeaderNode {
    LeaderNode::new(ConsensusConfig::default())
}

fn follower() -> ValidatorNode {
    ValidatorNode::new(ConsensusConfig::default())
}

fn broadcast_slot(node: &mut LeaderNode, slot: u64) -> StateChange {
    node.begin_slot(slot, slot);
    node.record_write([slot as u8; 32], vec![slot as u8], slot, [1u8; 32]);
    node.end_slot().unwrap()
}

#[test]
fn test_doctored_frame_draws_a_hash_mismatch_challenge() {
    // a frame whose claimed root does not match its body is challenged and
    // leaves the follower's store untouched
    let mut node = leader();
    let mut frame = broadcast_slot(&mut node, 1);
    frame.new_state_root = [0xEEu8; 32];

    let mut fol = follower();
    match fol.on_state_change(&frame) {
        FollowerAction::Challenge { slot, reason } => {
            assert_eq!(slot, 1);
            assert_eq!(reason, b"hash mismatch".to_vec());
        },
        other => panic!("expected a challenge, got {:?}", other),
    }
    assert_eq!(fol.last_verified_slot(), 0);
    assert_eq!(fol.state_root(), [0u8; 32]);
    assert!(fol.get_account(&[1u8; 32]).is_none());
}

#[test]
fn test_wrong_prev_root_draws_a_root_mismatch_challenge() {
    let mut node = leader();
    let first = broadcast_slot(&mut node, 1);
    let mut second = broadcast_slot(&mut node, 2);

    let mut fol = follower();
    assert!(matches!(fol.on_state_change(&first), FollowerAction::Verified { .. }));

    // re-chain the second frame to a root the follower never saw
    second.prev_state_root = [0xABu8; 32];
    let reseal = second.compute_hash();
    second.new_state_root = reseal;
    match fol.verify_and_apply(&second) {
        Err(VerifyError::RootMismatch { expected, got }) => {
            assert_eq!(expected, first.new_state_root);
            assert_eq!(got, [0xABu8; 32]);
        },
        other => panic!("expected a root mismatch, got {:?}", other),
    }
    assert_eq!(fol.last_verified_slot(), 1);
}

#[test]
fn test_lagged_follower_requests_resync_and_converges() {
    // the follower sees the first two slots, misses some, then asks for a
    // resync from its own next slot and converges within the batch
    let mut node = leader();
    let mut frames = Vec::new();
    for slot in 1..=6u64 {
        frames.push(broadcast_slot(&mut node, slot));
    }

    let mut fol = follower();
    assert!(matches!(fol.on_state_change(&frames[0]), FollowerAction::Verified { .. }));
    assert!(matches!(fol.on_state_change(&frames[1]), FollowerAction::Verified { .. }));

    // frames for slots 3..=5 never arrive; slot 6 exposes the gap
    match fol.on_state_change(&frames[5]) {
        FollowerAction::SyncNeeded { from_slot } => assert_eq!(from_slot, 3),
        other => panic!("expected a sync request, got {:?}", other),
    }
    assert_eq!(fol.last_verified_slot(), 2);

    // the leader serves the requested range; applying it converges
    let batch = node.sync_response(3);
    assert_eq!(batch.len(), 4);
    for frame in &batch {
        match fol.on_state_change(frame) {
            FollowerAction::Verified { .. } => {},
            other => panic!("expected verification, got {:?}", other),
        }
    }
    assert_eq!(fol.last_verified_slot(), 6);
    assert_eq!(fol.state_root(), frames[5].new_state_root);
}

#[test]
fn test_follower_state_matches_leader_on_touched_keys() {
    // after a full replay, every touched key byte-matches the leader's view
    let mut node = leader();
    let mut fol = follower();
    let key = [0x42u8; 32];
    for slot in 1..=3u64 {
        node.begin_slot(slot, slot);
        node.record_write(key, vec![slot as u8, slot as u8], slot * 7, [3u8; 32]);
        let frame = node.end_slot().unwrap();
        assert!(matches!(fol.on_state_change(&frame), FollowerAction::Verified { .. }));
    }
    let applied = fol.get_account(&key).unwrap();
    assert_eq!(applied.data, vec![3, 3]);
    assert_eq!(applied.lamports, 21);
    assert_eq!(applied.owner, [3u8; 32]);
}

#[test]
fn test_challenge_frame_carries_reason_and_empty_evidence() {
    let fol = follower();
    let action = FollowerAction::Challenge { slot: 9, reason: b"hash mismatch".to_vec() };
    match fol.frame_for(&action) {
        l2_core::chain::ValidatorMessage::FraudChallenge { slot, reason, evidence } => {
            assert_eq!(slot, 9);
            assert_eq!(reason, b"hash mismatch".to_vec());
            assert!(evidence.is_empty());
        },
        other => panic!("expected a fraud challenge, got {:?}", other),
    }
}
