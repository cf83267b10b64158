//! Wire-format round trips and rejections.

use l2_core::chain::{StateChange, ValidatorMessage};

fn sample_change() -> StateChange {
    let mut sc = StateChange::new(7, [1u8; 32], 123456);
    sc.add_write([2u8; 32], vec![9, 8, 7], 55, [3u8; 32]);
    sc.add_write([4u8; 32], vec![], 0, [5u8; 32]);
    sc.new_state_root = [6u8; 32];
    sc.leader_signature = vec![0xDE, 0xAD];
    sc
}

fn assert_same_change(a: &StateChange, b: &StateChange) {
    assert_eq!(a.slot, b.slot);
    assert_eq!(a.prev_state_root, b.prev_state_root);
    assert_eq!(a.new_state_root, b.new_state_root);
    assert_eq!(a.timestamp, b.timestamp);
    assert_eq!(a.leader_signature, b.leader_signature);
    assert_eq!(a.writes.len(), b.writes.len());
    for (x, y) in a.writes.iter().zip(b.writes.iter()) {
        assert_eq!(x.pubkey, y.pubkey);
        assert_eq!(x.data, y.data);
        assert_eq!(x.lamports, y.lamports);
        assert_eq!(x.owner, y.owner);
    }
}

#[test]
fn test_state_change_round_trip() {
    let sc = sample_change();
    let bytes = sc.to_bytes();
    let back = StateChange::from_bytes(bytes.as_slice()).unwrap();
    assert_same_change(&sc, &back);
}

#[test]
fn test_state_change_rejects_trailing_and_truncated_bytes() {
    let sc = sample_change();
    let bytes = sc.to_bytes();
    let mut longer = bytes.clone();
    longer.push(0);
    assert!(StateChange::from_bytes(longer.as_slice()).is_none());
    assert!(StateChange::from_bytes(&bytes[..bytes.len() - 1]).is_none());
}

#[test]
fn test_frame_round_trips_every_variant() {
    let frames = vec![
        ValidatorMessage::StateChange(sample_change()),
        ValidatorMessage::SyncRequest { from_slot: 3 },
        ValidatorMessage::SyncResponse { changes: vec![sample_change(), sample_change()] },
        ValidatorMessage::SlotVerified { slot: 4, validator_id: [9u8; 32] },
        ValidatorMessage::FraudChallenge {
            slot: 5,
            reason: b"hash mismatch".to_vec(),
            evidence: vec![1, 2, 3],
        },
        ValidatorMessage::Heartbeat { slot: 6 },
    ];
    for frame in frames {
        let bytes = frame.to_bytes();
        let back = ValidatorMessage::from_bytes(bytes.as_slice()).unwrap();
        match (&frame, &back) {
            (ValidatorMessage::StateChange(a), ValidatorMessage::StateChange(b)) => {
                assert_same_change(a, b)
            },
            (
                ValidatorMessage::SyncRequest { from_slot: a },
                ValidatorMessage::SyncRequest { from_slot: b },
            ) => assert_eq!(a, b),
            (
                ValidatorMessage::SyncResponse { changes: a },
                ValidatorMessage::SyncResponse { changes: b },
            ) => {
                assert_eq!(a.len(), b.len());
                for (x, y) in a.iter().zip(b.iter()) {
                    assert_same_change(x, y);
                }
            },
            (
                ValidatorMessage::SlotVerified { slot: a, validator_id: ai },
                ValidatorMessage::SlotVerified { slot: b, validator_id: bi },
            ) => {
                assert_eq!(a, b);
                assert_eq!(ai, bi);
            },
            (
                ValidatorMessage::FraudChallenge { slot: a, reason: ar, evidence: ae },
                ValidatorMessage::FraudChallenge { slot: b, reason: br, evidence: be },
            ) => {
                assert_eq!(a, b);
                assert_eq!(ar, br);
                assert_eq!(ae, be);
            },
            (
                ValidatorMessage::Heartbeat { slot: a },
                ValidatorMessage::Heartbeat { slot: b },
            ) => assert_eq!(a, b),
            _ => panic!("frame decoded to a different variant"),
        }
    }
}

#[test]
fn test_frame_tags_follow_the_wire_layout() {
    assert_eq!(ValidatorMessage::SyncRequest { from_slot: 0 }.to_bytes()[0], 0x02);
    assert_eq!(
        ValidatorMessage::SyncResponse { changes: Vec::new() }.to_bytes()[0],
        0x03
    );
    assert_eq!(
        ValidatorMessage::SlotVerified { slot: 0, validator_id: [0u8; 32] }.to_bytes()[0],
        0x04
    );
    assert_eq!(ValidatorMessage::Heartbeat { slot: 0 }.to_bytes()[0], 0x06);

    // the sync request's payload is the slot, little endian
    let bytes = ValidatorMessage::SyncRequest { from_slot: 0x0102030405060708 }.to_bytes();
    assert_eq!(&bytes[1..], &0x0102030405060708u64.to_le_bytes());
}

#[test]
fn test_frame_rejects_unknown_tag_and_junk() {
    assert!(ValidatorMessage::from_bytes(&[]).is_none());
    assert!(ValidatorMessage::from_bytes(&[0x07, 0, 0]).is_none());
    let mut ok = ValidatorMessage::Heartbeat { slot: 1 }.to_bytes();
    ok.push(0xFF);
    assert!(ValidatorMessage::from_bytes(ok.as_slice()).is_none());
}
