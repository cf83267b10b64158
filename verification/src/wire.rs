//! The wire format (C7 ↔ C8): length-delimited fields, little-endian
//! integers, and a one-byte tag per frame. Encoding and decoding are defined
//! here as functions on bytes, with decoding proved to invert encoding.

use vstd::prelude::*;
use vstd::bytes::{
    spec_u16_from_le_bytes, spec_u16_to_le_bytes, spec_u32_from_le_bytes, spec_u32_to_le_bytes,
    spec_u64_from_le_bytes, spec_u64_to_le_bytes, u16_from_le_bytes, u32_from_le_bytes,
    u64_from_le_bytes, u16_to_le_bytes, u32_to_le_bytes, u64_to_le_bytes,
};
use crate::chain::{AccountWrite, AccountWriteV, StateChange, StateChangeV};

verus! {

// ---------------------------------------------------------------------------
// Spec encoders
// ---------------------------------------------------------------------------

/// Wire bytes of one account write:
/// `key[32] || data_len:u32 || data || lamports:u64 || owner[32]`.
pub open spec fn enc_write(w: AccountWriteV) -> Seq<u8> {
    w.pubkey + spec_u32_to_le_bytes(w.data.len() as u32) + w.data + spec_u64_to_le_bytes(
        w.lamports,
    ) + w.owner
}

/// Wire bytes of a sequence of writes, in order.
pub open spec fn enc_writes(ws: Seq<AccountWriteV>) -> Seq<u8>
    decreases ws.len(),
{
    if ws.len() == 0 {
        Seq::empty()
    } else {
        enc_writes(ws.drop_last()) + enc_write(ws.last())
    }
}

/// Canonical wire bytes of a state change:
/// `slot || prev_root[32] || new_root[32] || timestamp || writes: u32 count
/// then each write || signature: u32 length + bytes`.
pub open spec fn enc_state_change(sc: StateChangeV) -> Seq<u8> {
    spec_u64_to_le_bytes(sc.slot) + sc.prev_state_root + sc.new_state_root + spec_u64_to_le_bytes(
        sc.timestamp,
    ) + spec_u32_to_le_bytes(sc.writes.len() as u32) + enc_writes(sc.writes)
        + spec_u32_to_le_bytes(sc.leader_signature.len() as u32) + sc.leader_signature
}

/// A write all of whose variable parts fit their length prefixes.
pub open spec fn write_encodable(w: AccountWriteV) -> bool {
    &&& w.pubkey.len() == 32
    &&& w.owner.len() == 32
    &&& w.data.len() <= u32::MAX
}

/// A state change all of whose parts fit the wire format.
pub open spec fn state_change_encodable(sc: StateChangeV) -> bool {
    &&& sc.prev_state_root.len() == 32
    &&& sc.new_state_root.len() == 32
    &&& sc.writes.len() <= u32::MAX
    &&& forall|i: int| 0 <= i < sc.writes.len() ==> write_encodable(#[trigger] sc.writes[i])
    &&& sc.leader_signature.len() <= u32::MAX
}

// ---------------------------------------------------------------------------
// Spec decoders: each consumes a prefix and returns the rest
// ---------------------------------------------------------------------------

pub open spec fn dec_u16(b: Seq<u8>) -> Option<(u16, Seq<u8>)> {
    if b.len() >= 2 {
        Some((spec_u16_from_le_bytes(b.take(2)), b.skip(2)))
    } else {
        None
    }
}

pub open spec fn dec_u32(b: Seq<u8>) -> Option<(u32, Seq<u8>)> {
    if b.len() >= 4 {
        Some((spec_u32_from_le_bytes(b.take(4)), b.skip(4)))
    } else {
        None
    }
}

pub open spec fn dec_u64(b: Seq<u8>) -> Option<(u64, Seq<u8>)> {
    if b.len() >= 8 {
        Some((spec_u64_from_le_bytes(b.take(8)), b.skip(8)))
    } else {
        None
    }
}

pub open spec fn dec_bytes(b: Seq<u8>, n: nat) -> Option<(Seq<u8>, Seq<u8>)> {
    if b.len() >= n {
        Some((b.take(n as int), b.skip(n as int)))
    } else {
        None
    }
}

pub open spec fn dec_write(b: Seq<u8>) -> Option<(AccountWriteV, Seq<u8>)> {
    match dec_bytes(b, 32) {
        None => None,
        Some((pubkey, b)) => match dec_u32(b) {
            None => None,
            Some((data_len, b)) => match dec_bytes(b, data_len as nat) {
                None => None,
                Some((data, b)) => match dec_u64(b) {
                    None => None,
                    Some((lamports, b)) => match dec_bytes(b, 32) {
                        None => None,
                        Some((owner, b)) => Some(
                            (AccountWriteV { pubkey, data, lamports, owner }, b),
                        ),
                    },
                },
            },
        },
    }
}

pub open spec fn dec_writes(b: Seq<u8>, count: nat) -> Option<(Seq<AccountWriteV>, Seq<u8>)>
    decreases count,
{
    if count == 0 {
        Some((Seq::empty(), b))
    } else {
        match dec_writes(b, (count - 1) as nat) {
            None => None,
            Some((ws, b)) => match dec_write(b) {
                None => None,
                Some((w, b)) => Some((ws.push(w), b)),
            },
        }
    }
}

pub open spec fn dec_state_change(b: Seq<u8>) -> Option<(StateChangeV, Seq<u8>)> {
    match dec_u64(b) {
        None => None,
        Some((slot, b)) => match dec_bytes(b, 32) {
            None => None,
            Some((prev, b)) => match dec_bytes(b, 32) {
                None => None,
                Some((new, b)) => match dec_u64(b) {
                    None => None,
                    Some((timestamp, b)) => match dec_u32(b) {
                        None => None,
                        Some((count, b)) => match dec_writes(b, count as nat) {
                            None => None,
                            Some((writes, b)) => match dec_u32(b) {
                                None => None,
                                Some((sig_len, b)) => match dec_bytes(b, sig_len as nat) {
                                    None => None,
                                    Some((sig, b)) => Some(
                                        (
                                            StateChangeV {
                                                slot,
                                                prev_state_root: prev,
                                                new_state_root: new,
                                                writes,
                                                timestamp,
                                                leader_signature: sig,
                                            },
                                            b,
                                        ),
                                    ),
                                },
                            },
                        },
                    },
                },
            },
        },
    }
}

// ---------------------------------------------------------------------------
// Round-trip lemmas: each decoder inverts its encoder
// ---------------------------------------------------------------------------

pub proof fn lemma_dec_u16(x: u16, rest: Seq<u8>)
    ensures
        dec_u16(spec_u16_to_le_bytes(x) + rest) == Some((x, rest)),
{
    vstd::bytes::lemma_auto_spec_u16_to_from_le_bytes();
    let b = spec_u16_to_le_bytes(x) + rest;
    assert(b.take(2) =~= spec_u16_to_le_bytes(x));
    assert(b.skip(2) =~= rest);
}

pub proof fn lemma_dec_u32(x: u32, rest: Seq<u8>)
    ensures
        dec_u32(spec_u32_to_le_bytes(x) + rest) == Some((x, rest)),
{
    vstd::bytes::lemma_auto_spec_u32_to_from_le_bytes();
    let b = spec_u32_to_le_bytes(x) + rest;
    assert(b.take(4) =~= spec_u32_to_le_bytes(x));
    assert(b.skip(4) =~= rest);
}

pub proof fn lemma_dec_u64(x: u64, rest: Seq<u8>)
    ensures
        dec_u64(spec_u64_to_le_bytes(x) + rest) == Some((x, rest)),
{
    vstd::bytes::lemma_auto_spec_u64_to_from_le_bytes();
    let b = spec_u64_to_le_bytes(x) + rest;
    assert(b.take(8) =~= spec_u64_to_le_bytes(x));
    assert(b.skip(8) =~= rest);
}

pub proof fn lemma_dec_bytes(data: Seq<u8>, rest: Seq<u8>)
    ensures
        dec_bytes(data + rest, data.len()) == Some((data, rest)),
{
    let b = data + rest;
    assert(b.take(data.len() as int) =~= data);
    assert(b.skip(data.len() as int) =~= rest);
}

#[verifier::spinoff_prover]
pub proof fn lemma_dec_write(w: AccountWriteV, rest: Seq<u8>)
    requires
        write_encodable(w),
    ensures
        dec_write(enc_write(w) + rest) == Some((w, rest)),
{
    let b = enc_write(w) + rest;
    let tail1 = spec_u32_to_le_bytes(w.data.len() as u32) + w.data + spec_u64_to_le_bytes(
        w.lamports,
    ) + w.owner + rest;
    assert(b =~= w.pubkey + tail1);
    lemma_dec_bytes(w.pubkey, tail1);
    let tail2 = w.data + spec_u64_to_le_bytes(w.lamports) + w.owner + rest;
    assert(tail1 =~= spec_u32_to_le_bytes(w.data.len() as u32) + tail2);
    lemma_dec_u32(w.data.len() as u32, tail2);
    let tail3 = spec_u64_to_le_bytes(w.lamports) + w.owner + rest;
    assert(tail2 =~= w.data + tail3);
    assert(w.data.len() as u32 as nat == w.data.len());
    lemma_dec_bytes(w.data, tail3);
    let tail4 = w.owner + rest;
    assert(tail3 =~= spec_u64_to_le_bytes(w.lamports) + tail4);
    lemma_dec_u64(w.lamports, tail4);
    lemma_dec_bytes(w.owner, rest);
    assert(dec_write(b) =~= Some((w, rest)));
}

pub proof fn lemma_dec_writes(ws: Seq<AccountWriteV>, rest: Seq<u8>)
    requires
        forall|i: int| 0 <= i < ws.len() ==> write_encodable(#[trigger] ws[i]),
    ensures
        dec_writes(enc_writes(ws) + rest, ws.len()) == Some((ws, rest)),
    decreases ws.len(),
{
    if ws.len() == 0 {
        assert(enc_writes(ws) + rest =~= rest);
        assert(dec_writes(rest, 0) =~= Some((Seq::<AccountWriteV>::empty(), rest)));
        assert(ws =~= Seq::<AccountWriteV>::empty());
    } else {
        let front = ws.drop_last();
        let last = ws.last();
        let b = enc_writes(ws) + rest;
        assert(b =~= enc_writes(front) + (enc_write(last) + rest));
        assert(forall|i: int| 0 <= i < front.len() ==> front[i] == ws[i]);
        lemma_dec_writes(front, enc_write(last) + rest);
        lemma_dec_write(last, rest);
        assert(front.push(last) =~= ws);
    }
}

#[verifier::spinoff_prover]
#[verifier::rlimit(80)]
pub proof fn lemma_dec_state_change(sc: StateChangeV, rest: Seq<u8>)
    requires
        state_change_encodable(sc),
    ensures
        dec_state_change(enc_state_change(sc) + rest) == Some((sc, rest)),
{
    let b = enc_state_change(sc) + rest;
    let t1 = sc.prev_state_root + sc.new_state_root + spec_u64_to_le_bytes(sc.timestamp)
        + spec_u32_to_le_bytes(sc.writes.len() as u32) + enc_writes(sc.writes)
        + spec_u32_to_le_bytes(sc.leader_signature.len() as u32) + sc.leader_signature + rest;
    assert(b =~= spec_u64_to_le_bytes(sc.slot) + t1);
    lemma_dec_u64(sc.slot, t1);
    let t2 = sc.new_state_root + spec_u64_to_le_bytes(sc.timestamp) + spec_u32_to_le_bytes(
        sc.writes.len() as u32,
    ) + enc_writes(sc.writes) + spec_u32_to_le_bytes(sc.leader_signature.len() as u32)
        + sc.leader_signature + rest;
    assert(t1 =~= sc.prev_state_root + t2);
    lemma_dec_bytes(sc.prev_state_root, t2);
    let t3 = spec_u64_to_le_bytes(sc.timestamp) + spec_u32_to_le_bytes(sc.writes.len() as u32)
        + enc_writes(sc.writes) + spec_u32_to_le_bytes(sc.leader_signature.len() as u32)
        + sc.leader_signature + rest;
    assert(t2 =~= sc.new_state_root + t3);
    lemma_dec_bytes(sc.new_state_root, t3);
    let t4 = spec_u32_to_le_bytes(sc.writes.len() as u32) + enc_writes(sc.writes)
        + spec_u32_to_le_bytes(sc.leader_signature.len() as u32) + sc.leader_signature + rest;
    assert(t3 =~= spec_u64_to_le_bytes(sc.timestamp) + t4);
    lemma_dec_u64(sc.timestamp, t4);
    let t5 = enc_writes(sc.writes) + spec_u32_to_le_bytes(sc.leader_signature.len() as u32)
        + sc.leader_signature + rest;
    assert(t4 =~= spec_u32_to_le_bytes(sc.writes.len() as u32) + t5);
    lemma_dec_u32(sc.writes.len() as u32, t5);
    let t6 = spec_u32_to_le_bytes(sc.leader_signature.len() as u32) + sc.leader_signature + rest;
    assert(t5 =~= enc_writes(sc.writes) + t6);
    assert(sc.writes.len() as u32 as nat == sc.writes.len());
    lemma_dec_writes(sc.writes, t6);
    let t7 = sc.leader_signature + rest;
    assert(t6 =~= spec_u32_to_le_bytes(sc.leader_signature.len() as u32) + t7);
    lemma_dec_u32(sc.leader_signature.len() as u32, t7);
    assert(sc.leader_signature.len() as u32 as nat == sc.leader_signature.len());
    lemma_dec_bytes(sc.leader_signature, rest);
    assert(dec_state_change(b) =~= Some((sc, rest)));
}

} // verus!

verus! {

use crate::chain::ValidatorMessageV;

/// Wire bytes of a sequence of state changes, in order.
pub open spec fn enc_changes(cs: Seq<StateChangeV>) -> Seq<u8>
    decreases cs.len(),
{
    if cs.len() == 0 {
        Seq::empty()
    } else {
        enc_changes(cs.drop_last()) + enc_state_change(cs.last())
    }
}

/// Wire bytes of a protocol frame: a one-byte tag, then the payload.
pub open spec fn enc_message(m: ValidatorMessageV) -> Seq<u8> {
    match m {
        ValidatorMessageV::StateChange(sc) => seq![1u8] + enc_state_change(sc),
        ValidatorMessageV::SyncRequest { from_slot } => seq![2u8] + spec_u64_to_le_bytes(
            from_slot,
        ),
        ValidatorMessageV::SyncResponse { changes } => seq![3u8] + spec_u32_to_le_bytes(
            changes.len() as u32,
        ) + enc_changes(changes),
        ValidatorMessageV::SlotVerified { slot, validator_id } => seq![4u8]
            + spec_u64_to_le_bytes(slot) + validator_id,
        ValidatorMessageV::FraudChallenge { slot, reason, evidence } => seq![5u8]
            + spec_u64_to_le_bytes(slot) + spec_u16_to_le_bytes(reason.len() as u16) + reason
            + spec_u32_to_le_bytes(evidence.len() as u32) + evidence,
        ValidatorMessageV::Heartbeat { slot } => seq![6u8] + spec_u64_to_le_bytes(slot),
    }
}

/// A frame all of whose parts fit the wire format.
pub open spec fn message_encodable(m: ValidatorMessageV) -> bool {
    match m {
        ValidatorMessageV::StateChange(sc) => state_change_encodable(sc),
        ValidatorMessageV::SyncRequest { .. } => true,
        ValidatorMessageV::SyncResponse { changes } => changes.len() <= u32::MAX && forall|i: int|
            0 <= i < changes.len() ==> state_change_encodable(#[trigger] changes[i]),
        ValidatorMessageV::SlotVerified { validator_id, .. } => validator_id.len() == 32,
        ValidatorMessageV::FraudChallenge { reason, evidence, .. } => reason.len() <= u16::MAX
            && evidence.len() <= u32::MAX,
        ValidatorMessageV::Heartbeat { .. } => true,
    }
}

pub open spec fn dec_changes(b: Seq<u8>, count: nat) -> Option<(Seq<StateChangeV>, Seq<u8>)>
    decreases count,
{
    if count == 0 {
        Some((Seq::empty(), b))
    } else {
        match dec_changes(b, (count - 1) as nat) {
            None => None,
            Some((cs, b)) => match dec_state_change(b) {
                None => None,
                Some((c, b)) => Some((cs.push(c), b)),
            },
        }
    }
}

/// Decode a whole frame; trailing bytes make the frame invalid.
pub open spec fn dec_message(b: Seq<u8>) -> Option<ValidatorMessageV> {
    if b.len() < 1 {
        None
    } else {
        let tag = b[0];
        let p = b.skip(1);
        if tag == 1 {
            match dec_state_change(p) {
                Some((sc, rest)) => if rest.len() == 0 {
                    Some(ValidatorMessageV::StateChange(sc))
                } else {
                    None
                },
                None => None,
            }
        } else if tag == 2 {
            match dec_u64(p) {
                Some((from_slot, rest)) => if rest.len() == 0 {
                    Some(ValidatorMessageV::SyncRequest { from_slot })
                } else {
                    None
                },
                None => None,
            }
        } else if tag == 3 {
            match dec_u32(p) {
                Some((count, p)) => match dec_changes(p, count as nat) {
                    Some((changes, rest)) => if rest.len() == 0 {
                        Some(ValidatorMessageV::SyncResponse { changes })
                    } else {
                        None
                    },
                    None => None,
                },
                None => None,
            }
        } else if tag == 4 {
            match dec_u64(p) {
                Some((slot, p)) => match dec_bytes(p, 32) {
                    Some((validator_id, rest)) => if rest.len() == 0 {
                        Some(ValidatorMessageV::SlotVerified { slot, validator_id })
                    } else {
                        None
                    },
                    None => None,
                },
                None => None,
            }
        } else if tag == 5 {
            match dec_u64(p) {
                Some((slot, p)) => match dec_u16(p) {
                    Some((reason_len, p)) => match dec_bytes(p, reason_len as nat) {
                        Some((reason, p)) => match dec_u32(p) {
                            Some((evidence_len, p)) => match dec_bytes(p, evidence_len as nat) {
                                Some((evidence, rest)) => if rest.len() == 0 {
                                    Some(
                                        ValidatorMessageV::FraudChallenge {
                                            slot,
                                            reason,
                                            evidence,
                                        },
                                    )
                                } else {
                                    None
                                },
                                None => None,
                            },
                            None => None,
                        },
                        None => None,
                    },
                    None => None,
                },
                None => None,
            }
        } else if tag == 6 {
            match dec_u64(p) {
                Some((slot, rest)) => if rest.len() == 0 {
                    Some(ValidatorMessageV::Heartbeat { slot })
                } else {
                    None
                },
                None => None,
            }
        } else {
            None
        }
    }
}

pub proof fn lemma_dec_changes(cs: Seq<StateChangeV>, rest: Seq<u8>)
    requires
        forall|i: int| 0 <= i < cs.len() ==> state_change_encodable(#[trigger] cs[i]),
    ensures
        dec_changes(enc_changes(cs) + rest, cs.len()) == Some((cs, rest)),
    decreases cs.len(),
{
    if cs.len() == 0 {
        assert(enc_changes(cs) + rest =~= rest);
        assert(cs =~= Seq::<StateChangeV>::empty());
    } else {
        let front = cs.drop_last();
        let last = cs.last();
        let b = enc_changes(cs) + rest;
        assert(b =~= enc_changes(front) + (enc_state_change(last) + rest));
        assert(forall|i: int| 0 <= i < front.len() ==> front[i] == cs[i]);
        lemma_dec_changes(front, enc_state_change(last) + rest);
        lemma_dec_state_change(last, rest);
        assert(front.push(last) =~= cs);
    }
}

/// Round trip: decoding the encoding of any encodable frame gives the frame
/// back.
#[verifier::spinoff_prover]
#[verifier::rlimit(80)]
pub proof fn lemma_dec_message(m: ValidatorMessageV)
    requires
        message_encodable(m),
    ensures
        dec_message(enc_message(m)) == Some(m),
{
    let b = enc_message(m);
    assert(b[0] == enc_message(m)[0]);
    match m {
        ValidatorMessageV::StateChange(sc) => {
            assert(b.skip(1) =~= enc_state_change(sc) + Seq::<u8>::empty());
            lemma_dec_state_change(sc, Seq::empty());
        },
        ValidatorMessageV::SyncRequest { from_slot } => {
            assert(b.skip(1) =~= spec_u64_to_le_bytes(from_slot) + Seq::<u8>::empty());
            lemma_dec_u64(from_slot, Seq::empty());
        },
        ValidatorMessageV::SyncResponse { changes } => {
            let p = spec_u32_to_le_bytes(changes.len() as u32) + enc_changes(changes);
            assert(b.skip(1) =~= p);
            assert(p =~= spec_u32_to_le_bytes(changes.len() as u32) + (enc_changes(changes)
                + Seq::<u8>::empty()));
            lemma_dec_u32(changes.len() as u32, enc_changes(changes) + Seq::<u8>::empty());
            assert(enc_changes(changes) + Seq::<u8>::empty() =~= enc_changes(changes)
                + Seq::<u8>::empty());
            lemma_dec_changes(changes, Seq::empty());
            assert(changes.len() as u32 as nat == changes.len());
        },
        ValidatorMessageV::SlotVerified { slot, validator_id } => {
            assert(b.skip(1) =~= spec_u64_to_le_bytes(slot) + (validator_id + Seq::<u8>::empty()));
            lemma_dec_u64(slot, validator_id + Seq::<u8>::empty());
            lemma_dec_bytes(validator_id, Seq::empty());
        },
        ValidatorMessageV::FraudChallenge { slot, reason, evidence } => {
            let t1 = spec_u16_to_le_bytes(reason.len() as u16) + reason + spec_u32_to_le_bytes(
                evidence.len() as u32,
            ) + evidence;
            assert(b.skip(1) =~= spec_u64_to_le_bytes(slot) + t1);
            lemma_dec_u64(slot, t1);
            let t2 = reason + spec_u32_to_le_bytes(evidence.len() as u32) + evidence;
            assert(t1 =~= spec_u16_to_le_bytes(reason.len() as u16) + t2);
            lemma_dec_u16(reason.len() as u16, t2);
            let t3 = spec_u32_to_le_bytes(evidence.len() as u32) + evidence;
            assert(t2 =~= reason + t3);
            assert(reason.len() as u16 as nat == reason.len());
            lemma_dec_bytes(reason, t3);
            assert(t3 =~= spec_u32_to_le_bytes(evidence.len() as u32) + (evidence
                + Seq::<u8>::empty()));
            lemma_dec_u32(evidence.len() as u32, evidence + Seq::<u8>::empty());
            assert(evidence.len() as u32 as nat == evidence.len());
            lemma_dec_bytes(evidence, Seq::empty());
        },
        ValidatorMessageV::Heartbeat { slot } => {
            assert(b.skip(1) =~= spec_u64_to_le_bytes(slot) + Seq::<u8>::empty());
            lemma_dec_u64(slot, Seq::empty());
        },
    }
}

} // verus!

verus! {

use vstd::slice::slice_to_vec;
use vstd::array::ArrayAdditionalExecFns;
use crate::chain::ValidatorMessage;

// ---------------------------------------------------------------------------
// Exec readers: positional parsers proved equal to the spec decoders
// ---------------------------------------------------------------------------

pub(crate) fn read_u16(b: &[u8], pos: usize) -> (r: Option<(u16, usize)>)
    requires
        pos <= b@.len(),
    ensures
        match r {
            Some(p) => dec_u16(b@.skip(pos as int)) == Some((p.0, b@.skip(p.1 as int))) && pos
                < p.1 <= b@.len(),
            None => dec_u16(b@.skip(pos as int)) is None,
        },
{
    if b.len() - pos >= 2 {
        let x = u16_from_le_bytes(&b[pos..pos + 2]);
        proof {
            assert(b@.skip(pos as int).take(2) =~= b@.subrange(pos as int, pos + 2));
            assert(b@.skip(pos as int).skip(2) =~= b@.skip(pos + 2));
        }
        Some((x, pos + 2))
    } else {
        None
    }
}

pub(crate) fn read_u32(b: &[u8], pos: usize) -> (r: Option<(u32, usize)>)
    requires
        pos <= b@.len(),
    ensures
        match r {
            Some(p) => dec_u32(b@.skip(pos as int)) == Some((p.0, b@.skip(p.1 as int))) && pos
                < p.1 <= b@.len(),
            None => dec_u32(b@.skip(pos as int)) is None,
        },
{
    if b.len() - pos >= 4 {
        let x = u32_from_le_bytes(&b[pos..pos + 4]);
        proof {
            assert(b@.skip(pos as int).take(4) =~= b@.subrange(pos as int, pos + 4));
            assert(b@.skip(pos as int).skip(4) =~= b@.skip(pos + 4));
        }
        Some((x, pos + 4))
    } else {
        None
    }
}

pub(crate) fn read_u64(b: &[u8], pos: usize) -> (r: Option<(u64, usize)>)
    requires
        pos <= b@.len(),
    ensures
        match r {
            Some(p) => dec_u64(b@.skip(pos as int)) == Some((p.0, b@.skip(p.1 as int))) && pos
                < p.1 <= b@.len(),
            None => dec_u64(b@.skip(pos as int)) is None,
        },
{
    if b.len() - pos >= 8 {
        let x = u64_from_le_bytes(&b[pos..pos + 8]);
        proof {
            assert(b@.skip(pos as int).take(8) =~= b@.subrange(pos as int, pos + 8));
            assert(b@.skip(pos as int).skip(8) =~= b@.skip(pos + 8));
        }
        Some((x, pos + 8))
    } else {
        None
    }
}

pub(crate) fn read_vec(b: &[u8], pos: usize, n: usize) -> (r: Option<(Vec<u8>, usize)>)
    requires
        pos <= b@.len(),
    ensures
        match r {
            Some(p) => dec_bytes(b@.skip(pos as int), n as nat) == Some(
                (p.0@, b@.skip(p.1 as int)),
            ) && pos <= p.1 <= b@.len(),
            None => dec_bytes(b@.skip(pos as int), n as nat) is None,
        },
{
    if b.len() - pos >= n {
        let v = slice_to_vec(&b[pos..pos + n]);
        proof {
            assert(b@.skip(pos as int).take(n as int) =~= b@.subrange(pos as int, pos + n));
            assert(b@.skip(pos as int).skip(n as int) =~= b@.skip(pos + n));
        }
        Some((v, pos + n))
    } else {
        None
    }
}

pub(crate) fn read_key32(b: &[u8], pos: usize) -> (r: Option<([u8; 32], usize)>)
    requires
        pos <= b@.len(),
    ensures
        match r {
            Some(p) => dec_bytes(b@.skip(pos as int), 32) == Some((p.0@, b@.skip(p.1 as int)))
                && pos < p.1 <= b@.len(),
            None => dec_bytes(b@.skip(pos as int), 32) is None,
        },
{
    let blen: usize = b.len();
    if blen - pos >= 32 {
        let mut a = [0u8; 32];
        let mut i: usize = 0;
        while i < 32
            invariant
                blen == b@.len(),
                pos + 32 <= blen,
                i <= 32,
                forall|j: int| 0 <= j < i ==> a@[j] == b@[pos + j],
            decreases 32 - i,
        {
            a.set(i, b[pos + i]);
            i = i + 1;
        }
        proof {
            assert(a@ =~= b@.skip(pos as int).take(32));
            assert(b@.skip(pos as int).skip(32) =~= b@.skip(pos + 32));
        }
        Some((a, pos + 32))
    } else {
        None
    }
}


/// Unfolding helper: the header parsed and the writes failed, so the record
/// fails to parse.
proof fn lemma_sc_fail_writes(
    bb: Seq<u8>,
    slot: u64,
    b1: Seq<u8>,
    prev: Seq<u8>,
    b2: Seq<u8>,
    new: Seq<u8>,
    b3: Seq<u8>,
    ts: u64,
    b4: Seq<u8>,
    count: u32,
    b5: Seq<u8>,
)
    requires
        dec_u64(bb) == Some((slot, b1)),
        dec_bytes(b1, 32) == Some((prev, b2)),
        dec_bytes(b2, 32) == Some((new, b3)),
        dec_u64(b3) == Some((ts, b4)),
        dec_u32(b4) == Some((count, b5)),
        dec_writes(b5, count as nat) is None,
    ensures
        dec_state_change(bb) is None,
{
}

/// Unfolding helper: every field parsed, so the record parses to exactly
/// those fields.
proof fn lemma_sc_success(
    bb: Seq<u8>,
    slot: u64,
    b1: Seq<u8>,
    prev: Seq<u8>,
    b2: Seq<u8>,
    new: Seq<u8>,
    b3: Seq<u8>,
    ts: u64,
    b4: Seq<u8>,
    count: u32,
    b5: Seq<u8>,
    writes: Seq<AccountWriteV>,
    b6: Seq<u8>,
    sig_len: u32,
    b7: Seq<u8>,
    sig: Seq<u8>,
    b8: Seq<u8>,
)
    requires
        dec_u64(bb) == Some((slot, b1)),
        dec_bytes(b1, 32) == Some((prev, b2)),
        dec_bytes(b2, 32) == Some((new, b3)),
        dec_u64(b3) == Some((ts, b4)),
        dec_u32(b4) == Some((count, b5)),
        dec_writes(b5, count as nat) == Some((writes, b6)),
        dec_u32(b6) == Some((sig_len, b7)),
        dec_bytes(b7, sig_len as nat) == Some((sig, b8)),
    ensures
        dec_state_change(bb) == Some(
            (
                StateChangeV {
                    slot,
                    prev_state_root: prev,
                    new_state_root: new,
                    writes,
                    timestamp: ts,
                    leader_signature: sig,
                },
                b8,
            ),
        ),
{
}

/// Unfolding helper: the record fails at or after the signature length.
proof fn lemma_sc_fail_tail(
    bb: Seq<u8>,
    slot: u64,
    b1: Seq<u8>,
    prev: Seq<u8>,
    b2: Seq<u8>,
    new: Seq<u8>,
    b3: Seq<u8>,
    ts: u64,
    b4: Seq<u8>,
    count: u32,
    b5: Seq<u8>,
    writes: Seq<AccountWriteV>,
    b6: Seq<u8>,
)
    requires
        dec_u64(bb) == Some((slot, b1)),
        dec_bytes(b1, 32) == Some((prev, b2)),
        dec_bytes(b2, 32) == Some((new, b3)),
        dec_u64(b3) == Some((ts, b4)),
        dec_u32(b4) == Some((count, b5)),
        dec_writes(b5, count as nat) == Some((writes, b6)),
        (dec_u32(b6) is None || (dec_u32(b6) matches Some(p) && dec_bytes(p.1, p.0 as nat) is None)),
    ensures
        dec_state_change(bb) is None,
{
}

#[verifier::rlimit(80)]
#[verifier::loop_isolation(false)]
pub(crate) fn read_state_change(b: &[u8], start: usize) -> (r: Option<(StateChange, usize)>)
    requires
        start <= b@.len(),
    ensures
        match r {
            Some(p) => dec_state_change(b@.skip(start as int)) == Some(
                (p.0@, b@.skip(p.1 as int)),
            ) && start <= p.1 <= b@.len(),
            None => dec_state_change(b@.skip(start as int)) is None,
        },
{
    let (slot, p1) = match read_u64(b, start) {
        Some(p) => p,
        None => {
            return None;
        },
    };
    let (prev, p2) = match read_key32(b, p1) {
        Some(p) => p,
        None => {
            return None;
        },
    };
    let (new, p3) = match read_key32(b, p2) {
        Some(p) => p,
        None => {
            return None;
        },
    };
    let (timestamp, p4) = match read_u64(b, p3) {
        Some(p) => p,
        None => {
            return None;
        },
    };
    let (count, p5) = match read_u32(b, p4) {
        Some(p) => p,
        None => {
            return None;
        },
    };
    let mut writes: Vec<AccountWrite> = Vec::new();
    let mut pos: usize = p5;
    let mut i: u32 = 0;
    proof {
        assert(writes@.map_values(|w: AccountWrite| w@) =~= Seq::<AccountWriteV>::empty());
    }
    while i < count
        invariant
            p5 <= pos <= b@.len(),
            i <= count,
            writes@.len() == i,
            dec_writes(b@.skip(p5 as int), i as nat) == Some(
                (writes@.map_values(|w: AccountWrite| w@), b@.skip(pos as int)),
            ),
        decreases count - i,
    {
        let ghost prev_ws = writes@.map_values(|w: AccountWrite| w@);
        let (pk, q1) = match read_key32(b, pos) {
            Some(p) => p,
            None => {
                proof {
                    lemma_dec_writes_failure(b@.skip(p5 as int), i as nat, count as nat, b@.skip(pos as int));
                    lemma_sc_fail_writes(b@.skip(start as int), slot, b@.skip(p1 as int), prev@,
                        b@.skip(p2 as int), new@, b@.skip(p3 as int), timestamp,
                        b@.skip(p4 as int), count, b@.skip(p5 as int));
                }
                return None;
            },
        };
        let (data_len, q2) = match read_u32(b, q1) {
            Some(p) => p,
            None => {
                proof {
                    lemma_dec_writes_failure(b@.skip(p5 as int), i as nat, count as nat, b@.skip(pos as int));
                    lemma_sc_fail_writes(b@.skip(start as int), slot, b@.skip(p1 as int), prev@,
                        b@.skip(p2 as int), new@, b@.skip(p3 as int), timestamp,
                        b@.skip(p4 as int), count, b@.skip(p5 as int));
                }
                return None;
            },
        };
        let (data, q3) = match read_vec(b, q2, data_len as usize) {
            Some(p) => p,
            None => {
                proof {
                    lemma_dec_writes_failure(b@.skip(p5 as int), i as nat, count as nat, b@.skip(pos as int));
                    lemma_sc_fail_writes(b@.skip(start as int), slot, b@.skip(p1 as int), prev@,
                        b@.skip(p2 as int), new@, b@.skip(p3 as int), timestamp,
                        b@.skip(p4 as int), count, b@.skip(p5 as int));
                }
                return None;
            },
        };
        let (lamports, q4) = match read_u64(b, q3) {
            Some(p) => p,
            None => {
                proof {
                    lemma_dec_writes_failure(b@.skip(p5 as int), i as nat, count as nat, b@.skip(pos as int));
                    lemma_sc_fail_writes(b@.skip(start as int), slot, b@.skip(p1 as int), prev@,
                        b@.skip(p2 as int), new@, b@.skip(p3 as int), timestamp,
                        b@.skip(p4 as int), count, b@.skip(p5 as int));
                }
                return None;
            },
        };
        let (owner, q5) = match read_key32(b, q4) {
            Some(p) => p,
            None => {
                proof {
                    lemma_dec_writes_failure(b@.skip(p5 as int), i as nat, count as nat, b@.skip(pos as int));
                    lemma_sc_fail_writes(b@.skip(start as int), slot, b@.skip(p1 as int), prev@,
                        b@.skip(p2 as int), new@, b@.skip(p3 as int), timestamp,
                        b@.skip(p4 as int), count, b@.skip(p5 as int));
                }
                return None;
            },
        };
        let w = AccountWrite { pubkey: pk, data, lamports, owner };
        let ghost wv = w@;
        proof {
            assert(data_len as usize as nat == data_len as nat);
            assert(dec_write(b@.skip(pos as int)) == Some((wv, b@.skip(q5 as int))));
            lemma_dec_writes_step(b@.skip(p5 as int), i as nat, prev_ws, b@.skip(pos as int), wv, b@.skip(q5 as int));
        }
        writes.push(w);
        proof {
            assert(writes@.map_values(|w2: AccountWrite| w2@) =~= prev_ws.push(wv));
        }
        pos = q5;
        i = i + 1;
    }
    let (sig_len, p6) = match read_u32(b, pos) {
        Some(p) => p,
        None => {
            proof {
                lemma_sc_fail_tail(b@.skip(start as int), slot, b@.skip(p1 as int), prev@,
                    b@.skip(p2 as int), new@, b@.skip(p3 as int), timestamp, b@.skip(p4 as int),
                    count, b@.skip(p5 as int), writes@.map_values(|w2: AccountWrite| w2@),
                    b@.skip(pos as int));
            }
            return None;
        },
    };
    let (sig, p7) = match read_vec(b, p6, sig_len as usize) {
        Some(p) => p,
        None => {
            proof {
                assert(sig_len as usize as nat == sig_len as nat);
                lemma_sc_fail_tail(b@.skip(start as int), slot, b@.skip(p1 as int), prev@,
                    b@.skip(p2 as int), new@, b@.skip(p3 as int), timestamp, b@.skip(p4 as int),
                    count, b@.skip(p5 as int), writes@.map_values(|w2: AccountWrite| w2@),
                    b@.skip(pos as int));
            }
            return None;
        },
    };
    let sc = StateChange {
        slot,
        prev_state_root: prev,
        new_state_root: new,
        writes,
        timestamp,
        leader_signature: sig,
    };
    proof {
        assert(sig_len as usize as nat == sig_len as nat);
        lemma_sc_success(b@.skip(start as int), slot, b@.skip(p1 as int), prev@,
            b@.skip(p2 as int), new@, b@.skip(p3 as int), timestamp, b@.skip(p4 as int), count,
            b@.skip(p5 as int), sc@.writes, b@.skip(pos as int), sig_len, b@.skip(p6 as int),
            sig@, b@.skip(p7 as int));
    }
    Some((sc, p7))
}

/// One more write parses onto the end of `i` parsed writes.
proof fn lemma_dec_writes_step(
    b0: Seq<u8>,
    i: nat,
    ws: Seq<AccountWriteV>,
    rest: Seq<u8>,
    w: AccountWriteV,
    rest2: Seq<u8>,
)
    requires
        dec_writes(b0, i) == Some((ws, rest)),
        dec_write(rest) == Some((w, rest2)),
    ensures
        dec_writes(b0, i + 1) == Some((ws.push(w), rest2)),
{
    assert((i + 1) as nat - 1 == i);
}

/// When the next write fails to parse, so does any longer count.
proof fn lemma_dec_writes_failure(b0: Seq<u8>, i: nat, count: nat, rest: Seq<u8>)
    requires
        i < count,
        (dec_writes(b0, i) matches Some(p) && p.1 == rest),
        dec_write(rest) is None,
    ensures
        dec_writes(b0, count) is None,
    decreases count - i,
{
    if count == i + 1 {
        assert((count - 1) as nat == i);
    } else {
        lemma_dec_writes_failure(b0, i, (count - 1) as nat, rest);
    }
}

} // verus!

verus! {

// ---------------------------------------------------------------------------
// Exec encoders
// ---------------------------------------------------------------------------

impl StateChange {
    /// Canonical wire bytes of this record.
    pub fn to_bytes(&self) -> (r: Vec<u8>)
        requires
            state_change_encodable(self@),
        ensures
            r@ == enc_state_change(self@),
    {
        let mut r: Vec<u8> = u64_to_le_bytes(self.slot);
        r.extend_from_slice(self.prev_state_root.as_slice());
        r.extend_from_slice(self.new_state_root.as_slice());
        let ts = u64_to_le_bytes(self.timestamp);
        r.extend_from_slice(ts.as_slice());
        let cnt = u32_to_le_bytes(self.writes.len() as u32);
        r.extend_from_slice(cnt.as_slice());
        proof {
            assert(r@ =~= spec_u64_to_le_bytes(self@.slot) + self@.prev_state_root
                + self@.new_state_root + spec_u64_to_le_bytes(self@.timestamp)
                + spec_u32_to_le_bytes(self@.writes.len() as u32));
        }
        let ghost header = r@;
        let n = self.writes.len();
        let mut i: usize = 0;
        while i < n
            invariant
                n == self.writes@.len(),
                i <= n,
                r@ == header + enc_writes(self@.writes.take(i as int)),
                forall|k: int| 0 <= k < n ==> write_encodable(#[trigger] self@.writes[k]),
            decreases n - i,
        {
            let w = &self.writes[i];
            r.extend_from_slice(w.pubkey.as_slice());
            let dl = u32_to_le_bytes(w.data.len() as u32);
            r.extend_from_slice(dl.as_slice());
            r.extend_from_slice(w.data.as_slice());
            let lam = u64_to_le_bytes(w.lamports);
            r.extend_from_slice(lam.as_slice());
            r.extend_from_slice(w.owner.as_slice());
            proof {
                let ws = self@.writes;
                assert(ws.take(i + 1).drop_last() =~= ws.take(i as int));
                assert(ws.take(i + 1).last() == ws[i as int]);
                assert(ws[i as int] == self.writes@[i as int]@);
                assert(r@ =~= header + enc_writes(ws.take(i + 1)));
            }
            i = i + 1;
        }
        proof {
            assert(self@.writes.take(n as int) =~= self@.writes);
        }
        let sl = u32_to_le_bytes(self.leader_signature.len() as u32);
        r.extend_from_slice(sl.as_slice());
        r.extend_from_slice(self.leader_signature.as_slice());
        proof {
            assert(r@ =~= enc_state_change(self@));
        }
        r
    }

    /// Parse a record from exactly these bytes; trailing bytes are refused.
    pub fn from_bytes(data: &[u8]) -> (r: Option<StateChange>)
        ensures
            match r {
                Some(sc) => dec_state_change(data@) == Some((sc@, Seq::<u8>::empty())),
                None => dec_state_change(data@) is None || (dec_state_change(data@) matches Some(
                    p,
                ) && p.1.len() != 0),
            },
    {
        proof {
            assert(data@.skip(0) =~= data@);
        }
        match read_state_change(data, 0) {
            Some((sc, pos)) => {
                if pos == data.len() {
                    proof {
                        assert(data@.skip(pos as int) =~= Seq::<u8>::empty());
                    }
                    Some(sc)
                } else {
                    proof {
                        assert(data@.skip(pos as int).len() == data@.len() - pos);
                    }
                    None
                }
            },
            None => None,
        }
    }
}

} // verus!

verus! {

/// One more record parses onto the end of `i` parsed records.
proof fn lemma_dec_changes_step(
    b0: Seq<u8>,
    i: nat,
    cs: Seq<StateChangeV>,
    rest: Seq<u8>,
    c: StateChangeV,
    rest2: Seq<u8>,
)
    requires
        dec_changes(b0, i) == Some((cs, rest)),
        dec_state_change(rest) == Some((c, rest2)),
    ensures
        dec_changes(b0, i + 1) == Some((cs.push(c), rest2)),
{
    assert((i + 1) as nat - 1 == i);
}

/// When the next record fails to parse, so does any longer count.
proof fn lemma_dec_changes_failure(b0: Seq<u8>, i: nat, count: nat, rest: Seq<u8>)
    requires
        i < count,
        (dec_changes(b0, i) matches Some(p) && p.1 == rest),
        dec_state_change(rest) is None,
    ensures
        dec_changes(b0, count) is None,
    decreases count - i,
{
    if count == i + 1 {
        assert((count - 1) as nat == i);
    } else {
        lemma_dec_changes_failure(b0, i, (count - 1) as nat, rest);
    }
}

impl ValidatorMessage {
    /// Wire bytes of this frame.
    #[verifier::rlimit(60)]
    pub fn to_bytes(&self) -> (r: Vec<u8>)
        requires
            message_encodable(self@),
        ensures
            r@ == enc_message(self@),
    {
        let mut r: Vec<u8> = Vec::new();
        match self {
            ValidatorMessage::StateChange(sc) => {
                r.push(1u8);
                let body = sc.to_bytes();
                r.extend_from_slice(body.as_slice());
                proof {
                    assert(r@ =~= enc_message(self@));
                }
            },
            ValidatorMessage::SyncRequest { from_slot } => {
                r.push(2u8);
                let body = u64_to_le_bytes(*from_slot);
                r.extend_from_slice(body.as_slice());
                proof {
                    assert(r@ =~= enc_message(self@));
                }
            },
            ValidatorMessage::SyncResponse { changes } => {
                r.push(3u8);
                let cnt = u32_to_le_bytes(changes.len() as u32);
                r.extend_from_slice(cnt.as_slice());
                proof {
                    assert(r@ =~= seq![3u8] + spec_u32_to_le_bytes(
                        self@->SyncResponse_changes.len() as u32,
                    ));
                }
                let ghost header = r@;
                proof {
                    let cs = changes@.map_values(|c: StateChange| c@);
                    assert(cs.take(0) =~= Seq::<StateChangeV>::empty());
                    assert(r@ =~= header + enc_changes(cs.take(0)));
                    assert forall|k: int| 0 <= k < changes@.len() implies state_change_encodable(
                        changes@[k]@,
                    ) by {
                        assert(cs[k] == changes@[k]@);
                    }
                }
                let n = changes.len();
                let mut i: usize = 0;
                while i < n
                    invariant
                        n == changes@.len(),
                        i <= n,
                        forall|k: int|
                            0 <= k < n ==> state_change_encodable(
                                #[trigger] changes@[k]@,
                            ),
                        r@ == header + enc_changes(
                            changes@.map_values(|c: StateChange| c@).take(i as int),
                        ),
                    decreases n - i,
                {
                    let body = changes[i].to_bytes();
                    r.extend_from_slice(body.as_slice());
                    proof {
                        let cs = changes@.map_values(|c: StateChange| c@);
                        assert(cs.take(i + 1).drop_last() =~= cs.take(i as int));
                        assert(cs.take(i + 1).last() == cs[i as int]);
                        assert(r@ =~= header + enc_changes(cs.take(i + 1)));
                    }
                    i = i + 1;
                }
                proof {
                    let cs = changes@.map_values(|c: StateChange| c@);
                    assert(cs.take(n as int) =~= cs);
                    assert(r@ =~= enc_message(self@));
                }
            },
            ValidatorMessage::SlotVerified { slot, validator_id } => {
                r.push(4u8);
                let body = u64_to_le_bytes(*slot);
                r.extend_from_slice(body.as_slice());
                r.extend_from_slice(validator_id.as_slice());
                proof {
                    assert(r@ =~= enc_message(self@));
                }
            },
            ValidatorMessage::FraudChallenge { slot, reason, evidence } => {
                r.push(5u8);
                let body = u64_to_le_bytes(*slot);
                r.extend_from_slice(body.as_slice());
                let rl = u16_to_le_bytes(reason.len() as u16);
                r.extend_from_slice(rl.as_slice());
                r.extend_from_slice(reason.as_slice());
                let el = u32_to_le_bytes(evidence.len() as u32);
                r.extend_from_slice(el.as_slice());
                r.extend_from_slice(evidence.as_slice());
                proof {
                    assert(r@ =~= enc_message(self@));
                }
            },
            ValidatorMessage::Heartbeat { slot } => {
                r.push(6u8);
                let body = u64_to_le_bytes(*slot);
                r.extend_from_slice(body.as_slice());
                proof {
                    assert(r@ =~= enc_message(self@));
                }
            },
        }
        r
    }

    /// Parse a frame from exactly these bytes; an unknown tag or trailing
    /// bytes make the frame invalid.
    #[verifier::rlimit(80)]
    #[verifier::loop_isolation(false)]
    pub fn from_bytes(data: &[u8]) -> (r: Option<ValidatorMessage>)
        ensures
            match r {
                Some(m) => dec_message(data@) == Some(m@),
                None => dec_message(data@) is None,
            },
    {
        let len = data.len();
        if len < 1 {
            return None;
        }
        let tag = data[0];
        if tag == 1 {
            match read_state_change(data, 1) {
                Some((sc, pos)) => {
                    if pos == len {
                        proof {
                            assert(data@.skip(pos as int) =~= Seq::<u8>::empty());
                        }
                        Some(ValidatorMessage::StateChange(sc))
                    } else {
                        proof {
                            assert(data@.skip(pos as int).len() == data@.len() - pos);
                        }
                        None
                    }
                },
                None => None,
            }
        } else if tag == 2 {
            match read_u64(data, 1) {
                Some((from_slot, pos)) => {
                    if pos == len {
                        proof {
                            assert(data@.skip(pos as int) =~= Seq::<u8>::empty());
                        }
                        Some(ValidatorMessage::SyncRequest { from_slot })
                    } else {
                        proof {
                            assert(data@.skip(pos as int).len() == data@.len() - pos);
                        }
                        None
                    }
                },
                None => None,
            }
        } else if tag == 3 {
            let (count, p1) = match read_u32(data, 1) {
                Some(p) => p,
                None => {
                    return None;
                },
            };
            let mut changes: Vec<StateChange> = Vec::new();
            let mut pos: usize = p1;
            let mut i: u32 = 0;
            proof {
                assert(changes@.map_values(|c: StateChange| c@) =~= Seq::<StateChangeV>::empty());
            }
            while i < count
                invariant
                    pos <= data@.len(),
                    i <= count,
                    changes@.len() == i,
                    dec_changes(data@.skip(p1 as int), i as nat) == Some(
                        (changes@.map_values(|c: StateChange| c@), data@.skip(pos as int)),
                    ),
                decreases count - i,
            {
                let ghost prev_cs = changes@.map_values(|c: StateChange| c@);
                let (c, p2) = match read_state_change(data, pos) {
                    Some(p) => p,
                    None => {
                        proof {
                            lemma_dec_changes_failure(
                                data@.skip(p1 as int),
                                i as nat,
                                count as nat,
                                data@.skip(pos as int),
                            );
                        }
                        return None;
                    },
                };
                let ghost cv = c@;
                proof {
                    lemma_dec_changes_step(
                        data@.skip(p1 as int),
                        i as nat,
                        prev_cs,
                        data@.skip(pos as int),
                        cv,
                        data@.skip(p2 as int),
                    );
                }
                changes.push(c);
                proof {
                    assert(changes@.map_values(|c2: StateChange| c2@) =~= prev_cs.push(cv));
                }
                pos = p2;
                i = i + 1;
            }
            if pos == len {
                let m = ValidatorMessage::SyncResponse { changes };
                proof {
                    assert(data@.skip(pos as int) =~= Seq::<u8>::empty());
                }
                Some(m)
            } else {
                proof {
                    assert(data@.skip(pos as int).len() == data@.len() - pos);
                }
                None
            }
        } else if tag == 4 {
            let (slot, p1) = match read_u64(data, 1) {
                Some(p) => p,
                None => {
                    return None;
                },
            };
            let (validator_id, p2) = match read_key32(data, p1) {
                Some(p) => p,
                None => {
                    return None;
                },
            };
            if p2 == len {
                proof {
                    assert(data@.skip(p2 as int) =~= Seq::<u8>::empty());
                }
                Some(ValidatorMessage::SlotVerified { slot, validator_id })
            } else {
                proof {
                    assert(data@.skip(p2 as int).len() == data@.len() - p2);
                }
                None
            }
        } else if tag == 5 {
            let (slot, p1) = match read_u64(data, 1) {
                Some(p) => p,
                None => {
                    return None;
                },
            };
            let (reason_len, p2) = match read_u16(data, p1) {
                Some(p) => p,
                None => {
                    return None;
                },
            };
            let (reason, p3) = match read_vec(data, p2, reason_len as usize) {
                Some(p) => p,
                None => {
                    proof {
                        assert(reason_len as usize as nat == reason_len as nat);
                    }
                    return None;
                },
            };
            let (evidence_len, p4) = match read_u32(data, p3) {
                Some(p) => p,
                None => {
                    proof {
                        assert(reason_len as usize as nat == reason_len as nat);
                    }
                    return None;
                },
            };
            let (evidence, p5) = match read_vec(data, p4, evidence_len as usize) {
                Some(p) => p,
                None => {
                    proof {
                        assert(reason_len as usize as nat == reason_len as nat);
                        assert(evidence_len as usize as nat == evidence_len as nat);
                    }
                    return None;
                },
            };
            if p5 == len {
                proof {
                    assert(reason_len as usize as nat == reason_len as nat);
                    assert(evidence_len as usize as nat == evidence_len as nat);
                    assert(data@.skip(p5 as int) =~= Seq::<u8>::empty());
                }
                Some(ValidatorMessage::FraudChallenge { slot, reason, evidence })
            } else {
                proof {
                    assert(reason_len as usize as nat == reason_len as nat);
                    assert(evidence_len as usize as nat == evidence_len as nat);
                    assert(data@.skip(p5 as int).len() == data@.len() - p5);
                }
                None
            }
        } else if tag == 6 {
            match read_u64(data, 1) {
                Some((slot, pos)) => {
                    if pos == len {
                        proof {
                            assert(data@.skip(pos as int) =~= Seq::<u8>::empty());
                        }
                        Some(ValidatorMessage::Heartbeat { slot })
                    } else {
                        proof {
                            assert(data@.skip(pos as int).len() == data@.len() - pos);
                        }
                        None
                    }
                },
                None => None,
            }
        } else {
            None
        }
    }
}

} // verus!
