//! Persistence (component C2): the byte encoding under which accounts, their
//! slots and the chain metadata go to the durable store, and the save/load
//! paths between the in-memory account store and a staged durable image.
//! Loading a saved image restores every account byte for byte; the metadata
//! record is the commit point of a snapshot.

use vstd::prelude::*;
use vstd::bytes::{spec_u32_to_le_bytes, spec_u64_to_le_bytes, u32_to_le_bytes, u64_to_le_bytes};
use crate::account::{Account, AccountStore, AccountV};
use crate::chain::{zero_root, zeroed_root};
use crate::wire::{
    dec_bytes, dec_u32, dec_u64, lemma_dec_bytes, lemma_dec_u32, lemma_dec_u64, read_key32,
    read_u32, read_u64, read_vec,
};

verus! {

/// Metadata persisted with each snapshot; the root of trust at startup.
#[derive(Debug, Clone, Copy)]
pub struct ChainMetadata {
    pub slot: u64,
    pub blockhash: [u8; 32],
    pub epoch: u64,
    pub account_count: u64,
    pub last_save_ts: i64,
}

/// Mathematical value of a [`ChainMetadata`].
#[verifier::ext_equal]
pub struct ChainMetadataV {
    pub slot: u64,
    pub blockhash: Seq<u8>,
    pub epoch: u64,
    pub account_count: u64,
    pub last_save_ts: i64,
}

impl View for ChainMetadata {
    type V = ChainMetadataV;

    open spec fn view(&self) -> ChainMetadataV {
        ChainMetadataV {
            slot: self.slot,
            blockhash: self.blockhash@,
            epoch: self.epoch,
            account_count: self.account_count,
            last_save_ts: self.last_save_ts,
        }
    }
}

impl Default for ChainMetadata {
    fn default() -> (r: Self)
        ensures
            r@.slot == 0,
            r@.blockhash == zero_root(),
            r@.epoch == 0,
            r@.account_count == 0,
            r@.last_save_ts == 0,
    {
        ChainMetadata {
            slot: 0,
            blockhash: zeroed_root(),
            epoch: 0,
            account_count: 0,
            last_save_ts: 0,
        }
    }
}

// ---------------------------------------------------------------------------
// Byte encoding of stored values
// ---------------------------------------------------------------------------

/// Stored bytes of an account:
/// `lamports || owner[32] || executable:u8 || rent_epoch || data_len:u32 || data`.
pub open spec fn enc_account(a: AccountV) -> Seq<u8> {
    spec_u64_to_le_bytes(a.lamports) + a.owner + seq![
        if a.executable {
            1u8
        } else {
            0u8
        },
    ] + spec_u64_to_le_bytes(a.rent_epoch) + spec_u32_to_le_bytes(a.data.len() as u32) + a.data
}

/// An account whose parts fit the stored form.
pub open spec fn account_encodable(a: AccountV) -> bool {
    &&& a.owner.len() == 32
    &&& a.data.len() <= u32::MAX
}

/// Parse an account; a flag byte other than 0 or 1, or trailing bytes,
/// refuse the record.
pub open spec fn dec_account(b: Seq<u8>) -> Option<AccountV> {
    match dec_u64(b) {
        None => None,
        Some((lamports, b)) => match dec_bytes(b, 32) {
            None => None,
            Some((owner, b)) => if b.len() < 1 || (b[0] != 0 && b[0] != 1) {
                None
            } else {
                let executable = b[0] == 1;
                match dec_u64(b.skip(1)) {
                    None => None,
                    Some((rent_epoch, b)) => match dec_u32(b) {
                        None => None,
                        Some((data_len, b)) => match dec_bytes(b, data_len as nat) {
                            None => None,
                            Some((data, rest)) => if rest.len() == 0 {
                                Some(AccountV { lamports, data, owner, executable, rent_epoch })
                            } else {
                                None
                            },
                        },
                    },
                }
            },
        },
    }
}

/// Stored bytes of the chain metadata:
/// `slot || blockhash[32] || epoch || account_count || last_save_ts`.
pub open spec fn enc_metadata(m: ChainMetadataV) -> Seq<u8> {
    spec_u64_to_le_bytes(m.slot) + m.blockhash + spec_u64_to_le_bytes(m.epoch)
        + spec_u64_to_le_bytes(m.account_count) + spec_u64_to_le_bytes(m.last_save_ts as u64)
}

/// Parse a metadata record; trailing bytes are refused.
pub open spec fn dec_metadata(b: Seq<u8>) -> Option<ChainMetadataV> {
    match dec_u64(b) {
        None => None,
        Some((slot, b)) => match dec_bytes(b, 32) {
            None => None,
            Some((blockhash, b)) => match dec_u64(b) {
                None => None,
                Some((epoch, b)) => match dec_u64(b) {
                    None => None,
                    Some((account_count, b)) => match dec_u64(b) {
                        None => None,
                        Some((ts, rest)) => if rest.len() == 0 {
                            Some(
                                ChainMetadataV {
                                    slot,
                                    blockhash,
                                    epoch,
                                    account_count,
                                    last_save_ts: ts as i64,
                                },
                            )
                        } else {
                            None
                        },
                    },
                },
            },
        },
    }
}

/// Snapshot round trip, account half: decoding an encoded account gives the
/// account back, byte for byte.
pub proof fn lemma_dec_account(a: AccountV)
    requires
        account_encodable(a),
    ensures
        dec_account(enc_account(a)) == Some(a),
{
    let flag = seq![
        if a.executable {
            1u8
        } else {
            0u8
        },
    ];
    let b = enc_account(a);
    let t1 = a.owner + flag + spec_u64_to_le_bytes(a.rent_epoch) + spec_u32_to_le_bytes(
        a.data.len() as u32,
    ) + a.data;
    assert(b =~= spec_u64_to_le_bytes(a.lamports) + t1);
    lemma_dec_u64(a.lamports, t1);
    let t2 = flag + spec_u64_to_le_bytes(a.rent_epoch) + spec_u32_to_le_bytes(
        a.data.len() as u32,
    ) + a.data;
    assert(t1 =~= a.owner + t2);
    lemma_dec_bytes(a.owner, t2);
    assert(t2[0] == flag[0]);
    let t3 = spec_u64_to_le_bytes(a.rent_epoch) + spec_u32_to_le_bytes(a.data.len() as u32)
        + a.data;
    assert(t2.skip(1) =~= t3);
    let t4 = spec_u32_to_le_bytes(a.data.len() as u32) + a.data;
    assert(t3 =~= spec_u64_to_le_bytes(a.rent_epoch) + t4);
    lemma_dec_u64(a.rent_epoch, t4);
    assert(t4 =~= spec_u32_to_le_bytes(a.data.len() as u32) + (a.data + Seq::<u8>::empty()));
    lemma_dec_u32(a.data.len() as u32, a.data + Seq::<u8>::empty());
    assert(a.data.len() as u32 as nat == a.data.len());
    lemma_dec_bytes(a.data, Seq::empty());
    assert(dec_account(b) =~= Some(a));
}

/// Snapshot round trip, metadata half: decoding an encoded metadata record
/// gives the record back.
pub proof fn lemma_dec_metadata(m: ChainMetadataV)
    requires
        m.blockhash.len() == 32,
    ensures
        dec_metadata(enc_metadata(m)) == Some(m),
{
    let b = enc_metadata(m);
    let t1 = m.blockhash + spec_u64_to_le_bytes(m.epoch) + spec_u64_to_le_bytes(m.account_count)
        + spec_u64_to_le_bytes(m.last_save_ts as u64);
    assert(b =~= spec_u64_to_le_bytes(m.slot) + t1);
    lemma_dec_u64(m.slot, t1);
    let t2 = spec_u64_to_le_bytes(m.epoch) + spec_u64_to_le_bytes(m.account_count)
        + spec_u64_to_le_bytes(m.last_save_ts as u64);
    assert(t1 =~= m.blockhash + t2);
    lemma_dec_bytes(m.blockhash, t2);
    let t3 = spec_u64_to_le_bytes(m.account_count) + spec_u64_to_le_bytes(m.last_save_ts as u64);
    assert(t2 =~= spec_u64_to_le_bytes(m.epoch) + t3);
    lemma_dec_u64(m.epoch, t3);
    assert(t3 =~= spec_u64_to_le_bytes(m.account_count) + (spec_u64_to_le_bytes(
        m.last_save_ts as u64,
    ) + Seq::<u8>::empty()));
    lemma_dec_u64(m.account_count, spec_u64_to_le_bytes(m.last_save_ts as u64) + Seq::<u8>::empty());
    lemma_dec_u64(m.last_save_ts as u64, Seq::empty());
    let ts = m.last_save_ts;
    assert(ts as u64 as i64 == ts) by (bit_vector);
    assert(dec_metadata(b) =~= Some(m));
}

// ---------------------------------------------------------------------------
// Exec codec
// ---------------------------------------------------------------------------

/// Encode an account into its stored bytes.
pub fn encode_account(a: &Account) -> (r: Vec<u8>)
    requires
        a@.data.len() <= u32::MAX,
    ensures
        r@ == enc_account(a@),
{
    let mut r: Vec<u8> = u64_to_le_bytes(a.lamports);
    r.extend_from_slice(a.owner.as_slice());
    if a.executable {
        r.push(1u8);
    } else {
        r.push(0u8);
    }
    let re = u64_to_le_bytes(a.rent_epoch);
    r.extend_from_slice(re.as_slice());
    let dl = u32_to_le_bytes(a.data.len() as u32);
    r.extend_from_slice(dl.as_slice());
    r.extend_from_slice(a.data.as_slice());
    proof {
        assert(r@ =~= enc_account(a@));
    }
    r
}

/// Decode an account from its stored bytes.
pub fn decode_account(b: &[u8]) -> (r: Option<Account>)
    ensures
        match r {
            Some(a) => dec_account(b@) == Some(a@),
            None => dec_account(b@) is None,
        },
{
    proof {
        assert(b@.skip(0) =~= b@);
    }
    let (lamports, p1) = match read_u64(b, 0) {
        Some(p) => p,
        None => {
            return None;
        },
    };
    let (owner, p2) = match read_key32(b, p1) {
        Some(p) => p,
        None => {
            return None;
        },
    };
    if b.len() - p2 < 1 {
        return None;
    }
    let flag = b[p2];
    if flag != 0 && flag != 1 {
        proof {
            assert(b@.skip(p2 as int)[0] == b@[p2 as int]);
        }
        return None;
    }
    let executable = flag == 1;
    proof {
        assert(b@.skip(p2 as int)[0] == b@[p2 as int]);
        assert(b@.skip(p2 as int).skip(1) =~= b@.skip(p2 + 1));
    }
    let (rent_epoch, p3) = match read_u64(b, p2 + 1) {
        Some(p) => p,
        None => {
            return None;
        },
    };
    let (data_len, p4) = match read_u32(b, p3) {
        Some(p) => p,
        None => {
            return None;
        },
    };
    let (data, p5) = match read_vec(b, p4, data_len as usize) {
        Some(p) => p,
        None => {
            proof {
                assert(data_len as usize as nat == data_len as nat);
            }
            return None;
        },
    };
    proof {
        assert(data_len as usize as nat == data_len as nat);
        assert(b@.skip(p5 as int).len() == b@.len() - p5);
    }
    if p5 != b.len() {
        return None;
    }
    proof {
        assert(b@.skip(p5 as int) =~= Seq::<u8>::empty());
    }
    Some(Account { lamports, data, owner, executable, rent_epoch })
}

/// Encode the chain metadata into its stored bytes.
pub fn encode_metadata(m: &ChainMetadata) -> (r: Vec<u8>)
    ensures
        r@ == enc_metadata(m@),
{
    let mut r: Vec<u8> = u64_to_le_bytes(m.slot);
    r.extend_from_slice(m.blockhash.as_slice());
    let e = u64_to_le_bytes(m.epoch);
    r.extend_from_slice(e.as_slice());
    let c = u64_to_le_bytes(m.account_count);
    r.extend_from_slice(c.as_slice());
    let t = u64_to_le_bytes(#[verifier::truncate] (m.last_save_ts as u64));
    r.extend_from_slice(t.as_slice());
    proof {
        assert(r@ =~= enc_metadata(m@));
    }
    r
}

/// Decode the chain metadata from its stored bytes.
pub fn decode_metadata(b: &[u8]) -> (r: Option<ChainMetadata>)
    ensures
        match r {
            Some(m) => dec_metadata(b@) == Some(m@),
            None => dec_metadata(b@) is None,
        },
{
    proof {
        assert(b@.skip(0) =~= b@);
    }
    let (slot, p1) = match read_u64(b, 0) {
        Some(p) => p,
        None => {
            return None;
        },
    };
    let (blockhash, p2) = match read_key32(b, p1) {
        Some(p) => p,
        None => {
            return None;
        },
    };
    let (epoch, p3) = match read_u64(b, p2) {
        Some(p) => p,
        None => {
            return None;
        },
    };
    let (account_count, p4) = match read_u64(b, p3) {
        Some(p) => p,
        None => {
            return None;
        },
    };
    let (ts, p5) = match read_u64(b, p4) {
        Some(p) => p,
        None => {
            return None;
        },
    };
    proof {
        assert(b@.skip(p5 as int).len() == b@.len() - p5);
    }
    if p5 != b.len() {
        return None;
    }
    proof {
        assert(b@.skip(p5 as int) =~= Seq::<u8>::empty());
    }
    Some(
        ChainMetadata {
            slot,
            blockhash,
            epoch,
            account_count,
            last_save_ts: #[verifier::truncate] (ts as i64),
        },
    )
}

// ---------------------------------------------------------------------------
// The staged durable image
// ---------------------------------------------------------------------------

/// A staged image of the durable store's three tables: accounts, per-key
/// slots, and the metadata record. The embedded database writes exactly what
/// stands here, each value under the byte encoding above.
pub struct PersistentStore {
    store: AccountStore,
    metadata: Option<ChainMetadata>,
}

impl PersistentStore {
    pub closed spec fn wf(&self) -> bool {
        self.store.wf()
    }

    /// The accounts table, decoded.
    pub closed spec fn contents(&self) -> Map<Seq<u8>, AccountV> {
        self.store.contents()
    }

    /// The per-key slot table.
    pub closed spec fn slot_tags(&self) -> Map<Seq<u8>, u64> {
        self.store.slots()
    }

    /// The metadata record, if one was ever committed.
    pub closed spec fn spec_metadata(&self) -> Option<ChainMetadataV> {
        match self.metadata {
            Some(m) => Some(m@),
            None => None,
        }
    }

    pub closed spec fn spec_len(&self) -> nat {
        self.store.spec_len()
    }

    /// An empty image, as a fresh data directory gives.
    pub fn new() -> (r: Self)
        ensures
            r.wf(),
            r.contents() == Map::<Seq<u8>, AccountV>::empty(),
            r.spec_metadata() is None,
    {
        PersistentStore { store: AccountStore::new(), metadata: None }
    }

    /// Stage an account, and its slot, for the durable store.
    pub fn store_account(&mut self, pubkey: &[u8; 32], account: &Account, slot: u64)
        requires
            old(self).wf(),
        ensures
            final(self).wf(),
            final(self).contents() == old(self).contents().insert(pubkey@, account@),
            final(self).slot_tags() == old(self).slot_tags().insert(pubkey@, slot),
            final(self).spec_metadata() == old(self).spec_metadata(),
    {
        self.store.store_account(*pubkey, account.clone(), slot);
    }

    /// Read a staged account back.
    pub fn get_account(&self, pubkey: &[u8; 32]) -> (r: Option<Account>)
        requires
            self.wf(),
        ensures
            match r {
                Some(a) => self.contents().dom().contains(pubkey@) && a@ == self.contents()[
                    pubkey@
                ],
                None => !self.contents().dom().contains(pubkey@),
            },
    {
        self.store.get_account(pubkey)
    }

    /// Read a staged account and its slot back.
    pub fn get_account_with_slot(&self, pubkey: &[u8; 32]) -> (r: Option<(Account, u64)>)
        requires
            self.wf(),
        ensures
            match r {
                Some(p) => self.contents().dom().contains(pubkey@) && p.0@ == self.contents()[
                    pubkey@
                ] && p.1 == self.slot_tags()[pubkey@],
                None => !self.contents().dom().contains(pubkey@),
            },
    {
        self.store.get_account_with_slot(pubkey)
    }

    /// Drop an account from the image.
    pub fn remove_account(&mut self, pubkey: &[u8; 32])
        requires
            old(self).wf(),
        ensures
            final(self).wf(),
            final(self).contents() == old(self).contents().remove(pubkey@),
            final(self).slot_tags() == old(self).slot_tags().remove(pubkey@),
            final(self).spec_metadata() == old(self).spec_metadata(),
    {
        let _ = self.store.remove_account(pubkey);
    }

    /// Every staged account with its key and slot, in insertion order.
    pub fn get_all_accounts(&self) -> (r: Vec<([u8; 32], Account, u64)>)
        requires
            self.wf(),
        ensures
            forall|j: int|
                0 <= j < r@.len() ==> {
                    &&& self.contents().dom().contains((#[trigger] r@[j]).0@)
                    &&& r@[j].1@ == self.contents()[r@[j].0@]
                    &&& r@[j].2 == self.slot_tags()[r@[j].0@]
                },
            forall|k: Seq<u8>|
                self.contents().dom().contains(k) ==> exists|j: int|
                    0 <= j < r@.len() && (#[trigger] r@[j]).0@ == k,
    {
        let keys = self.store.get_all_pubkeys();
        let n = keys.len();
        let mut r: Vec<([u8; 32], Account, u64)> = Vec::new();
        let mut i: usize = 0;
        while i < n
            invariant
                self.wf(),
                n == keys@.len(),
                keys@.map_values(|k: [u8; 32]| k@) == self.store.keys_in_order(),
                i <= n,
                forall|j: int|
                    0 <= j < r@.len() ==> {
                        &&& self.contents().dom().contains((#[trigger] r@[j]).0@)
                        &&& r@[j].1@ == self.contents()[r@[j].0@]
                        &&& r@[j].2 == self.slot_tags()[r@[j].0@]
                    },
                forall|w: int|
                    0 <= w < i ==> exists|j: int|
                        0 <= j < r@.len() && (#[trigger] r@[j]).0@ == (#[trigger] keys@[w])@,
            decreases n - i,
        {
            let k = keys[i];
            proof {
                assert(keys@.map_values(|k2: [u8; 32]| k2@)[i as int] == k@);
                self.store.lemma_key_at(i as int);
            }
            let ghost r_old = r@;
            match self.store.get_account_with_slot(&k) {
                Some((a, slot)) => {
                    r.push((k, a, slot));
                    proof {
                        assert(forall|j: int| 0 <= j < r_old.len() ==> r_old[j] == #[trigger] r@[
                            j
                        ]);
                        assert forall|w: int| 0 <= w < i + 1 implies exists|j: int|
                            0 <= j < r@.len() && (#[trigger] r@[j]).0@ == (#[trigger] keys@[w])@ by {
                            if w < i {
                                let j0 = choose|j: int|
                                    0 <= j < r_old.len() && (#[trigger] r_old[j]).0@ == (keys@[w])@;
                                assert(r@[j0] == r_old[j0]);
                            } else {
                                assert((r@[r@.len() - 1]).0@ == (keys@[w])@);
                            }
                        }
                    }
                },
                None => {},
            }
            i = i + 1;
        }
        proof {
            assert forall|k: Seq<u8>| self.contents().dom().contains(k) implies exists|j: int|
                0 <= j < r@.len() && (#[trigger] r@[j]).0@ == k by {
                self.store.lemma_dom_in_keys(k);
                let w = choose|w: int|
                    0 <= w < self.store.keys_in_order().len() && self.store.keys_in_order()[w]
                        == k;
                assert(keys@[w]@ == k);
            }
        }
        r
    }

    /// Commit the metadata record: the snapshot's commit point.
    pub fn save_metadata(&mut self, metadata: &ChainMetadata)
        requires
            old(self).wf(),
        ensures
            final(self).wf(),
            final(self).contents() == old(self).contents(),
            final(self).slot_tags() == old(self).slot_tags(),
            final(self).spec_metadata() == Some(metadata@),
    {
        self.metadata = Some(*metadata);
    }

    /// Read the committed metadata record, if any.
    pub fn load_metadata(&self) -> (r: Option<ChainMetadata>)
        ensures
            match r {
                Some(m) => self.spec_metadata() == Some(m@),
                None => self.spec_metadata() is None,
            },
    {
        match &self.metadata {
            Some(m) => Some(*m),
            None => None,
        }
    }

    /// Number of staged accounts.
    pub fn account_count(&self) -> (r: usize)
        ensures
            r == self.spec_len(),
    {
        self.store.len()
    }

    /// Drop everything staged.
    pub fn clear(&mut self)
        ensures
            final(self).wf(),
            final(self).contents() == Map::<Seq<u8>, AccountV>::empty(),
            final(self).spec_metadata() is None,
    {
        self.store.clear();
        self.metadata = None;
    }
}

impl AccountStore {
    /// Save every account of this store into the durable image: after the
    /// save, the image holds this store's accounts under their keys and
    /// slots, and keeps any other keys it already held.
    pub fn save_to_disk(&self, store: &mut PersistentStore) -> (count: usize)
        requires
            self.wf(),
            old(store).wf(),
        ensures
            final(store).wf(),
            count == self.spec_len(),
            final(store).spec_metadata() == old(store).spec_metadata(),
            forall|k: Seq<u8>| #![trigger self.contents().dom().contains(k)]
                self.contents().dom().contains(k) ==> {
                    &&& final(store).contents().dom().contains(k)
                    &&& final(store).contents()[k] == self.contents()[k]
                    &&& final(store).slot_tags()[k] == self.slots()[k]
                },
            forall|k: Seq<u8>| #![trigger final(store).contents().dom().contains(k)]
                !self.contents().dom().contains(k) ==> {
                    &&& final(store).contents().dom().contains(k) == old(
                        store,
                    ).contents().dom().contains(k)
                    &&& (old(store).contents().dom().contains(k) ==> final(store).contents()[k]
                        == old(store).contents()[k])
                },
    {
        let keys = self.get_all_pubkeys();
        let n = keys.len();
        let mut i: usize = 0;
        while i < n
            invariant
                self.wf(),
                store.wf(),
                n == keys@.len(),
                keys@.map_values(|k: [u8; 32]| k@) == self.keys_in_order(),
                i <= n,
                store.spec_metadata() == old(store).spec_metadata(),
                forall|w: int|
                    0 <= w < i ==> {
                        &&& store.contents().dom().contains(#[trigger] keys@[w]@)
                        &&& store.contents()[keys@[w]@] == self.contents()[keys@[w]@]
                        &&& store.slot_tags()[keys@[w]@] == self.slots()[keys@[w]@]
                    },
                forall|k: Seq<u8>|
                    !self.contents().dom().contains(k) ==> {
                        &&& store.contents().dom().contains(k) == old(
                            store,
                        ).contents().dom().contains(k)
                        &&& (old(store).contents().dom().contains(k) ==> store.contents()[k]
                            == old(store).contents()[k])
                    },
            decreases n - i,
        {
            let k = keys[i];
            proof {
                assert(keys@.map_values(|k2: [u8; 32]| k2@)[i as int] == k@);
                self.lemma_key_at(i as int);
            }
            match self.get_account_with_slot(&k) {
                Some((account, slot)) => {
                    store.store_account(&k, &account, slot);
                },
                None => {},
            }
            i = i + 1;
        }
        proof {
            assert forall|k: Seq<u8>| #![trigger self.contents().dom().contains(k)]
                self.contents().dom().contains(k) implies {
                &&& store.contents().dom().contains(k)
                &&& store.contents()[k] == self.contents()[k]
                &&& store.slot_tags()[k] == self.slots()[k]
            } by {
                self.lemma_dom_in_keys(k);
                let w = choose|w: int|
                    0 <= w < self.keys_in_order().len() && self.keys_in_order()[w] == k;
                assert(keys@.map_values(|k2: [u8; 32]| k2@)[w] == keys@[w]@);
                assert(keys@[w]@ == k);
                assert(store.contents().dom().contains(keys@[w]@));
                assert(store.contents()[keys@[w]@] == self.contents()[keys@[w]@]);
                assert(store.slot_tags()[keys@[w]@] == self.slots()[keys@[w]@]);
            }
        }
        keys.len()
    }

    /// Load every account of the durable image into this store: after the
    /// load, this store holds the image's accounts under their keys and
    /// slots, and keeps any other keys it already held.
    pub fn load_from_disk(&mut self, store: &PersistentStore) -> (count: usize)
        requires
            old(self).wf(),
            store.wf(),
        ensures
            final(self).wf(),
            count == store.spec_len(),
            forall|k: Seq<u8>| #![trigger store.contents().dom().contains(k)]
                store.contents().dom().contains(k) ==> {
                    &&& final(self).contents().dom().contains(k)
                    &&& final(self).contents()[k] == store.contents()[k]
                    &&& final(self).slots()[k] == store.slot_tags()[k]
                },
            forall|k: Seq<u8>| #![trigger final(self).contents().dom().contains(k)]
                !store.contents().dom().contains(k) ==> {
                    &&& final(self).contents().dom().contains(k) == old(
                        self,
                    ).contents().dom().contains(k)
                    &&& (old(self).contents().dom().contains(k) ==> final(self).contents()[k]
                        == old(self).contents()[k])
                },
    {
        let accounts = store.get_all_accounts();
        let count = store.account_count();
        let n = accounts.len();
        let mut i: usize = 0;
        while i < n
            invariant
                self.wf(),
                store.wf(),
                n == accounts@.len(),
                i <= n,
                forall|j: int|
                    0 <= j < n ==> {
                        &&& store.contents().dom().contains((#[trigger] accounts@[j]).0@)
                        &&& accounts@[j].1@ == store.contents()[accounts@[j].0@]
                        &&& accounts@[j].2 == store.slot_tags()[accounts@[j].0@]
                    },
                forall|w: int|
                    0 <= w < i ==> {
                        &&& self.contents().dom().contains((#[trigger] accounts@[w]).0@)
                        &&& self.contents()[accounts@[w].0@] == store.contents()[accounts@[w].0@]
                        &&& self.slots()[accounts@[w].0@] == store.slot_tags()[accounts@[w].0@]
                    },
                forall|k: Seq<u8>|
                    !store.contents().dom().contains(k) ==> {
                        &&& self.contents().dom().contains(k) == old(
                            self,
                        ).contents().dom().contains(k)
                        &&& (old(self).contents().dom().contains(k) ==> self.contents()[k] == old(
                            self,
                        ).contents()[k])
                    },
            decreases n - i,
        {
            let k = accounts[i].0;
            let a = accounts[i].1.clone();
            let slot = accounts[i].2;
            self.store_account(k, a, slot);
            i = i + 1;
        }
        proof {
            assert forall|k: Seq<u8>| store.contents().dom().contains(k) implies {
                &&& self.contents().dom().contains(k)
                &&& self.contents()[k] == store.contents()[k]
                &&& self.slots()[k] == store.slot_tags()[k]
            } by {
                let j = choose|j: int|
                    0 <= j < accounts@.len() && (#[trigger] accounts@[j]).0@ == k;
            }
        }
        count
    }
}

/// Startup (crash recovery): the metadata record is the root of trust. With
/// a committed record, the store is rebuilt from the image and execution
/// resumes at the recorded slot; without one, execution starts fresh at
/// slot zero.
pub fn startup(disk: &PersistentStore) -> (r: (AccountStore, ChainMetadata))
    requires
        disk.wf(),
    ensures
        r.0.wf(),
        match disk.spec_metadata() {
            Some(m) => {
                &&& r.1@ == m
                &&& forall|k: Seq<u8>| #![trigger disk.contents().dom().contains(k)]
                    disk.contents().dom().contains(k) ==> {
                        &&& r.0.contents().dom().contains(k)
                        &&& r.0.contents()[k] == disk.contents()[k]
                        &&& r.0.slots()[k] == disk.slot_tags()[k]
                    }
                &&& forall|k: Seq<u8>| #![trigger r.0.contents().dom().contains(k)]
                    !disk.contents().dom().contains(k) ==> !r.0.contents().dom().contains(k)
            },
            None => {
                &&& r.1@.slot == 0
                &&& r.0.contents() == Map::<Seq<u8>, AccountV>::empty()
            },
        },
{
    let mut store = AccountStore::new();
    match disk.load_metadata() {
        Some(metadata) => {
            let _ = store.load_from_disk(disk);
            (store, metadata)
        },
        None => (store, ChainMetadata::default()),
    }
}

} // verus!
