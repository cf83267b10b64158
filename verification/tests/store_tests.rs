//! Account store, callback and persistence behavior.

use l2_core::account::{Account, AccountStore};
use l2_core::callback::{default_account_for_missing, L2AccountLoader};
use l2_core::ids::{system_program_id, world_program_id};
use l2_core::persistence::{startup, ChainMetadata, PersistentStore};
use l2_core::world::state::WORLD_PLAYER_LEN;

fn account(lamports: u64, data: Vec<u8>, owner: [u8; 32]) -> Account {
    Account { lamports, data, owner, executable: false, rent_epoch: 0 }
}

#[test]
fn test_store_and_get() {
    let mut store = AccountStore::new();
    let pubkey = [7u8; 32];
    let a = account(1000, vec![1, 2, 3], [9u8; 32]);
    store.store_account(pubkey, a, 1);

    let retrieved = store.get_account(&pubkey).unwrap();
    assert_eq!(retrieved.lamports, 1000);
    assert_eq!(retrieved.data, vec![1, 2, 3]);
}

#[test]
fn test_get_with_slot() {
    let mut store = AccountStore::new();
    let pubkey = [5u8; 32];
    store.store_account(pubkey, account(0, vec![], [0u8; 32]), 42);

    let (_, slot) = store.get_account_with_slot(&pubkey).unwrap();
    assert_eq!(slot, 42);
}

#[test]
fn test_store_overwrite_and_remove() {
    let mut store = AccountStore::new();
    let k = [1u8; 32];
    store.store_account(k, account(10, vec![1], [2u8; 32]), 1);
    store.store_account(k, account(20, vec![2, 3], [2u8; 32]), 2);
    assert_eq!(store.len(), 1);
    let (a, slot) = store.get_account_with_slot(&k).unwrap();
    assert_eq!(a.lamports, 20);
    assert_eq!(a.data, vec![2, 3]);
    assert_eq!(slot, 2);

    let removed = store.remove_account(&k).unwrap();
    assert_eq!(removed.lamports, 20);
    assert!(store.get_account(&k).is_none());
    assert!(store.is_empty());
}

#[test]
fn test_get_program_accounts_filters_by_owner() {
    let mut store = AccountStore::new();
    let owner_a = [3u8; 32];
    let owner_b = [4u8; 32];
    store.store_account([1u8; 32], account(1, vec![], owner_a), 0);
    store.store_account([2u8; 32], account(2, vec![], owner_b), 0);
    store.store_account([5u8; 32], account(3, vec![], owner_a), 0);

    let owned = store.get_program_accounts(&owner_a);
    assert_eq!(owned.len(), 2);
    assert_eq!(owned[0].0, [1u8; 32]);
    assert_eq!(owned[1].0, [5u8; 32]);
}

#[test]
fn test_get_account() {
    let mut store = AccountStore::new();
    let pubkey = [11u8; 32];
    store.store_account(pubkey, account(500, vec![], system_program_id()), 0);
    let loader = L2AccountLoader::new(store);

    let retrieved = loader.get_account_shared_data(&pubkey, false).unwrap();
    assert_eq!(retrieved.lamports, 500);
}

#[test]
fn test_account_matches_owners() {
    let mut store = AccountStore::new();
    let owner1 = [21u8; 32];
    let owner2 = [22u8; 32];
    let owner3 = [23u8; 32];

    let pubkey = [24u8; 32];
    store.store_account(pubkey, account(100, vec![], owner2), 0);
    let loader = L2AccountLoader::new(store);

    let owners = vec![owner1, owner2, owner3];
    assert_eq!(loader.account_matches_owners(&pubkey, false, &owners), Some(1));

    let other_owners = vec![owner1, owner3];
    assert_eq!(loader.account_matches_owners(&pubkey, false, &other_owners), None);
}

#[test]
fn test_missing_wallet_returns_default_with_zero_data() {
    let store = AccountStore::new();
    let loader = L2AccountLoader::new(store);

    // a plain (non-derived) key synthesizes the wallet default
    let pubkey = [31u8; 32];
    let account = loader.get_account_shared_data(&pubkey, false);
    assert!(account.is_some());
    let account = account.unwrap();
    assert_eq!(account.lamports, 1_000_000_000);
    assert_eq!(account.data.len(), 0);
    assert_eq!(account.owner, system_program_id());
}

#[test]
fn test_missing_pda_returns_default_with_data_space() {
    let store = AccountStore::new();
    let loader = L2AccountLoader::new(store);

    // a derived key synthesizes the program-sized default
    let pda = [32u8; 32];
    let account = loader.get_account_shared_data(&pda, true);
    assert!(account.is_some());
    let account = account.unwrap();
    assert_eq!(account.lamports, 1_000_000_000);
    assert_eq!(account.data.len(), WORLD_PLAYER_LEN);
    assert_eq!(account.owner, world_program_id());
}

#[test]
fn test_missing_account_owner_rule() {
    // the synthesized owner is the hosting program exactly when the key is
    // derived, else the system owner with no data
    let derived = default_account_for_missing(true);
    assert_eq!(derived.owner, world_program_id());
    assert_eq!(derived.data.len(), WORLD_PLAYER_LEN);
    let plain = default_account_for_missing(false);
    assert_eq!(plain.owner, system_program_id());
    assert_eq!(plain.data.len(), 0);
}

#[test]
fn test_store_and_load_account() {
    let mut disk = PersistentStore::new();

    let pubkey = [41u8; 32];
    let a = account(1000, vec![1, 2, 3, 4], [42u8; 32]);
    disk.store_account(&pubkey, &a, 42);

    let (loaded, slot) = disk.get_account_with_slot(&pubkey).unwrap();
    assert_eq!(loaded.lamports, 1000);
    assert_eq!(loaded.data, vec![1, 2, 3, 4]);
    assert_eq!(slot, 42);
}

#[test]
fn test_metadata() {
    let mut disk = PersistentStore::new();

    let metadata = ChainMetadata {
        slot: 1000,
        blockhash: [42u8; 32],
        epoch: 5,
        account_count: 100,
        last_save_ts: 12345,
    };
    disk.save_metadata(&metadata);

    let loaded = disk.load_metadata().unwrap();
    assert_eq!(loaded.slot, 1000);
    assert_eq!(loaded.epoch, 5);
}

#[test]
fn test_snapshot_round_trip_is_byte_exact() {
    // save then load: every account comes back byte for byte, with its slot
    let mut store = AccountStore::new();
    store.store_account([1u8; 32], account(7, vec![0xAA, 0xBB], [2u8; 32]), 3);
    let mut executable = account(1, vec![9, 9, 9], [4u8; 32]);
    executable.executable = true;
    executable.rent_epoch = 8;
    store.store_account([5u8; 32], executable, 9);

    let mut disk = PersistentStore::new();
    let saved = store.save_to_disk(&mut disk);
    assert_eq!(saved, 2);

    let mut reloaded = AccountStore::new();
    let loaded = reloaded.load_from_disk(&disk);
    assert_eq!(loaded, 2);

    for key in [[1u8; 32], [5u8; 32]] {
        let (original, oslot) = store.get_account_with_slot(&key).unwrap();
        let (copy, cslot) = reloaded.get_account_with_slot(&key).unwrap();
        assert_eq!(original.lamports, copy.lamports);
        assert_eq!(original.data, copy.data);
        assert_eq!(original.owner, copy.owner);
        assert_eq!(original.executable, copy.executable);
        assert_eq!(original.rent_epoch, copy.rent_epoch);
        assert_eq!(oslot, cslot);
    }
}

#[test]
fn test_account_codec_round_trip() {
    let mut a = account(123456789, vec![5, 6, 7, 8, 9], [77u8; 32]);
    a.executable = true;
    a.rent_epoch = 11;
    let bytes = l2_core::persistence::encode_account(&a);
    let back = l2_core::persistence::decode_account(bytes.as_slice()).unwrap();
    assert_eq!(back.lamports, a.lamports);
    assert_eq!(back.data, a.data);
    assert_eq!(back.owner, a.owner);
    assert_eq!(back.executable, a.executable);
    assert_eq!(back.rent_epoch, a.rent_epoch);

    // trailing bytes are refused
    let mut longer = bytes.clone();
    longer.push(0);
    assert!(l2_core::persistence::decode_account(longer.as_slice()).is_none());
}

#[test]
fn test_metadata_codec_round_trip() {
    let m = ChainMetadata {
        slot: 300,
        blockhash: [9u8; 32],
        epoch: 2,
        account_count: 4,
        last_save_ts: -5,
    };
    let bytes = l2_core::persistence::encode_metadata(&m);
    let back = l2_core::persistence::decode_metadata(bytes.as_slice()).unwrap();
    assert_eq!(back.slot, 300);
    assert_eq!(back.blockhash, [9u8; 32]);
    assert_eq!(back.epoch, 2);
    assert_eq!(back.account_count, 4);
    assert_eq!(back.last_save_ts, -5);
}

#[test]
fn test_crash_recovery_restores_snapshot_slot() {
    // snapshot at slot 300, write more without committing, restart: the
    // store recovers exactly the slot-300 state
    let mut store = AccountStore::new();
    store.store_account([1u8; 32], account(10, vec![1], [2u8; 32]), 250);
    store.store_account([2u8; 32], account(20, vec![2], [2u8; 32]), 300);

    let mut disk = PersistentStore::new();
    store.save_to_disk(&mut disk);
    disk.save_metadata(&ChainMetadata {
        slot: 300,
        blockhash: [1u8; 32],
        epoch: 0,
        account_count: 2,
        last_save_ts: 0,
    });

    // post-snapshot writes that never reach the durable store
    store.store_account([3u8; 32], account(30, vec![3], [2u8; 32]), 350);
    store.store_account([1u8; 32], account(99, vec![9], [2u8; 32]), 360);

    let (recovered, metadata) = startup(&disk);
    assert_eq!(metadata.slot, 300);
    assert_eq!(recovered.len(), 2);
    assert_eq!(recovered.get_account(&[1u8; 32]).unwrap().lamports, 10);
    assert_eq!(recovered.get_account(&[2u8; 32]).unwrap().lamports, 20);
    assert!(recovered.get_account(&[3u8; 32]).is_none());
}

#[test]
fn test_startup_without_metadata_starts_fresh() {
    let disk = PersistentStore::new();
    let (store, metadata) = startup(&disk);
    assert_eq!(metadata.slot, 0);
    assert_eq!(store.len(), 0);
}
