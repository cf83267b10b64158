//! Queue backpressure, processor commits, the producer tick, the game
//! handler, subscriptions, and the query handlers.

use l2_core::account::{Account, AccountStore};
use l2_core::block_producer::{BlockProducer, BlockProducerConfig, ADMISSION_QUEUE_CAPACITY};
use l2_core::game::{GameError, GameHandler};
use l2_core::ids::world_program_id;
use l2_core::processor::{BlockRelation, ExecutionOutcome, L2ForkGraph, L2Processor, TxError};
use l2_core::queue::{AdmissionQueue, SubmitError, Transaction};
use l2_core::rpc::{
    error_code, handle_get_account_info, handle_get_health, handle_get_latest_blockhash,
    DataEncoding, RpcError, RpcServer, RpcServerConfig,
};
use base64::Engine;
use l2_core::subscriptions::SubscriptionManager;
use l2_core::secp::{check_id, id, sign_message, verify, Secp256r1Error};
use l2_core::world::state::{decode_world_player, MovementInput3D};

fn tx(tag: u8, declared: Vec<[u8; 32]>) -> Transaction {
    Transaction { signature: [tag; 64], payload: vec![tag], declared_keys: declared }
}

fn account(lamports: u64, data: Vec<u8>) -> Account {
    Account { lamports, data, owner: [1u8; 32], executable: false, rent_epoch: 0 }
}

#[test]
fn test_backpressure_fails_fast_then_recovers() {
    // fill the queue to capacity; the next submission answers full; one
    // tick's drain makes room again
    let mut producer = BlockProducer::new(
        L2Processor::new(AccountStore::new()),
        BlockProducerConfig::default(),
    );
    for i in 0..ADMISSION_QUEUE_CAPACITY {
        assert_eq!(producer.try_submit(tx((i % 251) as u8, vec![])), Ok(()));
    }
    assert_eq!(producer.try_submit(tx(0, vec![])), Err(SubmitError::Full));

    let drained = producer.drain_for_slot();
    assert_eq!(drained.len(), l2_core::MAX_TXS_PER_BLOCK);
    assert_eq!(producer.try_submit(tx(1, vec![])), Ok(()));
}

#[test]
fn test_queue_drains_in_arrival_order() {
    let mut queue = AdmissionQueue::new(4);
    for i in 0..4u8 {
        assert!(queue.try_submit(tx(i, vec![])).is_ok());
    }
    let first = queue.drain(2);
    assert_eq!(first.len(), 2);
    assert_eq!(first[0].signature, [0u8; 64]);
    assert_eq!(first[1].signature, [1u8; 64]);
    assert_eq!(queue.len(), 2);
    let rest = queue.drain(10);
    assert_eq!(rest.len(), 2);
    assert_eq!(rest[0].signature, [2u8; 64]);
}

#[test]
fn test_closed_queue_refuses_submissions() {
    let mut queue = AdmissionQueue::new(4);
    queue.close();
    assert_eq!(queue.try_submit(tx(0, vec![])), Err(SubmitError::Closed));
}

#[test]
fn test_process_output_commits_only_declared_touches() {
    let mut processor = L2Processor::new(AccountStore::new());
    let good_key = [10u8; 32];
    let stray_key = [11u8; 32];

    let transactions = vec![tx(1, vec![good_key]), tx(2, vec![good_key])];
    let outcomes = vec![
        ExecutionOutcome {
            status: Ok(()),
            logs: vec![],
            touched: vec![(good_key, account(5, vec![1]))],
        },
        // the processor strayed outside the declared set: rejected whole
        ExecutionOutcome {
            status: Ok(()),
            logs: vec![],
            touched: vec![(stray_key, account(6, vec![2]))],
        },
    ];
    let results = processor.process_output(&transactions, outcomes);
    assert_eq!(results.len(), 2);
    assert!(results[0].success);
    assert!(results[0].error.is_none());
    assert!(!results[1].success);
    assert_eq!(results[1].error, Some(TxError::ProcessorError(0)));

    assert_eq!(processor.get_account(&good_key).unwrap().lamports, 5);
    assert!(processor.get_account(&stray_key).is_none());
}

#[test]
fn test_process_output_records_processor_failures() {
    let mut processor = L2Processor::new(AccountStore::new());
    let transactions = vec![tx(1, vec![])];
    let outcomes = vec![ExecutionOutcome { status: Err(4), logs: vec![], touched: vec![] }];
    let results = processor.process_output(&transactions, outcomes);
    assert!(!results[0].success);
    assert_eq!(results[0].error, Some(TxError::ProcessorError(4)));
    assert!(results[0].modified_accounts.is_empty());
}

#[test]
fn test_processor_slot_advancement() {
    let mut processor = L2Processor::new(AccountStore::new());
    assert_eq!(processor.current_slot(), 0);
    let mut last_hash = processor.current_blockhash();
    for i in 1..=100u64 {
        processor.advance_slot();
        assert_eq!(processor.current_slot(), i);
        let h = processor.current_blockhash();
        assert_ne!(h, last_hash, "Blockhash should change each slot");
        last_hash = h;
    }
}

#[test]
fn test_finish_slot_advances_and_reports() {
    let mut producer = BlockProducer::new(
        L2Processor::new(AccountStore::new()),
        BlockProducerConfig::default(),
    );
    producer.try_submit(tx(1, vec![[10u8; 32]])).unwrap();
    let drained = producer.drain_for_slot();
    assert_eq!(drained.len(), 1);
    let outcomes = vec![ExecutionOutcome {
        status: Ok(()),
        logs: vec![],
        touched: vec![([10u8; 32], account(9, vec![7]))],
    }];
    let update = producer.finish_slot(&drained, outcomes, 123);
    assert_eq!(update.slot, 1);
    assert_eq!(update.transaction_count, 1);
    assert_eq!(update.processing_time_us, 123);
    assert_eq!(update.transaction_results.len(), 1);
    assert!(update.transaction_results[0].success);
    assert_eq!(update.modified_accounts.len(), 1);
    assert_eq!(update.modified_accounts[0].0, [10u8; 32]);
}

#[test]
fn test_fork_graph_orders_a_linear_chain() {
    let g = L2ForkGraph::new();
    assert_eq!(g.relationship(3, 3), BlockRelation::Equal);
    assert_eq!(g.relationship(2, 5), BlockRelation::Ancestor);
    assert_eq!(g.relationship(5, 2), BlockRelation::Descendant);
}

#[test]
fn test_game_join_and_move() {
    let mut game = GameHandler::new(AccountStore::new());
    let mut writes = Vec::new();
    let world_pda = [0xA0u8; 32];
    let player_pda = [0xA1u8; 32];
    game.ensure_default_world(&mut writes, world_pda, [0u8; 32], 1, 0, 1);
    assert_eq!(writes.len(), 1);

    let pda = game.join_world(&mut writes, [7u8; 32], [2u8; 16], world_pda, player_pda, 3, 1);
    assert_eq!(pda, player_pda);
    assert_eq!(writes.len(), 2);
    let joined = game.get_player(&player_pda).unwrap();
    assert_eq!(joined.health, 100);
    assert!(joined.is_grounded);
    assert_eq!(joined.last_action_slot, 1);

    let input = MovementInput3D { move_x: 0, move_z: 0, camera_yaw: 0, sprint: false, jump: true };
    let r = game.move_player_3d(&mut writes, input, 0, 0, world_pda, player_pda, 2);
    assert!(r.is_ok());
    assert_eq!(writes.len(), 3);
    let moved = game.get_player(&player_pda).unwrap();
    assert!(!moved.is_grounded);
    assert_eq!(moved.velocity_y, 370);
    assert_eq!(moved.last_action_slot, 2);

    // the broadcast write carries the stored player bytes
    let stored = game.account_store().get_account(&player_pda).unwrap();
    assert_eq!(writes[2].pubkey, player_pda);
    assert_eq!(writes[2].data, stored.data);
    let from_write = decode_world_player(writes[2].data.as_slice()).unwrap();
    assert_eq!(from_write.velocity_y, 370);

    let players = game.get_all_players();
    assert_eq!(players.len(), 1);
    assert_eq!(players[0].0, player_pda);
}

#[test]
fn test_game_move_without_join_is_refused() {
    let mut game = GameHandler::new(AccountStore::new());
    let mut writes = Vec::new();
    let r = game.move_player(&mut writes, 2, false, [1u8; 32], [2u8; 32], 1);
    assert_eq!(r, Err(GameError::PlayerNotFound));
    assert!(writes.is_empty());
}

#[test]
fn test_subscribe_and_notify() {
    let mut manager = SubscriptionManager::new();
    let pubkey = [3u8; 32];

    let sub_id = manager.subscribe_account(pubkey);
    assert_eq!(sub_id, 1);

    let a = account(100, vec![]);
    let notifications = manager.notify_account_update(&pubkey, 1, &a);
    assert_eq!(notifications.len(), 1);
    assert_eq!(notifications[0].subscription_id, sub_id);
    assert_eq!(notifications[0].pubkey, pubkey);
    assert_eq!(notifications[0].slot, 1);

    // a watcher of another key hears nothing
    let other = manager.notify_account_update(&[9u8; 32], 1, &a);
    assert!(other.is_empty());
}

#[test]
fn test_unsubscribe() {
    let mut manager = SubscriptionManager::new();
    let pubkey = [3u8; 32];

    let sub_id = manager.subscribe_account(pubkey);
    assert!(manager.has_subscription(sub_id));

    manager.unsubscribe(sub_id);
    assert!(!manager.has_subscription(sub_id));
}

#[test]
fn test_health_and_error_codes() {
    assert_eq!(handle_get_health(), "ok");
    assert_eq!(error_code(&RpcError::InvalidParams(String::new())), -32602);
    assert_eq!(error_code(&RpcError::MethodNotFound(String::new())), -32601);
    assert_eq!(error_code(&RpcError::InternalError(String::new())), -32603);
}

#[test]
fn test_rpc_server_remembers_its_addresses() {
    let server = RpcServer::new(RpcServerConfig::default());
    assert_eq!(server.http_addr(), "127.0.0.1:8899");
    assert_eq!(server.ws_addr(), "127.0.0.1:8900");
}

#[test]
fn test_get_account_info_renders_encodings() {
    let mut store = AccountStore::new();
    let key = [5u8; 32];
    let owner = [6u8; 32];
    store.store_account(
        key,
        Account { lamports: 77, data: vec![77, 97, 110], owner, executable: true, rent_epoch: 0 },
        4,
    );

    let r = handle_get_account_info(&store, 4, &key, DataEncoding::Base64);
    assert_eq!(r.context.slot, 4);
    let info = r.value.unwrap();
    assert_eq!(info.lamports, 77);
    assert!(info.executable);
    // the rendered data is the real base64 of the bytes, not the bytes
    assert_eq!(info.data.0, "TWFu");
    assert_eq!(info.data.1, "base64");
    assert_eq!(
        info.owner,
        bs58::encode(&owner).into_string(),
    );
    assert_eq!(
        info.data.0,
        base64::engine::general_purpose::STANDARD.encode([77, 97, 110]),
    );

    let r = handle_get_account_info(&store, 4, &key, DataEncoding::Base58);
    let info = r.value.unwrap();
    assert_eq!(info.data.0, bs58::encode(&[77u8, 97, 110]).into_string());
    assert_eq!(info.data.1, "base58");

    let missing = handle_get_account_info(&store, 4, &[9u8; 32], DataEncoding::Base64);
    assert!(missing.value.is_none());
}

#[test]
fn test_get_latest_blockhash_renders_base58() {
    let hash = [1u8; 32];
    let r = handle_get_latest_blockhash(10, &hash);
    assert_eq!(r.context.slot, 10);
    assert_eq!(r.value.last_valid_block_height, 160);
    assert_eq!(r.value.blockhash, bs58::encode(&hash).into_string());
}

#[test]
fn test_l1_stubs_answer_empty() {
    let reader = l2_core::l1::L1Reader::new("http://127.0.0.1:1");
    assert!(!reader.is_in_pvp_zone(&[1u8; 32]));
    assert!(reader.get_weapon_stats(&[1u8; 32]).is_none());
    assert!(reader.get_user_inventory(&[1u8; 32]).is_none());

    let delegator = l2_core::l1::AccountDelegator::new("http://127.0.0.1:1");
    assert!(!delegator.is_delegated(&[1u8; 32]));
    assert!(delegator.fetch_l1_user(&[1u8; 32]).is_none());

    let mut committer = l2_core::l1::StateCommitter::new("http://127.0.0.1:1");
    assert!(!committer.should_commit(50));
    assert!(committer.should_commit(100));
    assert!(committer.commit_state(&[1u8; 32], vec![], 150).is_none());
    assert_eq!(committer.last_commit_slot(), 150);
    assert!(!committer.should_commit(200));
}

#[test]
fn test_secp_stub_refuses_and_knows_its_id() {
    assert_eq!(sign_message(&[1], &[2]), Err(Secp256r1Error::NotSupported));
    assert_eq!(verify(&[0, 0]), Err(Secp256r1Error::NotSupported));
    assert!(check_id(&id()));
    assert!(!check_id(&[0u8; 32]));
    assert_eq!(
        bs58::encode(&id()).into_string(),
        "Secp256r1SigVerify1111111111111111111111111",
    );
}

#[test]
fn test_builtin_ids_render_to_their_names() {
    assert_eq!(
        bs58::encode(&world_program_id()).into_string(),
        "Wor1dProgram1111111111111111111111111111111",
    );
    assert_eq!(
        bs58::encode(&l2_core::ids::native_loader_id()).into_string(),
        "NativeLoader1111111111111111111111111111111",
    );
    assert_eq!(
        bs58::encode(&l2_core::ids::upgradeable_loader_id()).into_string(),
        "BPFLoaderUpgradeab1e11111111111111111111111",
    );
}

#[test]
fn test_validator_config_defaults() {
    let c = l2_core::config::ValidatorConfig::default();
    assert_eq!(c.rpc_addr, "127.0.0.1:8899");
    assert_eq!(c.ws_addr, "127.0.0.1:8900");
    assert_eq!(c.block_time_ms, 33);
    assert!(c.l1_rpc_url.is_none());
}

#[test]
fn test_game_refuses_bad_and_out_of_range_players() {
    let mut store = AccountStore::new();
    let bad_pda = [0xB1u8; 32];
    store.store_account(bad_pda, account(1, vec![1, 2, 3]), 1);

    let far_pda = [0xB2u8; 32];
    let mut far = l2_core::world::state::WorldPlayer {
        authority: [7u8; 32],
        world: [8u8; 32],
        position_x: 5_000_000,
        position_z: 0,
        position_y: 0,
        velocity_x: 0,
        velocity_z: 0,
        velocity_y: 0,
        yaw: 0,
        health: 100,
        max_health: 100,
        last_action_slot: 0,
        last_combat_ts: 0,
        in_pvp_zone: false,
        is_grounded: true,
        bump: 0,
        name: [0u8; 16],
    };
    far.position_x = 5_000_000;
    store.store_account(
        far_pda,
        Account {
            lamports: 1,
            data: l2_core::world::state::encode_world_player(&far),
            owner: world_program_id(),
            executable: false,
            rent_epoch: 0,
        },
        1,
    );

    let mut game = GameHandler::new(store);
    let mut writes = Vec::new();
    let r = game.move_player(&mut writes, 2, false, [1u8; 32], bad_pda, 2);
    assert_eq!(r, Err(GameError::BadPlayerData));
    let r = game.move_player(&mut writes, 2, false, [1u8; 32], far_pda, 2);
    assert_eq!(r, Err(GameError::OutOfRange));
    assert!(writes.is_empty());
}
