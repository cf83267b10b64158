//! World-program state, physics and instruction handlers.

use l2_core::world::error::WorldError;
use l2_core::world::instruction::WorldInstruction;
use l2_core::world::processor::{
    process_attack, process_heal, process_initialize_world, process_join_world,
    process_move_player, process_move_player_3d, process_set_pvp_zone, process_update_world,
    InstrAccount,
};
use l2_core::world::state::{
    accelerate_toward, apply_friction, decode_world_config, decode_world_player,
    direction_to_vector, encode_world_config, encode_world_player, MovementInput, MovementInput3D,
    WorldConfig, WorldPlayer, WORLD_CONFIG_LEN, WORLD_PLAYER_LEN,
};

fn sample_world() -> WorldConfig {
    WorldConfig {
        name: [1u8; 32],
        authority: [2u8; 32],
        width: 100,
        depth: 100,
        max_players: 10,
        player_count: 0,
        tick_rate: 30,
        bump: 7,
        l1_game: [0u8; 32],
        init_ts: 12345,
    }
}

fn sample_player() -> WorldPlayer {
    WorldPlayer {
        authority: [3u8; 32],
        world: [4u8; 32],
        position_x: 50_000,
        position_z: 50_000,
        position_y: 0,
        velocity_x: 0,
        velocity_z: 0,
        velocity_y: 0,
        yaw: 0,
        health: 100,
        max_health: 100,
        last_action_slot: 1,
        last_combat_ts: 0,
        in_pvp_zone: false,
        is_grounded: true,
        bump: 9,
        name: [5u8; 16],
    }
}

fn world_account(w: &WorldConfig, key: [u8; 32]) -> InstrAccount {
    InstrAccount { key, is_signer: false, lamports: 1, owner: [0u8; 32], data: encode_world_config(w) }
}

fn player_account(p: &WorldPlayer, key: [u8; 32]) -> InstrAccount {
    InstrAccount { key, is_signer: false, lamports: 1, owner: [0u8; 32], data: encode_world_player(p) }
}

#[test]
fn test_direction_to_vector_covers_all_directions() {
    assert_eq!(direction_to_vector(0), (0, -1));
    assert_eq!(direction_to_vector(1), (1, -1));
    assert_eq!(direction_to_vector(2), (1, 0));
    assert_eq!(direction_to_vector(3), (1, 1));
    assert_eq!(direction_to_vector(4), (0, 1));
    assert_eq!(direction_to_vector(5), (-1, 1));
    assert_eq!(direction_to_vector(6), (-1, 0));
    assert_eq!(direction_to_vector(7), (-1, -1));
    assert_eq!(direction_to_vector(255), (0, 0));
}

#[test]
fn test_accelerate_and_friction_step_exactly() {
    assert_eq!(accelerate_toward(0, 250, 100), 100);
    assert_eq!(accelerate_toward(200, 250, 100), 250);
    assert_eq!(accelerate_toward(250, 0, 100), 150);
    assert_eq!(accelerate_toward(-50, -250, 100), -150);
    assert_eq!(apply_friction(120, 50), 70);
    assert_eq!(apply_friction(30, 50), 0);
    assert_eq!(apply_friction(-120, 50), -70);
    assert_eq!(apply_friction(0, 50), 0);
}

#[test]
fn test_world_codec_round_trip() {
    let w = sample_world();
    let bytes = encode_world_config(&w);
    assert_eq!(bytes.len(), WORLD_CONFIG_LEN);
    let back = decode_world_config(bytes.as_slice()).unwrap();
    assert_eq!(back.name, w.name);
    assert_eq!(back.width, 100);
    assert_eq!(back.depth, 100);
    assert_eq!(back.max_players, 10);
    assert_eq!(back.bump, 7);
    assert_eq!(back.init_ts, 12345);

    let p = sample_player();
    let bytes = encode_world_player(&p);
    assert_eq!(bytes.len(), WORLD_PLAYER_LEN);
    let back = decode_world_player(bytes.as_slice()).unwrap();
    assert_eq!(back.position_x, 50_000);
    assert_eq!(back.health, 100);
    assert_eq!(back.is_grounded, true);
    assert_eq!(back.name, p.name);
}

#[test]
fn test_initialize_world_writes_the_config() {
    let mut world_acc = InstrAccount {
        key: [8u8; 32],
        is_signer: false,
        lamports: 1,
        owner: [0u8; 32],
        data: vec![0u8; WORLD_CONFIG_LEN],
    };
    let r = process_initialize_world(
        &mut world_acc,
        true,
        &[2u8; 32],
        &[8u8; 32],
        7,
        [1u8; 32],
        64,
        48,
        12,
        999,
    );
    assert!(r.is_ok());
    let w = decode_world_config(world_acc.data.as_slice()).unwrap();
    assert_eq!(w.width, 64);
    assert_eq!(w.depth, 48);
    assert_eq!(w.max_players, 12);
    assert_eq!(w.player_count, 0);
    assert_eq!(w.tick_rate, 30);
    assert_eq!(w.authority, [2u8; 32]);
    assert_eq!(w.init_ts, 999);
}

#[test]
fn test_initialize_world_requires_signer_and_pda() {
    let mut world_acc = InstrAccount {
        key: [8u8; 32],
        is_signer: false,
        lamports: 1,
        owner: [0u8; 32],
        data: vec![0u8; WORLD_CONFIG_LEN],
    };
    let r = process_initialize_world(
        &mut world_acc, false, &[2u8; 32], &[8u8; 32], 7, [1u8; 32], 64, 48, 12, 0,
    );
    assert_eq!(r, Err(WorldError::MissingRequiredSignature));

    let r = process_initialize_world(
        &mut world_acc, true, &[2u8; 32], &[9u8; 32], 7, [1u8; 32], 64, 48, 12, 0,
    );
    assert_eq!(r, Err(WorldError::InvalidWorld));

    world_acc.data = vec![0u8; 4];
    let r = process_initialize_world(
        &mut world_acc, true, &[2u8; 32], &[8u8; 32], 7, [1u8; 32], 64, 48, 12, 0,
    );
    assert_eq!(r, Err(WorldError::AccountDataTooSmall));
}

#[test]
fn test_join_world_creates_player_and_counts() {
    let w = sample_world();
    let mut world_acc = world_account(&w, [8u8; 32]);
    let mut player_acc = InstrAccount {
        key: [9u8; 32],
        is_signer: false,
        lamports: 1,
        owner: [0u8; 32],
        data: vec![0u8; WORLD_PLAYER_LEN],
    };
    let r = process_join_world(
        &mut world_acc,
        &mut player_acc,
        true,
        &[3u8; 32],
        &[9u8; 32],
        4,
        [6u8; 16],
        11,
    );
    assert!(r.is_ok());
    let p = decode_world_player(player_acc.data.as_slice()).unwrap();
    assert_eq!(p.authority, [3u8; 32]);
    assert_eq!(p.world, [8u8; 32]);
    assert_eq!(p.position_x, 50 * 1000);
    assert_eq!(p.position_z, 50 * 1000);
    assert_eq!(p.health, 100);
    assert_eq!(p.last_action_slot, 11);
    let w2 = decode_world_config(world_acc.data.as_slice()).unwrap();
    assert_eq!(w2.player_count, 1);
}

#[test]
fn test_join_world_refuses_a_full_world() {
    let mut w = sample_world();
    w.player_count = w.max_players;
    let mut world_acc = world_account(&w, [8u8; 32]);
    let mut player_acc = InstrAccount {
        key: [9u8; 32],
        is_signer: false,
        lamports: 1,
        owner: [0u8; 32],
        data: vec![0u8; WORLD_PLAYER_LEN],
    };
    let r = process_join_world(
        &mut world_acc,
        &mut player_acc,
        true,
        &[3u8; 32],
        &[9u8; 32],
        4,
        [6u8; 16],
        11,
    );
    assert_eq!(r, Err(WorldError::WorldFull));
}

#[test]
fn test_move_player_walks_and_clamps() {
    let w = sample_world();
    let world_acc = world_account(&w, [4u8; 32]);
    let mut player_acc = player_account(&sample_player(), [9u8; 32]);
    let input = MovementInput { direction: 2, sprint: false };
    let r = process_move_player(&world_acc, &mut player_acc, true, &[3u8; 32], input, 20);
    assert!(r.is_ok());
    let p = decode_world_player(player_acc.data.as_slice()).unwrap();
    assert_eq!(p.velocity_x, 250);
    assert_eq!(p.velocity_z, 0);
    assert_eq!(p.position_x, 50_250);
    assert_eq!(p.last_action_slot, 20);
}

#[test]
fn test_move_player_refuses_wrong_authority_and_dead_players() {
    let w = sample_world();
    let world_acc = world_account(&w, [4u8; 32]);
    let mut player_acc = player_account(&sample_player(), [9u8; 32]);
    let input = MovementInput { direction: 2, sprint: false };

    let r = process_move_player(&world_acc, &mut player_acc, true, &[99u8; 32], input, 20);
    assert_eq!(r, Err(WorldError::InvalidAuthority));

    let mut dead = sample_player();
    dead.health = 0;
    let mut dead_acc = player_account(&dead, [9u8; 32]);
    let r = process_move_player(&world_acc, &mut dead_acc, true, &[3u8; 32], input, 20);
    assert_eq!(r, Err(WorldError::PlayerDead));

    let mut elsewhere = sample_player();
    elsewhere.world = [77u8; 32];
    let mut elsewhere_acc = player_account(&elsewhere, [9u8; 32]);
    let r = process_move_player(&world_acc, &mut elsewhere_acc, true, &[3u8; 32], input, 20);
    assert_eq!(r, Err(WorldError::InvalidWorld));
}

#[test]
fn test_move_player_3d_jumps_and_falls() {
    let w = sample_world();
    let world_acc = world_account(&w, [4u8; 32]);
    let mut player_acc = player_account(&sample_player(), [9u8; 32]);
    let input = MovementInput3D { move_x: 0, move_z: 0, camera_yaw: 100, sprint: false, jump: true };
    let r = process_move_player_3d(&world_acc, &mut player_acc, true, &[3u8; 32], input, 0, 0, 21);
    assert!(r.is_ok());
    let p = decode_world_player(player_acc.data.as_slice()).unwrap();
    // a jump leaves the ground at the jump velocity less one tick of gravity
    assert_eq!(p.velocity_y, 370);
    assert_eq!(p.position_y, 370);
    assert!(!p.is_grounded);
    assert_eq!(p.yaw, 100);
    assert_eq!(p.last_action_slot, 21);
}

#[test]
fn test_attack_deals_weapon_or_default_damage() {
    let mut attacker_acc = player_account(&sample_player(), [0xA0u8; 32]);
    let mut target = sample_player();
    target.authority = [0xB0u8; 32];
    let mut target_acc = player_account(&target, [0xB1u8; 32]);

    let r = process_attack(
        &mut attacker_acc,
        &mut target_acc,
        true,
        &[3u8; 32],
        None,
        30,
        1000,
    );
    assert!(r.is_ok());
    let t = decode_world_player(target_acc.data.as_slice()).unwrap();
    assert_eq!(t.health, 90);
    let a = decode_world_player(attacker_acc.data.as_slice()).unwrap();
    assert_eq!(a.last_combat_ts, 1000);
    assert_eq!(a.last_action_slot, 30);

    let stats = l2_core::world::state::WeaponStats { damage: 95, range: 1, attack_speed: 1 };
    let r = process_attack(
        &mut attacker_acc,
        &mut target_acc,
        true,
        &[3u8; 32],
        Some(stats),
        31,
        1001,
    );
    assert!(r.is_ok());
    let t = decode_world_player(target_acc.data.as_slice()).unwrap();
    // damage stops at zero
    assert_eq!(t.health, 0);
}

#[test]
fn test_attack_refuses_self() {
    let mut attacker_acc = player_account(&sample_player(), [0xA0u8; 32]);
    let mut clone_acc = player_account(&sample_player(), [0xA0u8; 32]);
    let r = process_attack(&mut attacker_acc, &mut clone_acc, true, &[3u8; 32], None, 1, 1);
    assert_eq!(r, Err(WorldError::CannotAttackSelf));
}

#[test]
fn test_heal_caps_at_max_health() {
    let mut hurt = sample_player();
    hurt.health = 50;
    let mut player_acc = player_account(&hurt, [9u8; 32]);
    let r = process_heal(&mut player_acc, true, &[3u8; 32], 0, 40);
    assert!(r.is_ok());
    let p = decode_world_player(player_acc.data.as_slice()).unwrap();
    // a zero amount heals by the default
    assert_eq!(p.health, 70);

    let r = process_heal(&mut player_acc, true, &[3u8; 32], 999, 41);
    assert!(r.is_ok());
    let p = decode_world_player(player_acc.data.as_slice()).unwrap();
    assert_eq!(p.health, 100);
}

#[test]
fn test_update_world_and_set_pvp_zone() {
    let w = sample_world();
    let mut world_acc = world_account(&w, [4u8; 32]);
    let r = process_update_world(&mut world_acc, true, &[2u8; 32], Some(55));
    assert!(r.is_ok());
    assert_eq!(decode_world_config(world_acc.data.as_slice()).unwrap().max_players, 55);

    let r = process_update_world(&mut world_acc, true, &[99u8; 32], Some(1));
    assert_eq!(r, Err(WorldError::InvalidAuthority));

    let mut player_acc = player_account(&sample_player(), [9u8; 32]);
    let r = process_set_pvp_zone(&mut player_acc, true, &[3u8; 32], true);
    assert!(r.is_ok());
    assert!(decode_world_player(player_acc.data.as_slice()).unwrap().in_pvp_zone);
}

#[test]
fn test_leave_world_decrements_the_count() {
    let mut w = sample_world();
    w.player_count = 2;
    let mut world_acc = world_account(&w, [4u8; 32]);
    let player_acc = player_account(&sample_player(), [9u8; 32]);
    let r = l2_core::world::processor::process_leave_world(
        &mut world_acc,
        &player_acc,
        true,
        &[3u8; 32],
    );
    assert!(r.is_ok());
    assert_eq!(decode_world_config(world_acc.data.as_slice()).unwrap().player_count, 1);
}

#[test]
fn test_world_error_codes_are_distinct() {
    let errors = [
        WorldError::WorldFull,
        WorldError::PlayerNotFound,
        WorldError::PlayerAlreadyExists,
        WorldError::InvalidDirection,
        WorldError::PlayerDead,
        WorldError::CannotAttackSelf,
        WorldError::TargetOutOfRange,
        WorldError::InvalidAuthority,
        WorldError::InvalidWorld,
        WorldError::InvalidAccountOwner,
        WorldError::AccountNotInitialized,
        WorldError::AccountAlreadyInitialized,
        WorldError::ArithmeticOverflow,
        WorldError::InvalidInstructionData,
    ];
    for (i, a) in errors.iter().enumerate() {
        for (j, b) in errors.iter().enumerate() {
            if i != j {
                assert_ne!(a.code(), b.code());
            }
        }
    }
    assert_eq!(WorldError::WorldFull.code(), 0);
    assert_eq!(WorldError::InvalidAuthority.code(), 7);
}

#[test]
fn test_instruction_codec_round_trips_every_variant() {
    let instructions = vec![
        WorldInstruction::InitializeWorld {
            name: [1u8; 32],
            width: 64,
            height: 48,
            max_players: 12,
        },
        WorldInstruction::JoinWorld { name: [2u8; 16] },
        WorldInstruction::MovePlayer { input: MovementInput { direction: 3, sprint: true } },
        WorldInstruction::Attack { weapon_stats: None },
        WorldInstruction::Attack {
            weapon_stats: Some(l2_core::world::state::WeaponStats {
                damage: 9,
                range: 8,
                attack_speed: 7,
            }),
        },
        WorldInstruction::Heal { amount: 33 },
        WorldInstruction::LeaveWorld,
        WorldInstruction::UpdateWorld { max_players: None },
        WorldInstruction::UpdateWorld { max_players: Some(80) },
        WorldInstruction::SetPvpZone { in_pvp_zone: true },
        WorldInstruction::MovePlayer3D {
            input: MovementInput3D {
                move_x: -5,
                move_z: 127,
                camera_yaw: -300,
                sprint: true,
                jump: false,
            },
        },
    ];
    for instruction in instructions {
        let bytes = instruction.to_bytes();
        let back = WorldInstruction::from_bytes(bytes.as_slice()).unwrap();
        assert_eq!(bytes, back.to_bytes());
    }
}

#[test]
fn test_instruction_codec_rejects_junk() {
    assert!(WorldInstruction::from_bytes(&[]).is_none());
    assert!(WorldInstruction::from_bytes(&[9]).is_none());
    // a movement frame with a flag byte that is neither 0 nor 1
    assert!(WorldInstruction::from_bytes(&[2, 1, 7]).is_none());
    // trailing bytes after a complete instruction
    let mut bytes = WorldInstruction::LeaveWorld.to_bytes();
    bytes.push(0);
    assert!(WorldInstruction::from_bytes(bytes.as_slice()).is_none());
}

#[test]
fn test_unparseable_accounts_are_refused() {
    // a world or player account whose bytes do not parse is refused as
    // uninitialized
    let garbage = InstrAccount {
        key: [1u8; 32],
        is_signer: false,
        lamports: 1,
        owner: [0u8; 32],
        data: vec![1, 2, 3],
    };
    let mut world_acc = garbage;
    let mut player_acc = InstrAccount {
        key: [9u8; 32],
        is_signer: false,
        lamports: 1,
        owner: [0u8; 32],
        data: vec![0u8; WORLD_PLAYER_LEN],
    };
    let r = process_join_world(
        &mut world_acc,
        &mut player_acc,
        true,
        &[3u8; 32],
        &[9u8; 32],
        4,
        [6u8; 16],
        11,
    );
    assert_eq!(r, Err(WorldError::AccountNotInitialized));

    let w = sample_world();
    let world_acc = world_account(&w, [4u8; 32]);
    let mut bad_player = InstrAccount {
        key: [9u8; 32],
        is_signer: false,
        lamports: 1,
        owner: [0u8; 32],
        data: vec![7, 7],
    };
    let input = MovementInput { direction: 2, sprint: false };
    let r = process_move_player(&world_acc, &mut bad_player, true, &[3u8; 32], input, 20);
    assert_eq!(r, Err(WorldError::AccountNotInitialized));
}
