//! Instruction handlers of the world program. Each handler reads the state
//! of the accounts handed to it, checks the instruction's conditions in
//! order, and on success writes the updated state back into the account
//! bytes; a refused instruction changes nothing.

use vstd::prelude::*;
use crate::bytes32_eq;
use crate::chain::zero_root;
use crate::world::error::WorldError;
use crate::world::state::{
    dec_world_config, dec_world_player, enc_world_config, enc_world_player, spec_move3d,
    decode_world_config, decode_world_player, encode_world_config, encode_world_player,
    MovementInput, MovementInput3D, WeaponStats, WorldConfig, WorldConfigV, WorldPlayer,
    WorldPlayerV, spec_clamp, spec_direction_to_vector, spec_speed, WORLD_CONFIG_LEN,
    WORLD_PLAYER_LEN,
};
use crate::world::{DEFAULT_DAMAGE, DEFAULT_HEAL, DEFAULT_HEALTH, DEFAULT_MAX_HEALTH,
    FIXED_POINT_SCALE, GROUND_LEVEL, MAX_HEIGHT};

verus! {

/// An account as an instruction sees it.
#[derive(Debug)]
pub struct InstrAccount {
    pub key: [u8; 32],
    pub is_signer: bool,
    pub lamports: u64,
    pub owner: [u8; 32],
    pub data: Vec<u8>,
}

/// Mathematical value of an [`InstrAccount`].
#[verifier::ext_equal]
pub struct InstrAccountV {
    pub key: Seq<u8>,
    pub is_signer: bool,
    pub lamports: u64,
    pub owner: Seq<u8>,
    pub data: Seq<u8>,
}

impl View for InstrAccount {
    type V = InstrAccountV;

    open spec fn view(&self) -> InstrAccountV {
        InstrAccountV {
            key: self.key@,
            is_signer: self.is_signer,
            lamports: self.lamports,
            owner: self.owner@,
            data: self.data@,
        }
    }
}

/// The configuration a fresh world starts with.
pub open spec fn initialized_world(
    name: Seq<u8>,
    authority: Seq<u8>,
    width: u32,
    height: u32,
    max_players: u16,
    bump: u8,
    init_ts: i64,
) -> WorldConfigV {
    WorldConfigV {
        name,
        authority,
        width,
        depth: height,
        max_players,
        player_count: 0,
        tick_rate: 30,
        bump,
        l1_game: zero_root(),
        init_ts,
    }
}

/// The state a player joins with: at the world's centre, on the ground,
/// still, and at full health.
pub open spec fn initialized_player(
    authority: Seq<u8>,
    world_key: Seq<u8>,
    w: WorldConfigV,
    bump: u8,
    slot: u64,
    name: Seq<u8>,
) -> WorldPlayerV {
    WorldPlayerV {
        authority,
        world: world_key,
        position_x: (((w.width / 2) * FIXED_POINT_SCALE) as u32) as i32,
        position_z: (((w.depth / 2) * FIXED_POINT_SCALE) as u32) as i32,
        position_y: 0,
        velocity_x: 0,
        velocity_z: 0,
        velocity_y: 0,
        yaw: 0,
        health: DEFAULT_HEALTH,
        max_health: DEFAULT_MAX_HEALTH,
        last_action_slot: slot,
        last_combat_ts: 0,
        in_pvp_zone: false,
        is_grounded: true,
        bump,
        name,
    }
}

/// Create a world configuration in `world_acc`'s data. The authority must
/// have signed, the account's key must be the expected derived address, and
/// the data must have room; the configuration is then written at the front
/// of the data.
pub fn process_initialize_world(
    world_acc: &mut InstrAccount,
    authority_is_signer: bool,
    authority_key: &[u8; 32],
    expected_pda: &[u8; 32],
    bump: u8,
    name: [u8; 32],
    width: u32,
    height: u32,
    max_players: u16,
    clock_ts: i64,
) -> (r: Result<(), WorldError>)
    ensures
        match r {
            Ok(()) => {
                &&& authority_is_signer
                &&& expected_pda@ == old(world_acc)@.key
                &&& old(world_acc)@.data.len() >= WORLD_CONFIG_LEN
                &&& final(world_acc)@ == (InstrAccountV {
                    data: enc_world_config(
                        initialized_world(
                            name@,
                            authority_key@,
                            width,
                            height,
                            max_players,
                            bump,
                            clock_ts,
                        ),
                    ) + old(world_acc)@.data.skip(WORLD_CONFIG_LEN as int),
                    ..old(world_acc)@
                })
            },
            Err(e) => {
                &&& *final(world_acc) == *old(world_acc)
                &&& Some(e) == init_world_refusal(
                    old(world_acc)@,
                    authority_is_signer,
                    expected_pda@,
                )
            },
        },
{
    if !authority_is_signer {
        return Err(WorldError::MissingRequiredSignature);
    }
    if !bytes32_eq(expected_pda, &world_acc.key) {
        return Err(WorldError::InvalidWorld);
    }
    if world_acc.data.len() < WORLD_CONFIG_LEN {
        return Err(WorldError::AccountDataTooSmall);
    }
    let world = WorldConfig {
        name,
        authority: *authority_key,
        width,
        depth: height,
        max_players,
        player_count: 0,
        tick_rate: 30,
        bump,
        l1_game: crate::chain::zeroed_root(),
        init_ts: clock_ts,
    };
    write_front(&mut world_acc.data, encode_world_config(&world));
    proof {
        assert(final(world_acc)@ =~= (InstrAccountV {
            data: enc_world_config(world@) + old(world_acc)@.data.skip(WORLD_CONFIG_LEN as int),
            ..old(world_acc)@
        }));
        assert(world@ =~= initialized_world(
            name@,
            authority_key@,
            width,
            height,
            max_players,
            bump,
            clock_ts,
        ));
    }
    Ok(())
}

/// Overwrite the front of `data` with `front`, keeping the tail.
fn write_front(data: &mut Vec<u8>, front: Vec<u8>)
    requires
        front@.len() <= old(data)@.len(),
    ensures
        final(data)@ == front@ + old(data)@.skip(front@.len() as int),
{
    let n = front.len();
    let mut i: usize = 0;
    while i < n
        invariant
            n == front@.len(),
            n <= data@.len(),
            data@.len() == old(data)@.len(),
            i <= n,
            forall|j: int| 0 <= j < i ==> data@[j] == front@[j],
            forall|j: int| i <= j < data@.len() ==> data@[j] == old(data)@[j],
        decreases n - i,
    {
        data[i] = front[i];
        i = i + 1;
    }
    proof {
        assert(data@ =~= front@ + old(data)@.skip(front@.len() as int));
    }
}

/// Create a player account in the world. The authority must have signed, the
/// world must parse and have room, and the player account's key must be the
/// expected derived address; the player is then written and the world's
/// player count grows by one.
pub fn process_join_world(
    world_acc: &mut InstrAccount,
    player_acc: &mut InstrAccount,
    authority_is_signer: bool,
    authority_key: &[u8; 32],
    expected_pda: &[u8; 32],
    bump: u8,
    name: [u8; 16],
    clock_slot: u64,
) -> (r: Result<(), WorldError>)
    ensures
        match r {
            Ok(()) => {
                &&& authority_is_signer
                &&& dec_world_config(old(world_acc)@.data) matches Some(w)
                &&& ({
                    let w = dec_world_config(old(world_acc)@.data)->Some_0;
                    &&& w.player_count < w.max_players
                    &&& expected_pda@ == old(player_acc)@.key
                    &&& old(player_acc)@.data.len() >= WORLD_PLAYER_LEN
                    &&& final(player_acc)@ == (InstrAccountV {
                        data: enc_world_player(
                            initialized_player(
                                authority_key@,
                                old(world_acc)@.key,
                                w,
                                bump,
                                clock_slot,
                                name@,
                            ),
                        ) + old(player_acc)@.data.skip(WORLD_PLAYER_LEN as int),
                        ..old(player_acc)@
                    })
                    &&& final(world_acc)@ == (InstrAccountV {
                        data: enc_world_config(
                            WorldConfigV {
                                player_count: (w.player_count + 1) as u16,
                                ..w
                            },
                        ),
                        ..old(world_acc)@
                    })
                })
            },
            Err(e) => {
                &&& *final(world_acc) == *old(world_acc)
                &&& *final(player_acc) == *old(player_acc)
                &&& Some(e) == join_world_refusal(
                    old(world_acc)@,
                    old(player_acc)@,
                    authority_is_signer,
                    expected_pda@,
                )
            },
        },
{
    if !authority_is_signer {
        return Err(WorldError::MissingRequiredSignature);
    }
    let mut world = match decode_world_config(world_acc.data.as_slice()) {
        Some(w) => w,
        None => {
            return Err(WorldError::AccountNotInitialized);
        },
    };
    if world.player_count >= world.max_players {
        return Err(WorldError::WorldFull);
    }
    if !bytes32_eq(expected_pda, &player_acc.key) {
        return Err(WorldError::InvalidAuthority);
    }
    if player_acc.data.len() < WORLD_PLAYER_LEN {
        return Err(WorldError::AccountDataTooSmall);
    }
    proof {
        crate::world::state::lemma_dec_world_config_wf(old(world_acc)@.data);
    }
    let half_w = world.width / 2;
    let half_d = world.depth / 2;
    proof {
        assert(half_w as u64 * (FIXED_POINT_SCALE as u64) <= 4294967295000 && half_d as u64 * (
        FIXED_POINT_SCALE as u64) <= 4294967295000) by (nonlinear_arith)
            requires
                half_w as u64 <= 4294967295,
                half_d as u64 <= 4294967295,
        ;
    }
    let player = WorldPlayer {
        authority: *authority_key,
        world: world_acc.key,
        position_x: #[verifier::truncate] (((half_w as u64 * FIXED_POINT_SCALE as u64) as u32)
            as i32),
        position_z: #[verifier::truncate] (((half_d as u64 * FIXED_POINT_SCALE as u64) as u32)
            as i32),
        position_y: 0,
        velocity_x: 0,
        velocity_z: 0,
        velocity_y: 0,
        yaw: 0,
        health: DEFAULT_HEALTH,
        max_health: DEFAULT_MAX_HEALTH,
        last_action_slot: clock_slot,
        last_combat_ts: 0,
        in_pvp_zone: false,
        is_grounded: true,
        bump,
        name,
    };
    write_front(&mut player_acc.data, encode_world_player(&player));
    world.player_count = world.player_count + 1;
    let encoded = encode_world_config(&world);
    write_front(&mut world_acc.data, encoded);
    proof {
        let w0 = dec_world_config(old(world_acc)@.data)->Some_0;
        assert(player@ =~= initialized_player(
            authority_key@,
            old(world_acc)@.key,
            w0,
            bump,
            clock_slot,
            name@,
        ));
        assert(final(player_acc)@ =~= (InstrAccountV {
            data: enc_world_player(player@) + old(player_acc)@.data.skip(WORLD_PLAYER_LEN as int),
            ..old(player_acc)@
        }));
        assert(world@ =~= (WorldConfigV { player_count: (w0.player_count + 1) as u16, ..w0 }));
        assert(old(world_acc)@.data.len() == WORLD_CONFIG_LEN);
        assert(enc_world_config(world@).len() == WORLD_CONFIG_LEN) by {
            crate::world::state::lemma_dec_world_config_wf(old(world_acc)@.data);
            crate::world::state::lemma_enc_world_config_len(world@);
        }
        assert(final(world_acc)@ =~= (InstrAccountV {
            data: enc_world_config(world@),
            ..old(world_acc)@
        }));
    }
    Ok(())
}

} // verus!

verus! {

use crate::world::state::{
    lemma_dec_world_player_wf, lemma_enc_world_player_len, lemma_dec_world_config_wf,
    lemma_enc_world_config_len, spec_move2d,
};

/// A decoded player positioned inside a bounded world, so that a movement
/// step cannot overflow.
pub open spec fn movable(p: WorldPlayerV, w: WorldConfigV) -> bool {
    &&& w.width <= 2_000_000
    &&& w.depth <= 2_000_000
    &&& 0 <= p.position_x <= w.width * FIXED_POINT_SCALE
    &&& 0 <= p.position_z <= w.depth * FIXED_POINT_SCALE
    &&& GROUND_LEVEL <= p.position_y <= MAX_HEIGHT
    &&& -504 <= p.velocity_x <= 504
    &&& -504 <= p.velocity_z <= 504
    &&& -1000 <= p.velocity_y <= 1000
}

/// The checks every player-mutating instruction makes, in order: the
/// authority signed, the player account parses, and the authority owns it.
pub open spec fn player_gate(
    player_data: Seq<u8>,
    authority_is_signer: bool,
    authority_key: Seq<u8>,
) -> Result<WorldPlayerV, WorldError> {
    if !authority_is_signer {
        Err(WorldError::MissingRequiredSignature)
    } else {
        match dec_world_player(player_data) {
            None => Err(WorldError::AccountNotInitialized),
            Some(p) => if p.authority != authority_key {
                Err(WorldError::InvalidAuthority)
            } else {
                Ok(p)
            },
        }
    }
}

/// Run the player gate in executable code.
fn check_player_gate(
    player_acc: &InstrAccount,
    authority_is_signer: bool,
    authority_key: &[u8; 32],
) -> (r: Result<WorldPlayer, WorldError>)
    ensures
        match r {
            Ok(p) => player_gate(player_acc@.data, authority_is_signer, authority_key@) == Ok::<
                WorldPlayerV,
                WorldError,
            >(p@),
            Err(e) => player_gate(player_acc@.data, authority_is_signer, authority_key@) == Err::<
                WorldPlayerV,
                WorldError,
            >(e),
        },
{
    if !authority_is_signer {
        return Err(WorldError::MissingRequiredSignature);
    }
    let p = match decode_world_player(player_acc.data.as_slice()) {
        Some(p) => p,
        None => {
            return Err(WorldError::AccountNotInitialized);
        },
    };
    if !bytes32_eq(&p.authority, authority_key) {
        return Err(WorldError::InvalidAuthority);
    }
    Ok(p)
}

/// Write a player back into its account, replacing the record.
fn store_player(player_acc: &mut InstrAccount, p: &WorldPlayer)
    requires
        old(player_acc)@.data.len() == WORLD_PLAYER_LEN,
        p@.authority.len() == 32,
        p@.world.len() == 32,
        p@.name.len() == 16,
    ensures
        final(player_acc)@ == (InstrAccountV { data: enc_world_player(p@), ..old(player_acc)@ }),
{
    proof {
        lemma_enc_world_player_len(p@);
    }
    let encoded = encode_world_player(p);
    write_front(&mut player_acc.data, encoded);
    proof {
        assert(final(player_acc)@.data =~= enc_world_player(p@));
        assert(final(player_acc)@ =~= (InstrAccountV {
            data: enc_world_player(p@),
            ..old(player_acc)@
        }));
    }
}

/// Eight-way movement: gate the player, check the world account holds the
/// player's world and both parse, require a bounded in-range state, then
/// apply the movement and stamp the action slot.
pub fn process_move_player(
    world_acc: &InstrAccount,
    player_acc: &mut InstrAccount,
    authority_is_signer: bool,
    authority_key: &[u8; 32],
    input: MovementInput,
    clock_slot: u64,
) -> (r: Result<(), WorldError>)
    ensures
        match r {
            Ok(()) => {
                &&& player_gate(old(player_acc)@.data, authority_is_signer, authority_key@)
                    matches Ok(p)
                &&& dec_world_config(world_acc@.data) matches Some(w)
                &&& ({
                    let p = player_gate(
                        old(player_acc)@.data,
                        authority_is_signer,
                        authority_key@,
                    )->Ok_0;
                    let w = dec_world_config(world_acc@.data)->Some_0;
                    &&& p.world == world_acc@.key
                    &&& p.health > 0
                    &&& w.width <= 2_000_000 && w.depth <= 2_000_000
                    &&& 0 <= p.position_x <= w.width * FIXED_POINT_SCALE
                    &&& 0 <= p.position_z <= w.depth * FIXED_POINT_SCALE
                    &&& final(player_acc)@ == (InstrAccountV {
                        data: enc_world_player(
                            WorldPlayerV {
                                last_action_slot: clock_slot,
                                ..spec_move2d(p, input.direction, input.sprint, w)
                            },
                        ),
                        ..old(player_acc)@
                    })
                })
            },
            Err(e) => *final(player_acc) == *old(player_acc) && Some(e) == move_player_refusal(
                world_acc@,
                old(player_acc)@,
                authority_is_signer,
                authority_key@,
            ),
        },
{
    let world = match decode_world_config(world_acc.data.as_slice()) {
        Some(w) => w,
        None => {
            return Err(WorldError::AccountNotInitialized);
        },
    };
    let mut player = match check_player_gate(player_acc, authority_is_signer, authority_key) {
        Ok(p) => p,
        Err(e) => {
            return Err(e);
        },
    };
    if !bytes32_eq(&player.world, &world_acc.key) {
        return Err(WorldError::InvalidWorld);
    }
    if !player.is_alive() {
        return Err(WorldError::PlayerDead);
    }
    if !(world.width <= 2_000_000 && world.depth <= 2_000_000) {
        return Err(WorldError::ArithmeticOverflow);
    }
    let max_x = (world.width as i32) * FIXED_POINT_SCALE;
    let max_z = (world.depth as i32) * FIXED_POINT_SCALE;
    if !(0 <= player.position_x && player.position_x <= max_x && 0 <= player.position_z
        && player.position_z <= max_z) {
        return Err(WorldError::ArithmeticOverflow);
    }
    proof {
        lemma_dec_world_player_wf(old(player_acc)@.data);
    }
    let ghost p0 = player@;
    player.apply_movement(input.direction, input.sprint, &world);
    player.last_action_slot = clock_slot;
    proof {
        assert(player@ =~= (WorldPlayerV {
            last_action_slot: clock_slot,
            ..spec_move2d(p0, input.direction, input.sprint, world@)
        }));
    }
    store_player(player_acc, &player);
    Ok(())
}

/// 3D movement: as eight-way movement, with physics, over a world-space
/// direction already rotated out of the camera frame.
pub fn process_move_player_3d(
    world_acc: &InstrAccount,
    player_acc: &mut InstrAccount,
    authority_is_signer: bool,
    authority_key: &[u8; 32],
    input: MovementInput3D,
    world_dx: i8,
    world_dz: i8,
    clock_slot: u64,
) -> (r: Result<(), WorldError>)
    ensures
        match r {
            Ok(()) => {
                &&& player_gate(old(player_acc)@.data, authority_is_signer, authority_key@)
                    matches Ok(p)
                &&& dec_world_config(world_acc@.data) matches Some(w)
                &&& ({
                    let p = player_gate(
                        old(player_acc)@.data,
                        authority_is_signer,
                        authority_key@,
                    )->Ok_0;
                    let w = dec_world_config(world_acc@.data)->Some_0;
                    &&& p.world == world_acc@.key
                    &&& p.health > 0
                    &&& movable(p, w)
                    &&& final(player_acc)@ == (InstrAccountV {
                        data: enc_world_player(
                            WorldPlayerV {
                                last_action_slot: clock_slot,
                                ..spec_move3d(p, input, world_dx, world_dz, w)
                            },
                        ),
                        ..old(player_acc)@
                    })
                })
            },
            Err(e) => *final(player_acc) == *old(player_acc) && Some(e)
                == move_player_3d_refusal(
                world_acc@,
                old(player_acc)@,
                authority_is_signer,
                authority_key@,
            ),
        },
{
    let world = match decode_world_config(world_acc.data.as_slice()) {
        Some(w) => w,
        None => {
            return Err(WorldError::AccountNotInitialized);
        },
    };
    let mut player = match check_player_gate(player_acc, authority_is_signer, authority_key) {
        Ok(p) => p,
        Err(e) => {
            return Err(e);
        },
    };
    if !bytes32_eq(&player.world, &world_acc.key) {
        return Err(WorldError::InvalidWorld);
    }
    if !player.is_alive() {
        return Err(WorldError::PlayerDead);
    }
    if !(world.width <= 2_000_000 && world.depth <= 2_000_000) {
        return Err(WorldError::ArithmeticOverflow);
    }
    let max_x = (world.width as i32) * FIXED_POINT_SCALE;
    let max_z = (world.depth as i32) * FIXED_POINT_SCALE;
    if !(0 <= player.position_x && player.position_x <= max_x && 0 <= player.position_z
        && player.position_z <= max_z && GROUND_LEVEL <= player.position_y
        && player.position_y <= MAX_HEIGHT && -504 <= player.velocity_x && player.velocity_x
        <= 504 && -504 <= player.velocity_z && player.velocity_z <= 504 && -1000
        <= player.velocity_y && player.velocity_y <= 1000) {
        return Err(WorldError::ArithmeticOverflow);
    }
    proof {
        lemma_dec_world_player_wf(old(player_acc)@.data);
    }
    let ghost p0 = player@;
    player.apply_movement_3d(&input, world_dx, world_dz, &world);
    player.last_action_slot = clock_slot;
    proof {
        assert(player@ =~= (WorldPlayerV {
            last_action_slot: clock_slot,
            ..spec_move3d(p0, input, world_dx, world_dz, world@)
        }));
    }
    store_player(player_acc, &player);
    Ok(())
}

/// Attack: both fighters must parse and be alive, the attacker must be the
/// signer's and not the target; the target loses the weapon's damage, and
/// the attacker's combat stamps advance.
pub fn process_attack(
    attacker_acc: &mut InstrAccount,
    target_acc: &mut InstrAccount,
    authority_is_signer: bool,
    authority_key: &[u8; 32],
    weapon_stats: Option<WeaponStats>,
    clock_slot: u64,
    clock_ts: i64,
) -> (r: Result<(), WorldError>)
    ensures
        match r {
            Ok(()) => {
                &&& old(attacker_acc)@.key != old(target_acc)@.key
                &&& player_gate(old(attacker_acc)@.data, authority_is_signer, authority_key@)
                    matches Ok(a)
                &&& dec_world_player(old(target_acc)@.data) matches Some(t)
                &&& ({
                    let a = player_gate(
                        old(attacker_acc)@.data,
                        authority_is_signer,
                        authority_key@,
                    )->Ok_0;
                    let t = dec_world_player(old(target_acc)@.data)->Some_0;
                    let damage = match weapon_stats {
                        Some(w) => w.damage,
                        None => DEFAULT_DAMAGE,
                    };
                    &&& a.health > 0
                    &&& t.health > 0
                    &&& final(attacker_acc)@ == (InstrAccountV {
                        data: enc_world_player(
                            WorldPlayerV {
                                last_combat_ts: clock_ts,
                                last_action_slot: clock_slot,
                                ..a
                            },
                        ),
                        ..old(attacker_acc)@
                    })
                    &&& final(target_acc)@ == (InstrAccountV {
                        data: enc_world_player(
                            WorldPlayerV {
                                health: if t.health >= damage {
                                    (t.health - damage) as u16
                                } else {
                                    0u16
                                },
                                ..t
                            },
                        ),
                        ..old(target_acc)@
                    })
                })
            },
            Err(e) => {
                &&& *final(attacker_acc) == *old(attacker_acc)
                &&& *final(target_acc) == *old(target_acc)
                &&& Some(e) == attack_refusal(
                    old(attacker_acc)@,
                    old(target_acc)@,
                    authority_is_signer,
                    authority_key@,
                )
            },
        },
{
    if !authority_is_signer {
        return Err(WorldError::MissingRequiredSignature);
    }
    if bytes32_eq(&attacker_acc.key, &target_acc.key) {
        return Err(WorldError::CannotAttackSelf);
    }
    let mut attacker = match decode_world_player(attacker_acc.data.as_slice()) {
        Some(p) => p,
        None => {
            return Err(WorldError::AccountNotInitialized);
        },
    };
    let mut target = match decode_world_player(target_acc.data.as_slice()) {
        Some(p) => p,
        None => {
            return Err(WorldError::AccountNotInitialized);
        },
    };
    if !bytes32_eq(&attacker.authority, authority_key) {
        return Err(WorldError::InvalidAuthority);
    }
    if !attacker.is_alive() || !target.is_alive() {
        return Err(WorldError::PlayerDead);
    }
    let damage = match weapon_stats {
        Some(w) => w.damage,
        None => DEFAULT_DAMAGE,
    };
    target.apply_damage(damage);
    attacker.last_combat_ts = clock_ts;
    attacker.last_action_slot = clock_slot;
    proof {
        lemma_dec_world_player_wf(old(attacker_acc)@.data);
        lemma_dec_world_player_wf(old(target_acc)@.data);
    }
    store_player(attacker_acc, &attacker);
    store_player(target_acc, &target);
    Ok(())
}

/// Heal: the gated player gains the given amount — or the default when the
/// amount is zero — up to its health ceiling, and the action slot advances.
pub fn process_heal(
    player_acc: &mut InstrAccount,
    authority_is_signer: bool,
    authority_key: &[u8; 32],
    amount: u16,
    clock_slot: u64,
) -> (r: Result<(), WorldError>)
    ensures
        match r {
            Ok(()) => {
                &&& player_gate(old(player_acc)@.data, authority_is_signer, authority_key@)
                    matches Ok(p)
                &&& ({
                    let p = player_gate(
                        old(player_acc)@.data,
                        authority_is_signer,
                        authority_key@,
                    )->Ok_0;
                    let heal = if amount > 0 {
                        amount
                    } else {
                        DEFAULT_HEAL
                    };
                    final(player_acc)@ == (InstrAccountV {
                        data: enc_world_player(
                            WorldPlayerV {
                                health: if p.health + heal <= p.max_health {
                                    (p.health + heal) as u16
                                } else {
                                    p.max_health
                                },
                                last_action_slot: clock_slot,
                                ..p
                            },
                        ),
                        ..old(player_acc)@
                    })
                })
            },
            Err(e) => *final(player_acc) == *old(player_acc) && player_gate(
                old(player_acc)@.data,
                authority_is_signer,
                authority_key@,
            ) == Err::<WorldPlayerV, WorldError>(e),
        },
{
    let mut player = match check_player_gate(player_acc, authority_is_signer, authority_key) {
        Ok(p) => p,
        Err(e) => {
            return Err(e);
        },
    };
    let heal_amount = if amount > 0 {
        amount
    } else {
        DEFAULT_HEAL
    };
    player.apply_heal(heal_amount);
    player.last_action_slot = clock_slot;
    proof {
        lemma_dec_world_player_wf(old(player_acc)@.data);
    }
    store_player(player_acc, &player);
    Ok(())
}

/// Leave: the gated player's world account loses one from its player count,
/// stopping at zero.
pub fn process_leave_world(
    world_acc: &mut InstrAccount,
    player_acc: &InstrAccount,
    authority_is_signer: bool,
    authority_key: &[u8; 32],
) -> (r: Result<(), WorldError>)
    ensures
        match r {
            Ok(()) => {
                &&& player_gate(player_acc@.data, authority_is_signer, authority_key@) is Ok
                &&& dec_world_config(old(world_acc)@.data) matches Some(w)
                &&& ({
                    let w = dec_world_config(old(world_acc)@.data)->Some_0;
                    final(world_acc)@ == (InstrAccountV {
                        data: enc_world_config(
                            WorldConfigV {
                                player_count: if w.player_count > 0 {
                                    (w.player_count - 1) as u16
                                } else {
                                    0u16
                                },
                                ..w
                            },
                        ),
                        ..old(world_acc)@
                    })
                })
            },
            Err(e) => *final(world_acc) == *old(world_acc) && Some(e) == leave_world_refusal(
                old(world_acc)@,
                player_acc@,
                authority_is_signer,
                authority_key@,
            ),
        },
{
    let _player = match check_player_gate(player_acc, authority_is_signer, authority_key) {
        Ok(p) => p,
        Err(e) => {
            return Err(e);
        },
    };
    let mut world = match decode_world_config(world_acc.data.as_slice()) {
        Some(w) => w,
        None => {
            return Err(WorldError::AccountNotInitialized);
        },
    };
    world.player_count = if world.player_count > 0 {
        world.player_count - 1
    } else {
        0
    };
    proof {
        lemma_dec_world_config_wf(old(world_acc)@.data);
        lemma_enc_world_config_len(world@);
    }
    let encoded = encode_world_config(&world);
    write_front(&mut world_acc.data, encoded);
    proof {
        assert(final(world_acc)@.data =~= enc_world_config(world@));
        assert(final(world_acc)@ =~= (InstrAccountV {
            data: enc_world_config(world@),
            ..old(world_acc)@
        }));
    }
    Ok(())
}

/// Update: the world's own authority may raise or lower the player limit.
pub fn process_update_world(
    world_acc: &mut InstrAccount,
    authority_is_signer: bool,
    authority_key: &[u8; 32],
    max_players: Option<u16>,
) -> (r: Result<(), WorldError>)
    ensures
        match r {
            Ok(()) => {
                &&& authority_is_signer
                &&& dec_world_config(old(world_acc)@.data) matches Some(w)
                &&& ({
                    let w = dec_world_config(old(world_acc)@.data)->Some_0;
                    &&& w.authority == authority_key@
                    &&& final(world_acc)@ == (InstrAccountV {
                        data: enc_world_config(
                            WorldConfigV {
                                max_players: match max_players {
                                    Some(mp) => mp,
                                    None => w.max_players,
                                },
                                ..w
                            },
                        ),
                        ..old(world_acc)@
                    })
                })
            },
            Err(e) => *final(world_acc) == *old(world_acc) && Some(e) == update_world_refusal(
                old(world_acc)@,
                authority_is_signer,
                authority_key@,
            ),
        },
{
    if !authority_is_signer {
        return Err(WorldError::MissingRequiredSignature);
    }
    let mut world = match decode_world_config(world_acc.data.as_slice()) {
        Some(w) => w,
        None => {
            return Err(WorldError::AccountNotInitialized);
        },
    };
    if !bytes32_eq(&world.authority, authority_key) {
        return Err(WorldError::InvalidAuthority);
    }
    match max_players {
        Some(mp) => {
            world.max_players = mp;
        },
        None => {},
    }
    proof {
        lemma_dec_world_config_wf(old(world_acc)@.data);
        lemma_enc_world_config_len(world@);
    }
    let encoded = encode_world_config(&world);
    write_front(&mut world_acc.data, encoded);
    proof {
        assert(final(world_acc)@.data =~= enc_world_config(world@));
        assert(final(world_acc)@ =~= (InstrAccountV {
            data: enc_world_config(world@),
            ..old(world_acc)@
        }));
    }
    Ok(())
}

/// Mark the gated player inside or outside the contested zone.
pub fn process_set_pvp_zone(
    player_acc: &mut InstrAccount,
    authority_is_signer: bool,
    authority_key: &[u8; 32],
    in_pvp_zone: bool,
) -> (r: Result<(), WorldError>)
    ensures
        match r {
            Ok(()) => {
                &&& player_gate(old(player_acc)@.data, authority_is_signer, authority_key@)
                    matches Ok(p)
                &&& ({
                    let p = player_gate(
                        old(player_acc)@.data,
                        authority_is_signer,
                        authority_key@,
                    )->Ok_0;
                    final(player_acc)@ == (InstrAccountV {
                        data: enc_world_player(WorldPlayerV { in_pvp_zone, ..p }),
                        ..old(player_acc)@
                    })
                })
            },
            Err(e) => *final(player_acc) == *old(player_acc) && player_gate(
                old(player_acc)@.data,
                authority_is_signer,
                authority_key@,
            ) == Err::<WorldPlayerV, WorldError>(e),
        },
{
    let mut player = match check_player_gate(player_acc, authority_is_signer, authority_key) {
        Ok(p) => p,
        Err(e) => {
            return Err(e);
        },
    };
    player.in_pvp_zone = in_pvp_zone;
    proof {
        lemma_dec_world_player_wf(old(player_acc)@.data);
    }
    store_player(player_acc, &player);
    Ok(())
}

} // verus!

verus! {

/// Why world creation is refused, in check order.
pub open spec fn init_world_refusal(
    world: InstrAccountV,
    signer: bool,
    expected_pda: Seq<u8>,
) -> Option<WorldError> {
    if !signer {
        Some(WorldError::MissingRequiredSignature)
    } else if expected_pda != world.key {
        Some(WorldError::InvalidWorld)
    } else if world.data.len() < WORLD_CONFIG_LEN {
        Some(WorldError::AccountDataTooSmall)
    } else {
        None
    }
}

/// Why joining is refused, in check order.
pub open spec fn join_world_refusal(
    world: InstrAccountV,
    player: InstrAccountV,
    signer: bool,
    expected_pda: Seq<u8>,
) -> Option<WorldError> {
    if !signer {
        Some(WorldError::MissingRequiredSignature)
    } else {
        match dec_world_config(world.data) {
            None => Some(WorldError::AccountNotInitialized),
            Some(w) => if w.player_count >= w.max_players {
                Some(WorldError::WorldFull)
            } else if expected_pda != player.key {
                Some(WorldError::InvalidAuthority)
            } else if player.data.len() < WORLD_PLAYER_LEN {
                Some(WorldError::AccountDataTooSmall)
            } else {
                None
            },
        }
    }
}

/// Why eight-way movement is refused, in check order.
pub open spec fn move_player_refusal(
    world: InstrAccountV,
    player: InstrAccountV,
    signer: bool,
    authority: Seq<u8>,
) -> Option<WorldError> {
    match dec_world_config(world.data) {
        None => Some(WorldError::AccountNotInitialized),
        Some(w) => match player_gate(player.data, signer, authority) {
            Err(e) => Some(e),
            Ok(p) => if p.world != world.key {
                Some(WorldError::InvalidWorld)
            } else if p.health == 0 {
                Some(WorldError::PlayerDead)
            } else if !(w.width <= 2_000_000 && w.depth <= 2_000_000) {
                Some(WorldError::ArithmeticOverflow)
            } else if !(0 <= p.position_x <= w.width * FIXED_POINT_SCALE && 0 <= p.position_z
                <= w.depth * FIXED_POINT_SCALE) {
                Some(WorldError::ArithmeticOverflow)
            } else {
                None
            },
        },
    }
}

/// Why 3D movement is refused, in check order.
pub open spec fn move_player_3d_refusal(
    world: InstrAccountV,
    player: InstrAccountV,
    signer: bool,
    authority: Seq<u8>,
) -> Option<WorldError> {
    match dec_world_config(world.data) {
        None => Some(WorldError::AccountNotInitialized),
        Some(w) => match player_gate(player.data, signer, authority) {
            Err(e) => Some(e),
            Ok(p) => if p.world != world.key {
                Some(WorldError::InvalidWorld)
            } else if p.health == 0 {
                Some(WorldError::PlayerDead)
            } else if !(w.width <= 2_000_000 && w.depth <= 2_000_000) {
                Some(WorldError::ArithmeticOverflow)
            } else if !movable(p, w) {
                Some(WorldError::ArithmeticOverflow)
            } else {
                None
            },
        },
    }
}

/// Why an attack is refused, in check order.
pub open spec fn attack_refusal(
    attacker: InstrAccountV,
    target: InstrAccountV,
    signer: bool,
    authority: Seq<u8>,
) -> Option<WorldError> {
    if !signer {
        Some(WorldError::MissingRequiredSignature)
    } else if attacker.key == target.key {
        Some(WorldError::CannotAttackSelf)
    } else {
        match dec_world_player(attacker.data) {
            None => Some(WorldError::AccountNotInitialized),
            Some(a) => match dec_world_player(target.data) {
                None => Some(WorldError::AccountNotInitialized),
                Some(t) => if a.authority != authority {
                    Some(WorldError::InvalidAuthority)
                } else if a.health == 0 || t.health == 0 {
                    Some(WorldError::PlayerDead)
                } else {
                    None
                },
            },
        }
    }
}

/// Why leaving is refused, in check order.
pub open spec fn leave_world_refusal(
    world: InstrAccountV,
    player: InstrAccountV,
    signer: bool,
    authority: Seq<u8>,
) -> Option<WorldError> {
    match player_gate(player.data, signer, authority) {
        Err(e) => Some(e),
        Ok(_) => match dec_world_config(world.data) {
            None => Some(WorldError::AccountNotInitialized),
            Some(_) => None,
        },
    }
}

/// Why a world update is refused, in check order.
pub open spec fn update_world_refusal(
    world: InstrAccountV,
    signer: bool,
    authority: Seq<u8>,
) -> Option<WorldError> {
    if !signer {
        Some(WorldError::MissingRequiredSignature)
    } else {
        match dec_world_config(world.data) {
            None => Some(WorldError::AccountNotInitialized),
            Some(w) => if w.authority != authority {
                Some(WorldError::InvalidAuthority)
            } else {
                None
            },
        }
    }
}

} // verus!
