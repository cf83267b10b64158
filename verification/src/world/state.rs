//! World and player state, and the movement physics over them.

use vstd::prelude::*;
use crate::world::{
    ACCELERATION, DEFAULT_MAX_HEALTH, FIXED_POINT_SCALE, FRICTION, GRAVITY, GROUND_LEVEL,
    JUMP_VELOCITY, MAX_HEIGHT, MAX_SPEED, NORMAL_SPEED, SPRINT_SPEED, TERMINAL_VELOCITY,
};

verus! {

/// Size in bytes of an encoded [`WorldConfig`].
pub const WORLD_CONFIG_LEN: usize = 32 + 32 + 4 + 4 + 2 + 2 + 1 + 1 + 32 + 8;

/// Size in bytes of an encoded [`WorldPlayer`].
pub const WORLD_PLAYER_LEN: usize = 32 + 32 + 4 + 4 + 4 + 2 + 2 + 2 + 2 + 2 + 2 + 8 + 8 + 1 + 1
    + 1 + 16;

/// World configuration: one per world.
#[derive(Debug)]
pub struct WorldConfig {
    pub name: [u8; 32],
    pub authority: [u8; 32],
    pub width: u32,
    pub depth: u32,
    pub max_players: u16,
    pub player_count: u16,
    pub tick_rate: u8,
    pub bump: u8,
    pub l1_game: [u8; 32],
    pub init_ts: i64,
}

impl Clone for WorldConfig {
    fn clone(&self) -> (r: Self)
        ensures
            r == *self,
    {
        WorldConfig {
            name: self.name,
            authority: self.authority,
            width: self.width,
            depth: self.depth,
            max_players: self.max_players,
            player_count: self.player_count,
            tick_rate: self.tick_rate,
            bump: self.bump,
            l1_game: self.l1_game,
            init_ts: self.init_ts,
        }
    }
}

impl WorldConfig {
    /// Is the world at its player limit?
    pub fn is_full(&self) -> (r: bool)
        ensures
            r == (self.player_count >= self.max_players),
    {
        self.player_count >= self.max_players
    }

    /// World dimensions small enough that fixed-point positions fit `i32`.
    pub open spec fn bounded(&self) -> bool {
        &&& self.width <= 2_000_000
        &&& self.depth <= 2_000_000
    }
}

/// Per-player state: fixed-point 3D position, velocity, health and identity.
#[derive(Debug)]
pub struct WorldPlayer {
    pub authority: [u8; 32],
    pub world: [u8; 32],
    pub position_x: i32,
    pub position_z: i32,
    pub position_y: i32,
    pub velocity_x: i16,
    pub velocity_z: i16,
    pub velocity_y: i16,
    pub yaw: i16,
    pub health: u16,
    pub max_health: u16,
    pub last_action_slot: u64,
    pub last_combat_ts: i64,
    pub in_pvp_zone: bool,
    pub is_grounded: bool,
    pub bump: u8,
    pub name: [u8; 16],
}

impl Clone for WorldPlayer {
    fn clone(&self) -> (r: Self)
        ensures
            r == *self,
    {
        WorldPlayer {
            authority: self.authority,
            world: self.world,
            position_x: self.position_x,
            position_z: self.position_z,
            position_y: self.position_y,
            velocity_x: self.velocity_x,
            velocity_z: self.velocity_z,
            velocity_y: self.velocity_y,
            yaw: self.yaw,
            health: self.health,
            max_health: self.max_health,
            last_action_slot: self.last_action_slot,
            last_combat_ts: self.last_combat_ts,
            in_pvp_zone: self.in_pvp_zone,
            is_grounded: self.is_grounded,
            bump: self.bump,
            name: self.name,
        }
    }
}

/// 3D movement input: camera-relative stick values, camera yaw, and the
/// sprint and jump flags.
#[derive(Debug, Clone, Copy)]
pub struct MovementInput3D {
    pub move_x: i8,
    pub move_z: i8,
    pub camera_yaw: i16,
    pub sprint: bool,
    pub jump: bool,
}

/// Eight-way movement input.
#[derive(Debug, Clone, Copy)]
pub struct MovementInput {
    pub direction: u8,
    pub sprint: bool,
}

/// Weapon statistics supplied by the settlement layer.
#[derive(Debug, Clone, Copy)]
pub struct WeaponStats {
    pub damage: u16,
    pub range: u16,
    pub attack_speed: u8,
}

/// Movement speed for the sprint flag.
pub open spec fn spec_speed(sprint: bool) -> int {
    if sprint {
        SPRINT_SPEED as int
    } else {
        NORMAL_SPEED as int
    }
}

/// Truncating division, as machine division computes it.
pub open spec fn spec_div_trunc(a: int, b: int) -> int {
    if a >= 0 {
        a / b
    } else {
        -((-a) / b)
    }
}

/// The velocity a stick value steers toward.
pub open spec fn spec_target_velocity(world_d: i8, sprint: bool) -> int {
    if world_d != 0 {
        spec_div_trunc(world_d * spec_speed(sprint), 127)
    } else {
        0
    }
}

/// One acceleration step from `current` toward `target`.
pub open spec fn spec_accelerate(current: int, target: int, accel: int) -> int {
    if current < target {
        if current + accel < target {
            current + accel
        } else {
            target
        }
    } else if current > target {
        if current - accel > target {
            current - accel
        } else {
            target
        }
    } else {
        current
    }
}

/// One friction step toward zero.
pub open spec fn spec_friction(velocity: int, friction: int) -> int {
    if velocity > 0 {
        if velocity - friction > 0 {
            velocity - friction
        } else {
            0
        }
    } else if velocity < 0 {
        if velocity + friction < 0 {
            velocity + friction
        } else {
            0
        }
    } else {
        0
    }
}

/// `x` forced into `[lo, hi]`.
pub open spec fn spec_clamp(x: int, lo: int, hi: int) -> int {
    if x < lo {
        lo
    } else if x > hi {
        hi
    } else {
        x
    }
}

/// The unit vector of an eight-way direction; any other value stops.
pub fn direction_to_vector(direction: u8) -> (r: (i32, i32))
    ensures
        r == spec_direction_to_vector(direction),
{
    match direction {
        0 => (0, -1),
        1 => (1, -1),
        2 => (1, 0),
        3 => (1, 1),
        4 => (0, 1),
        5 => (-1, 1),
        6 => (-1, 0),
        7 => (-1, -1),
        _ => (0, 0),
    }
}

/// The unit vector of an eight-way direction, as a function.
pub open spec fn spec_direction_to_vector(direction: u8) -> (i32, i32) {
    if direction == 0 {
        (0i32, -1i32)
    } else if direction == 1 {
        (1i32, -1i32)
    } else if direction == 2 {
        (1i32, 0i32)
    } else if direction == 3 {
        (1i32, 1i32)
    } else if direction == 4 {
        (0i32, 1i32)
    } else if direction == 5 {
        (-1i32, 1i32)
    } else if direction == 6 {
        (-1i32, 0i32)
    } else if direction == 7 {
        (-1i32, -1i32)
    } else {
        (0i32, 0i32)
    }
}

/// One acceleration step from `current` toward `target`.
pub fn accelerate_toward(current: i16, target: i16, accel: i16) -> (r: i16)
    requires
        accel >= 0,
    ensures
        r == spec_accelerate(current as int, target as int, accel as int),
{
    if current < target {
        let v = current as i32 + accel as i32;
        if v < target as i32 {
            v as i16
        } else {
            target
        }
    } else if current > target {
        let v = current as i32 - accel as i32;
        if v > target as i32 {
            v as i16
        } else {
            target
        }
    } else {
        current
    }
}

/// One friction step toward zero.
pub fn apply_friction(velocity: i16, friction: i16) -> (r: i16)
    requires
        friction >= 0,
    ensures
        r == spec_friction(velocity as int, friction as int),
{
    if velocity > 0 {
        let v = velocity as i32 - friction as i32;
        if v > 0 {
            v as i16
        } else {
            0
        }
    } else if velocity < 0 {
        let v = velocity as i32 + friction as i32;
        if v < 0 {
            v as i16
        } else {
            0
        }
    } else {
        0
    }
}

/// The velocity a stick value steers toward: the stick fraction of the
/// speed, truncated toward zero.
fn target_velocity(world_d: i8, speed: i16) -> (r: i16)
    requires
        0 < speed <= 500,
    ensures
        r as int == (if world_d != 0 {
            spec_div_trunc(world_d * speed, 127)
        } else {
            0
        }),
        -504 <= r <= 504,
{
    if world_d == 0 {
        return 0;
    }
    let neg = world_d < 0;
    let mag: u32 = if neg {
        (-(world_d as i32)) as u32
    } else {
        world_d as u32
    };
    proof {
        assert(mag <= 128);
        assert(mag * (speed as u32) <= 64000) by (nonlinear_arith)
            requires
                mag <= 128,
                speed as u32 <= 500,
        ;
    }
    let prod: u32 = mag * (speed as u32);
    let q: u32 = prod / 127;
    proof {
        vstd::arithmetic::div_mod::lemma_div_is_ordered(prod as int, 64000, 127);
        assert(q <= 503);
        let d = world_d as int;
        let sp = speed as int;
        if neg {
            assert(mag == -d);
            assert(prod == (-d) * sp && d * sp < 0 && -(d * sp) == (-d) * sp) by (nonlinear_arith)
                requires
                    mag == -d,
                    prod == mag * sp,
                    d < 0,
                    sp > 0,
            ;
            assert(spec_div_trunc(d * sp, 127) == -(prod as int / 127));
        } else {
            assert(prod == d * sp && d * sp >= 0) by (nonlinear_arith)
                requires
                    mag == d,
                    prod == mag * sp,
                    d > 0,
                    sp > 0,
            ;
            assert(spec_div_trunc(d * sp, 127) == prod as int / 127);
        }
    }
    if neg {
        (-(q as i32)) as i16
    } else {
        q as i16
    }
}

fn clamp_i32(x: i32, lo: i32, hi: i32) -> (r: i32)
    requires
        lo <= hi,
    ensures
        r == spec_clamp(x as int, lo as int, hi as int),
{
    if x < lo {
        lo
    } else if x > hi {
        hi
    } else {
        x
    }
}

impl WorldPlayer {
    /// A player with no health left is dead.
    pub fn is_alive(&self) -> (r: bool)
        ensures
            r == (self.health > 0),
    {
        self.health > 0
    }

    /// Take `damage` health, stopping at zero.
    pub fn apply_damage(&mut self, damage: u16)
        ensures
            *final(self) == (WorldPlayer {
                health: if old(self).health >= damage {
                    (old(self).health - damage) as u16
                } else {
                    0u16
                },
                ..*old(self)
            }),
    {
        self.health = if self.health >= damage {
            self.health - damage
        } else {
            0
        };
    }

    /// Gain `heal` health, stopping at the player's ceiling.
    pub fn apply_heal(&mut self, heal: u16)
        ensures
            *final(self) == (WorldPlayer {
                health: if old(self).health + heal <= old(self).max_health {
                    (old(self).health + heal) as u16
                } else {
                    old(self).max_health
                },
                ..*old(self)
            }),
    {
        let summed: u32 = self.health as u32 + heal as u32;
        self.health = if summed <= self.max_health as u32 {
            summed as u16
        } else {
            self.max_health
        };
    }

    /// Eight-way movement: the direction sets the velocity outright, the
    /// position moves by it and is clamped to the world, and a real
    /// direction also turns the player.
    pub fn apply_movement(&mut self, direction: u8, sprint: bool, world: &WorldConfig)
        requires
            world.bounded(),
            0 <= old(self).position_x <= world.width * FIXED_POINT_SCALE,
            0 <= old(self).position_z <= world.depth * FIXED_POINT_SCALE,
        ensures
            final(self)@ == spec_move2d(old(self)@, direction, sprint, world@),
            0 <= final(self).position_x <= world.width * FIXED_POINT_SCALE,
            0 <= final(self).position_z <= world.depth * FIXED_POINT_SCALE,
    {
        let (dx, dz) = direction_to_vector(direction);
        let speed: i16 = if sprint {
            SPRINT_SPEED
        } else {
            NORMAL_SPEED
        };
        proof {
            assert(-1 <= dx <= 1 && -1 <= dz <= 1);
            assert(-500 <= dx * (speed as i32) <= 500 && -500 <= dz * (speed as i32)
                <= 500) by (nonlinear_arith)
                requires
                    -1 <= dx <= 1,
                    -1 <= dz <= 1,
                    0 < speed <= 500,
            ;
        }
        self.velocity_x = (dx * speed as i32) as i16;
        self.velocity_z = (dz * speed as i32) as i16;
        if direction < 8 {
            self.yaw = #[verifier::truncate] (((direction as u16) * 8192) as i16);
        }
        let max_x = (world.width as i32) * FIXED_POINT_SCALE;
        let max_z = (world.depth as i32) * FIXED_POINT_SCALE;
        self.position_x = clamp_i32(self.position_x + self.velocity_x as i32, 0, max_x);
        self.position_z = clamp_i32(self.position_z + self.velocity_z as i32, 0, max_z);
    }

    /// Squared distance to another player, over all three axes.
    pub fn distance_squared(&self, other: &WorldPlayer) -> (r: i64)
        requires
            -1_000_000_000 <= self.position_x - other.position_x <= 1_000_000_000,
            -1_000_000_000 <= self.position_z - other.position_z <= 1_000_000_000,
            -1_000_000_000 <= self.position_y - other.position_y <= 1_000_000_000,
        ensures
            r == (self.position_x - other.position_x) * (self.position_x - other.position_x) + (
            self.position_z - other.position_z) * (self.position_z - other.position_z) + (
            self.position_y - other.position_y) * (self.position_y - other.position_y),
    {
        let dx = (self.position_x as i64) - (other.position_x as i64);
        let dz = (self.position_z as i64) - (other.position_z as i64);
        let dy = (self.position_y as i64) - (other.position_y as i64);
        proof {
            assert(0 <= dx * dx <= 0x0de0b6b3a7640000 && 0 <= dz * dz <= 0x0de0b6b3a7640000 && 0
                <= dy * dy <= 0x0de0b6b3a7640000) by (nonlinear_arith)
                requires
                    -1_000_000_000 <= dx <= 1_000_000_000,
                    -1_000_000_000 <= dz <= 1_000_000_000,
                    -1_000_000_000 <= dy <= 1_000_000_000,
            ;
        }
        dx * dx + dz * dz + dy * dy
    }
}

impl WorldPlayer {
    /// 3D movement with physics: accelerate toward the steered velocity,
    /// jump, fall under gravity to a terminal speed, brake by friction when
    /// grounded with no input, move, stay inside the world, and land on the
    /// ground plane.
    pub fn apply_movement_3d(
        &mut self,
        input: &MovementInput3D,
        world_dx: i8,
        world_dz: i8,
        world: &WorldConfig,
    )
        requires
            world.bounded(),
            0 <= old(self).position_x <= world.width * FIXED_POINT_SCALE,
            0 <= old(self).position_z <= world.depth * FIXED_POINT_SCALE,
            GROUND_LEVEL <= old(self).position_y <= MAX_HEIGHT,
            -504 <= old(self).velocity_x <= 504,
            -504 <= old(self).velocity_z <= 504,
            -1000 <= old(self).velocity_y <= 1000,
        ensures
            final(self)@ == spec_move3d(old(self)@, *input, world_dx, world_dz, world@),
            0 <= final(self).position_x <= world.width * FIXED_POINT_SCALE,
            0 <= final(self).position_z <= world.depth * FIXED_POINT_SCALE,
            GROUND_LEVEL <= final(self).position_y <= MAX_HEIGHT,
            -504 <= final(self).velocity_x <= 504,
            -504 <= final(self).velocity_z <= 504,
            -1000 <= final(self).velocity_y <= 1000,
    {
        let speed: i16 = if input.sprint {
            SPRINT_SPEED
        } else {
            NORMAL_SPEED
        };
        let target_vx: i16 = target_velocity(world_dx, speed);
        let target_vz: i16 = target_velocity(world_dz, speed);
        proof {
            assert(target_vx as int == spec_target_velocity(world_dx, input.sprint));
            assert(target_vz as int == spec_target_velocity(world_dz, input.sprint));
        }
        self.velocity_x = accelerate_toward(self.velocity_x, target_vx, ACCELERATION);
        self.velocity_z = accelerate_toward(self.velocity_z, target_vz, ACCELERATION);
        if input.jump && self.is_grounded {
            self.velocity_y = JUMP_VELOCITY;
            self.is_grounded = false;
        }
        if !self.is_grounded {
            let fallen = self.velocity_y as i32 + GRAVITY as i32;
            self.velocity_y = if fallen > TERMINAL_VELOCITY as i32 {
                fallen as i16
            } else {
                TERMINAL_VELOCITY
            };
        }
        if input.move_x == 0 && input.move_z == 0 && self.is_grounded {
            self.velocity_x = apply_friction(self.velocity_x, FRICTION);
            self.velocity_z = apply_friction(self.velocity_z, FRICTION);
        }
        let max_x = (world.width as i32) * FIXED_POINT_SCALE;
        let max_z = (world.depth as i32) * FIXED_POINT_SCALE;
        self.position_x = clamp_i32(self.position_x + self.velocity_x as i32, 0, max_x);
        self.position_z = clamp_i32(self.position_z + self.velocity_z as i32, 0, max_z);
        self.position_y = clamp_i32(self.position_y + self.velocity_y as i32, GROUND_LEVEL, MAX_HEIGHT);
        if self.position_y <= GROUND_LEVEL {
            self.position_y = GROUND_LEVEL;
            self.velocity_y = 0;
            self.is_grounded = true;
        }
        self.yaw = input.camera_yaw;
    }
}

} // verus!

verus! {

use vstd::bytes::{spec_u16_to_le_bytes, spec_u32_to_le_bytes, spec_u64_to_le_bytes};
use vstd::bytes::{u16_to_le_bytes, u32_to_le_bytes, u64_to_le_bytes};
use crate::wire::{dec_bytes, dec_u16, dec_u32, dec_u64};
use crate::wire::{lemma_dec_bytes, lemma_dec_u16, lemma_dec_u32, lemma_dec_u64};
use crate::wire::{read_key32, read_u16, read_u32, read_u64};

/// Mathematical value of a [`WorldConfig`].
#[verifier::ext_equal]
pub struct WorldConfigV {
    pub name: Seq<u8>,
    pub authority: Seq<u8>,
    pub width: u32,
    pub depth: u32,
    pub max_players: u16,
    pub player_count: u16,
    pub tick_rate: u8,
    pub bump: u8,
    pub l1_game: Seq<u8>,
    pub init_ts: i64,
}

impl View for WorldConfig {
    type V = WorldConfigV;

    open spec fn view(&self) -> WorldConfigV {
        WorldConfigV {
            name: self.name@,
            authority: self.authority@,
            width: self.width,
            depth: self.depth,
            max_players: self.max_players,
            player_count: self.player_count,
            tick_rate: self.tick_rate,
            bump: self.bump,
            l1_game: self.l1_game@,
            init_ts: self.init_ts,
        }
    }
}

/// Mathematical value of a [`WorldPlayer`].
#[verifier::ext_equal]
pub struct WorldPlayerV {
    pub authority: Seq<u8>,
    pub world: Seq<u8>,
    pub position_x: i32,
    pub position_z: i32,
    pub position_y: i32,
    pub velocity_x: i16,
    pub velocity_z: i16,
    pub velocity_y: i16,
    pub yaw: i16,
    pub health: u16,
    pub max_health: u16,
    pub last_action_slot: u64,
    pub last_combat_ts: i64,
    pub in_pvp_zone: bool,
    pub is_grounded: bool,
    pub bump: u8,
    pub name: Seq<u8>,
}

impl View for WorldPlayer {
    type V = WorldPlayerV;

    open spec fn view(&self) -> WorldPlayerV {
        WorldPlayerV {
            authority: self.authority@,
            world: self.world@,
            position_x: self.position_x,
            position_z: self.position_z,
            position_y: self.position_y,
            velocity_x: self.velocity_x,
            velocity_z: self.velocity_z,
            velocity_y: self.velocity_y,
            yaw: self.yaw,
            health: self.health,
            max_health: self.max_health,
            last_action_slot: self.last_action_slot,
            last_combat_ts: self.last_combat_ts,
            in_pvp_zone: self.in_pvp_zone,
            is_grounded: self.is_grounded,
            bump: self.bump,
            name: self.name@,
        }
    }
}

/// A boolean as its stored byte.
pub open spec fn bool_byte(b: bool) -> Seq<u8> {
    seq![
        if b {
            1u8
        } else {
            0u8
        },
    ]
}

/// Stored bytes of a world configuration: each field in declaration order,
/// integers little endian.
pub open spec fn enc_world_config(w: WorldConfigV) -> Seq<u8> {
    w.name + w.authority + spec_u32_to_le_bytes(w.width) + spec_u32_to_le_bytes(w.depth)
        + spec_u16_to_le_bytes(w.max_players) + spec_u16_to_le_bytes(w.player_count) + seq![
        w.tick_rate,
    ] + seq![w.bump] + w.l1_game + spec_u64_to_le_bytes(w.init_ts as u64)
}

/// Stored bytes of a player: each field in declaration order, integers
/// little endian, booleans one byte.
pub open spec fn enc_world_player(p: WorldPlayerV) -> Seq<u8> {
    p.authority + p.world + spec_u32_to_le_bytes(p.position_x as u32) + spec_u32_to_le_bytes(
        p.position_z as u32,
    ) + spec_u32_to_le_bytes(p.position_y as u32) + spec_u16_to_le_bytes(p.velocity_x as u16)
        + spec_u16_to_le_bytes(p.velocity_z as u16) + spec_u16_to_le_bytes(p.velocity_y as u16)
        + spec_u16_to_le_bytes(p.yaw as u16) + spec_u16_to_le_bytes(p.health)
        + spec_u16_to_le_bytes(p.max_health) + spec_u64_to_le_bytes(p.last_action_slot)
        + spec_u64_to_le_bytes(p.last_combat_ts as u64) + bool_byte(p.in_pvp_zone) + bool_byte(
        p.is_grounded,
    ) + seq![p.bump] + p.name
}

/// Encode a world configuration into its stored bytes.
pub fn encode_world_config(w: &WorldConfig) -> (r: Vec<u8>)
    ensures
        r@ == enc_world_config(w@),
        r@.len() == WORLD_CONFIG_LEN,
{
    let mut r: Vec<u8> = Vec::new();
    r.extend_from_slice(w.name.as_slice());
    r.extend_from_slice(w.authority.as_slice());
    let t = u32_to_le_bytes(w.width);
    r.extend_from_slice(t.as_slice());
    let t = u32_to_le_bytes(w.depth);
    r.extend_from_slice(t.as_slice());
    let t = u16_to_le_bytes(w.max_players);
    r.extend_from_slice(t.as_slice());
    let t = u16_to_le_bytes(w.player_count);
    r.extend_from_slice(t.as_slice());
    r.push(w.tick_rate);
    r.push(w.bump);
    r.extend_from_slice(w.l1_game.as_slice());
    let t = u64_to_le_bytes(#[verifier::truncate] (w.init_ts as u64));
    r.extend_from_slice(t.as_slice());
    proof {
        assert(r@ =~= enc_world_config(w@));
    }
    r
}

/// Encode a player into its stored bytes.
pub fn encode_world_player(p: &WorldPlayer) -> (r: Vec<u8>)
    ensures
        r@ == enc_world_player(p@),
        r@.len() == WORLD_PLAYER_LEN,
{
    let mut r: Vec<u8> = Vec::new();
    r.extend_from_slice(p.authority.as_slice());
    r.extend_from_slice(p.world.as_slice());
    let t = u32_to_le_bytes(#[verifier::truncate] (p.position_x as u32));
    r.extend_from_slice(t.as_slice());
    let t = u32_to_le_bytes(#[verifier::truncate] (p.position_z as u32));
    r.extend_from_slice(t.as_slice());
    let t = u32_to_le_bytes(#[verifier::truncate] (p.position_y as u32));
    r.extend_from_slice(t.as_slice());
    let t = u16_to_le_bytes(#[verifier::truncate] (p.velocity_x as u16));
    r.extend_from_slice(t.as_slice());
    let t = u16_to_le_bytes(#[verifier::truncate] (p.velocity_z as u16));
    r.extend_from_slice(t.as_slice());
    let t = u16_to_le_bytes(#[verifier::truncate] (p.velocity_y as u16));
    r.extend_from_slice(t.as_slice());
    let t = u16_to_le_bytes(#[verifier::truncate] (p.yaw as u16));
    r.extend_from_slice(t.as_slice());
    let t = u16_to_le_bytes(p.health);
    r.extend_from_slice(t.as_slice());
    let t = u16_to_le_bytes(p.max_health);
    r.extend_from_slice(t.as_slice());
    let t = u64_to_le_bytes(p.last_action_slot);
    r.extend_from_slice(t.as_slice());
    let t = u64_to_le_bytes(#[verifier::truncate] (p.last_combat_ts as u64));
    r.extend_from_slice(t.as_slice());
    if p.in_pvp_zone {
        r.push(1u8);
    } else {
        r.push(0u8);
    }
    if p.is_grounded {
        r.push(1u8);
    } else {
        r.push(0u8);
    }
    r.push(p.bump);
    r.extend_from_slice(p.name.as_slice());
    proof {
        assert(r@ =~= enc_world_player(p@));
    }
    r
}

} // verus!

verus! {

/// Parse a world configuration; trailing bytes are refused.
pub open spec fn dec_world_config(b: Seq<u8>) -> Option<WorldConfigV> {
    if b.len() != WORLD_CONFIG_LEN {
        None
    } else {
        match dec_bytes(b, 32) {
            None => None,
            Some((name, b)) => match dec_bytes(b, 32) {
                None => None,
                Some((authority, b)) => match dec_u32(b) {
                    None => None,
                    Some((width, b)) => match dec_u32(b) {
                        None => None,
                        Some((depth, b)) => match dec_u16(b) {
                            None => None,
                            Some((max_players, b)) => match dec_u16(b) {
                                None => None,
                                Some((player_count, b)) => if b.len() < 2 {
                                    None
                                } else {
                                    let tick_rate = b[0];
                                    let bump = b[1];
                                    match dec_bytes(b.skip(2), 32) {
                                        None => None,
                                        Some((l1_game, b)) => match dec_u64(b) {
                                            None => None,
                                            Some((ts, rest)) => if rest.len() == 0 {
                                                Some(
                                                    WorldConfigV {
                                                        name,
                                                        authority,
                                                        width,
                                                        depth,
                                                        max_players,
                                                        player_count,
                                                        tick_rate,
                                                        bump,
                                                        l1_game,
                                                        init_ts: ts as i64,
                                                    },
                                                )
                                            } else {
                                                None
                                            },
                                        },
                                    }
                                },
                            },
                        },
                    },
                },
            },
        }
    }
}

/// Parse a player; trailing bytes are refused.
pub open spec fn dec_world_player(b: Seq<u8>) -> Option<WorldPlayerV> {
    if b.len() != WORLD_PLAYER_LEN {
        None
    } else {
        match dec_bytes(b, 32) {
            None => None,
            Some((authority, b)) => match dec_bytes(b, 32) {
                None => None,
                Some((world, b)) => match dec_u32(b) {
                    None => None,
                    Some((px, b)) => match dec_u32(b) {
                        None => None,
                        Some((pz, b)) => match dec_u32(b) {
                            None => None,
                            Some((py, b)) => match dec_u16(b) {
                                None => None,
                                Some((vx, b)) => match dec_u16(b) {
                                    None => None,
                                    Some((vz, b)) => match dec_u16(b) {
                                        None => None,
                                        Some((vy, b)) => match dec_u16(b) {
                                            None => None,
                                            Some((yaw, b)) => match dec_u16(b) {
                                                None => None,
                                                Some((health, b)) => match dec_u16(b) {
                                                    None => None,
                                                    Some((max_health, b)) => match dec_u64(b) {
                                                        None => None,
                                                        Some((last_action_slot, b)) => match dec_u64(b) {
                                                            None => None,
                                                            Some((last_combat, b)) => if b.len() < 3
                                                                || (b[0] != 0 && b[0] != 1) || (
                                                            b[1] != 0 && b[1] != 1) {
                                                                None
                                                            } else {
                                                                let in_pvp_zone = b[0] == 1;
                                                                let is_grounded = b[1] == 1;
                                                                let bump = b[2];
                                                                match dec_bytes(b.skip(3), 16) {
                                                                    None => None,
                                                                    Some((name, rest)) => if rest.len() == 0 {
                                                                        Some(
                                                                            WorldPlayerV {
                                                                                authority,
                                                                                world,
                                                                                position_x: px as i32,
                                                                                position_z: pz as i32,
                                                                                position_y: py as i32,
                                                                                velocity_x: vx as i16,
                                                                                velocity_z: vz as i16,
                                                                                velocity_y: vy as i16,
                                                                                yaw: yaw as i16,
                                                                                health,
                                                                                max_health,
                                                                                last_action_slot,
                                                                                last_combat_ts: last_combat as i64,
                                                                                in_pvp_zone,
                                                                                is_grounded,
                                                                                bump,
                                                                                name,
                                                                            },
                                                                        )
                                                                    } else {
                                                                        None
                                                                    },
                                                                }
                                                            },
                                                        },
                                                    },
                                                },
                                            },
                                        },
                                    },
                                },
                            },
                        },
                    },
                },
            },
        }
    }
}

/// Round trip: a stored world configuration parses back to itself.
#[verifier::spinoff_prover]
#[verifier::rlimit(80)]
pub proof fn lemma_dec_world_config(w: WorldConfigV)
    requires
        w.name.len() == 32,
        w.authority.len() == 32,
        w.l1_game.len() == 32,
    ensures
        dec_world_config(enc_world_config(w)) == Some(w),
{
    let b = enc_world_config(w);
    let t1 = w.authority + spec_u32_to_le_bytes(w.width) + spec_u32_to_le_bytes(w.depth)
        + spec_u16_to_le_bytes(w.max_players) + spec_u16_to_le_bytes(w.player_count) + seq![
        w.tick_rate,
    ] + seq![w.bump] + w.l1_game + spec_u64_to_le_bytes(w.init_ts as u64);
    assert(b =~= w.name + t1);
    lemma_dec_bytes(w.name, t1);
    let t2 = spec_u32_to_le_bytes(w.width) + spec_u32_to_le_bytes(w.depth) + spec_u16_to_le_bytes(
        w.max_players,
    ) + spec_u16_to_le_bytes(w.player_count) + seq![w.tick_rate] + seq![w.bump] + w.l1_game
        + spec_u64_to_le_bytes(w.init_ts as u64);
    assert(t1 =~= w.authority + t2);
    lemma_dec_bytes(w.authority, t2);
    let t3 = spec_u32_to_le_bytes(w.depth) + spec_u16_to_le_bytes(w.max_players)
        + spec_u16_to_le_bytes(w.player_count) + seq![w.tick_rate] + seq![w.bump] + w.l1_game
        + spec_u64_to_le_bytes(w.init_ts as u64);
    assert(t2 =~= spec_u32_to_le_bytes(w.width) + t3);
    lemma_dec_u32(w.width, t3);
    let t4 = spec_u16_to_le_bytes(w.max_players) + spec_u16_to_le_bytes(w.player_count) + seq![
        w.tick_rate,
    ] + seq![w.bump] + w.l1_game + spec_u64_to_le_bytes(w.init_ts as u64);
    assert(t3 =~= spec_u32_to_le_bytes(w.depth) + t4);
    lemma_dec_u32(w.depth, t4);
    let t5 = spec_u16_to_le_bytes(w.player_count) + seq![w.tick_rate] + seq![w.bump] + w.l1_game
        + spec_u64_to_le_bytes(w.init_ts as u64);
    assert(t4 =~= spec_u16_to_le_bytes(w.max_players) + t5);
    lemma_dec_u16(w.max_players, t5);
    let t6 = seq![w.tick_rate] + seq![w.bump] + w.l1_game + spec_u64_to_le_bytes(w.init_ts as u64);
    assert(t5 =~= spec_u16_to_le_bytes(w.player_count) + t6);
    lemma_dec_u16(w.player_count, t6);
    assert(t6[0] == w.tick_rate);
    assert(t6[1] == w.bump);
    let t7 = w.l1_game + spec_u64_to_le_bytes(w.init_ts as u64);
    assert(t6.skip(2) =~= t7);
    assert(t7 =~= w.l1_game + (spec_u64_to_le_bytes(w.init_ts as u64) + Seq::<u8>::empty()));
    lemma_dec_bytes(w.l1_game, spec_u64_to_le_bytes(w.init_ts as u64) + Seq::<u8>::empty());
    lemma_dec_u64(w.init_ts as u64, Seq::empty());
    let ts = w.init_ts;
    assert(ts as u64 as i64 == ts) by (bit_vector);
    vstd::bytes::lemma_auto_spec_u64_to_from_le_bytes();
    vstd::bytes::lemma_auto_spec_u32_to_from_le_bytes();
    vstd::bytes::lemma_auto_spec_u16_to_from_le_bytes();
    assert(b.len() == WORLD_CONFIG_LEN);
    assert(dec_world_config(b) =~= Some(w));
}

/// Round trip: a stored player parses back to itself.
#[verifier::spinoff_prover]
#[verifier::rlimit(100)]
pub proof fn lemma_dec_world_player(p: WorldPlayerV)
    requires
        p.authority.len() == 32,
        p.world.len() == 32,
        p.name.len() == 16,
    ensures
        dec_world_player(enc_world_player(p)) == Some(p),
{
    let b = enc_world_player(p);
    let i64x = p.last_combat_ts;
    assert(i64x as u64 as i64 == i64x) by (bit_vector);
    let i32x = p.position_x;
    let i32z = p.position_z;
    let i32y = p.position_y;
    assert(i32x as u32 as i32 == i32x && i32z as u32 as i32 == i32z && i32y as u32 as i32
        == i32y) by (bit_vector);
    let v16x = p.velocity_x;
    let v16z = p.velocity_z;
    let v16y = p.velocity_y;
    let yaw16 = p.yaw;
    assert(v16x as u16 as i16 == v16x && v16z as u16 as i16 == v16z && v16y as u16 as i16 == v16y
        && yaw16 as u16 as i16 == yaw16) by (bit_vector);
    vstd::bytes::lemma_auto_spec_u64_to_from_le_bytes();
    vstd::bytes::lemma_auto_spec_u32_to_from_le_bytes();
    vstd::bytes::lemma_auto_spec_u16_to_from_le_bytes();
    let rest17 = bool_byte(p.in_pvp_zone) + bool_byte(p.is_grounded) + seq![p.bump] + p.name;
    let rest16 = spec_u64_to_le_bytes(p.last_combat_ts as u64) + rest17;
    let rest15 = spec_u64_to_le_bytes(p.last_action_slot) + rest16;
    let rest14 = spec_u16_to_le_bytes(p.max_health) + rest15;
    let rest13 = spec_u16_to_le_bytes(p.health) + rest14;
    let rest12 = spec_u16_to_le_bytes(p.yaw as u16) + rest13;
    let rest11 = spec_u16_to_le_bytes(p.velocity_y as u16) + rest12;
    let rest10 = spec_u16_to_le_bytes(p.velocity_z as u16) + rest11;
    let rest9 = spec_u16_to_le_bytes(p.velocity_x as u16) + rest10;
    let rest8 = spec_u32_to_le_bytes(p.position_y as u32) + rest9;
    let rest7 = spec_u32_to_le_bytes(p.position_z as u32) + rest8;
    let rest6 = spec_u32_to_le_bytes(p.position_x as u32) + rest7;
    let rest5 = p.world + rest6;
    assert(b =~= p.authority + rest5);
    lemma_dec_bytes(p.authority, rest5);
    assert(rest5 =~= p.world + rest6);
    lemma_dec_bytes(p.world, rest6);
    lemma_dec_u32(p.position_x as u32, rest7);
    assert(rest6 =~= spec_u32_to_le_bytes(p.position_x as u32) + rest7);
    lemma_dec_u32(p.position_z as u32, rest8);
    assert(rest7 =~= spec_u32_to_le_bytes(p.position_z as u32) + rest8);
    lemma_dec_u32(p.position_y as u32, rest9);
    assert(rest8 =~= spec_u32_to_le_bytes(p.position_y as u32) + rest9);
    lemma_dec_u16(p.velocity_x as u16, rest10);
    assert(rest9 =~= spec_u16_to_le_bytes(p.velocity_x as u16) + rest10);
    lemma_dec_u16(p.velocity_z as u16, rest11);
    assert(rest10 =~= spec_u16_to_le_bytes(p.velocity_z as u16) + rest11);
    lemma_dec_u16(p.velocity_y as u16, rest12);
    assert(rest11 =~= spec_u16_to_le_bytes(p.velocity_y as u16) + rest12);
    lemma_dec_u16(p.yaw as u16, rest13);
    assert(rest12 =~= spec_u16_to_le_bytes(p.yaw as u16) + rest13);
    lemma_dec_u16(p.health, rest14);
    assert(rest13 =~= spec_u16_to_le_bytes(p.health) + rest14);
    lemma_dec_u16(p.max_health, rest15);
    assert(rest14 =~= spec_u16_to_le_bytes(p.max_health) + rest15);
    lemma_dec_u64(p.last_action_slot, rest16);
    assert(rest15 =~= spec_u64_to_le_bytes(p.last_action_slot) + rest16);
    lemma_dec_u64(p.last_combat_ts as u64, rest17);
    assert(rest16 =~= spec_u64_to_le_bytes(p.last_combat_ts as u64) + rest17);
    assert(rest17[0] == bool_byte(p.in_pvp_zone)[0]);
    assert(rest17[1] == bool_byte(p.is_grounded)[0]);
    assert(rest17[2] == p.bump);
    assert(rest17.skip(3) =~= p.name + Seq::<u8>::empty());
    lemma_dec_bytes(p.name, Seq::empty());
    assert(b.len() == WORLD_PLAYER_LEN);
    assert(dec_world_player(b) =~= Some(p));
}

/// A parsed world configuration has 32-byte key fields, and came from a
/// record of the fixed length.
pub proof fn lemma_dec_world_config_wf(b: Seq<u8>)
    requires
        dec_world_config(b) is Some,
    ensures
        b.len() == WORLD_CONFIG_LEN,
        dec_world_config(b)->Some_0.name.len() == 32,
        dec_world_config(b)->Some_0.authority.len() == 32,
        dec_world_config(b)->Some_0.l1_game.len() == 32,
{
}

/// A parsed player has 32-byte key fields and a 16-byte name, and came from
/// a record of the fixed length.
pub proof fn lemma_dec_world_player_wf(b: Seq<u8>)
    requires
        dec_world_player(b) is Some,
    ensures
        b.len() == WORLD_PLAYER_LEN,
        dec_world_player(b)->Some_0.authority.len() == 32,
        dec_world_player(b)->Some_0.world.len() == 32,
        dec_world_player(b)->Some_0.name.len() == 16,
{
}

/// An encoded configuration with 32-byte key fields has the fixed length.
pub proof fn lemma_enc_world_config_len(w: WorldConfigV)
    requires
        w.name.len() == 32,
        w.authority.len() == 32,
        w.l1_game.len() == 32,
    ensures
        enc_world_config(w).len() == WORLD_CONFIG_LEN,
{
    vstd::bytes::lemma_auto_spec_u64_to_from_le_bytes();
    vstd::bytes::lemma_auto_spec_u32_to_from_le_bytes();
    vstd::bytes::lemma_auto_spec_u16_to_from_le_bytes();
}

/// An encoded player with 32-byte key fields and a 16-byte name has the
/// fixed length.
pub proof fn lemma_enc_world_player_len(p: WorldPlayerV)
    requires
        p.authority.len() == 32,
        p.world.len() == 32,
        p.name.len() == 16,
    ensures
        enc_world_player(p).len() == WORLD_PLAYER_LEN,
{
    vstd::bytes::lemma_auto_spec_u64_to_from_le_bytes();
    vstd::bytes::lemma_auto_spec_u32_to_from_le_bytes();
    vstd::bytes::lemma_auto_spec_u16_to_from_le_bytes();
}

/// Decode a world configuration from its stored bytes.
pub fn decode_world_config(b: &[u8]) -> (r: Option<WorldConfig>)
    ensures
        match r {
            Some(w) => dec_world_config(b@) == Some(w@),
            None => dec_world_config(b@) is None,
        },
{
    if b.len() != WORLD_CONFIG_LEN {
        return None;
    }
    proof {
        assert(b@.skip(0) =~= b@);
    }
    let (name, p1) = match read_key32(b, 0) {
        Some(p) => p,
        None => {
            return None;
        },
    };
    let (authority, p2) = match read_key32(b, p1) {
        Some(p) => p,
        None => {
            return None;
        },
    };
    let (width, p3) = match read_u32(b, p2) {
        Some(p) => p,
        None => {
            return None;
        },
    };
    let (depth, p4) = match read_u32(b, p3) {
        Some(p) => p,
        None => {
            return None;
        },
    };
    let (max_players, p5) = match read_u16(b, p4) {
        Some(p) => p,
        None => {
            return None;
        },
    };
    let (player_count, p6) = match read_u16(b, p5) {
        Some(p) => p,
        None => {
            return None;
        },
    };
    let tick_rate = b[p6];
    let bump = b[p6 + 1];
    proof {
        assert(b@.skip(p6 as int)[0] == b@[p6 as int]);
        assert(b@.skip(p6 as int)[1] == b@[p6 + 1]);
        assert(b@.skip(p6 as int).skip(2) =~= b@.skip(p6 + 2));
    }
    let (l1_game, p7) = match read_key32(b, p6 + 2) {
        Some(p) => p,
        None => {
            return None;
        },
    };
    let (ts, p8) = match read_u64(b, p7) {
        Some(p) => p,
        None => {
            return None;
        },
    };
    proof {
        assert(b@.skip(p8 as int) =~= Seq::<u8>::empty());
    }
    Some(
        WorldConfig {
            name,
            authority,
            width,
            depth,
            max_players,
            player_count,
            tick_rate,
            bump,
            l1_game,
            init_ts: #[verifier::truncate] (ts as i64),
        },
    )
}

/// Decode a player from its stored bytes.
#[verifier::rlimit(80)]
pub fn decode_world_player(b: &[u8]) -> (r: Option<WorldPlayer>)
    ensures
        match r {
            Some(p) => dec_world_player(b@) == Some(p@),
            None => dec_world_player(b@) is None,
        },
{
    if b.len() != WORLD_PLAYER_LEN {
        return None;
    }
    proof {
        assert(b@.skip(0) =~= b@);
    }
    let (authority, p1) = match read_key32(b, 0) {
        Some(p) => p,
        None => {
            return None;
        },
    };
    let (world, p2) = match read_key32(b, p1) {
        Some(p) => p,
        None => {
            return None;
        },
    };
    let (px, p3) = match read_u32(b, p2) {
        Some(p) => p,
        None => {
            return None;
        },
    };
    let (pz, p4) = match read_u32(b, p3) {
        Some(p) => p,
        None => {
            return None;
        },
    };
    let (py, p5) = match read_u32(b, p4) {
        Some(p) => p,
        None => {
            return None;
        },
    };
    let (vx, p6) = match read_u16(b, p5) {
        Some(p) => p,
        None => {
            return None;
        },
    };
    let (vz, p7) = match read_u16(b, p6) {
        Some(p) => p,
        None => {
            return None;
        },
    };
    let (vy, p8) = match read_u16(b, p7) {
        Some(p) => p,
        None => {
            return None;
        },
    };
    let (yaw, p9) = match read_u16(b, p8) {
        Some(p) => p,
        None => {
            return None;
        },
    };
    let (health, p10) = match read_u16(b, p9) {
        Some(p) => p,
        None => {
            return None;
        },
    };
    let (max_health, p11) = match read_u16(b, p10) {
        Some(p) => p,
        None => {
            return None;
        },
    };
    let (last_action_slot, p12) = match read_u64(b, p11) {
        Some(p) => p,
        None => {
            return None;
        },
    };
    let (last_combat, p13) = match read_u64(b, p12) {
        Some(p) => p,
        None => {
            return None;
        },
    };
    let f1 = b[p13];
    let f2 = b[p13 + 1];
    let bump = b[p13 + 2];
    proof {
        assert(b@.skip(p13 as int)[0] == b@[p13 as int]);
        assert(b@.skip(p13 as int)[1] == b@[p13 + 1]);
        assert(b@.skip(p13 as int)[2] == b@[p13 + 2]);
        assert(b@.skip(p13 as int).skip(3) =~= b@.skip(p13 + 3));
    }
    if f1 != 0 && f1 != 1 {
        return None;
    }
    if f2 != 0 && f2 != 1 {
        return None;
    }
    let in_pvp_zone = f1 == 1;
    let is_grounded = f2 == 1;
    let mut name = [0u8; 16];
    let mut i: usize = 0;
    let name_start = p13 + 3;
    let blen = b.len();
    while i < 16
        invariant
            blen == b@.len(),
            name_start + 16 <= blen,
            i <= 16,
            forall|j: int| 0 <= j < i ==> name@[j] == b@[name_start + j],
        decreases 16 - i,
    {
        name.set(i, b[name_start + i]);
        i = i + 1;
    }
    proof {
        assert(name@ =~= b@.skip(name_start as int).take(16));
        assert(b@.skip(name_start as int).skip(16) =~= b@.skip(name_start + 16));
        assert(b@.skip(name_start + 16) =~= Seq::<u8>::empty());
    }
    Some(
        WorldPlayer {
            authority,
            world,
            position_x: #[verifier::truncate] (px as i32),
            position_z: #[verifier::truncate] (pz as i32),
            position_y: #[verifier::truncate] (py as i32),
            velocity_x: #[verifier::truncate] (vx as i16),
            velocity_z: #[verifier::truncate] (vz as i16),
            velocity_y: #[verifier::truncate] (vy as i16),
            yaw: #[verifier::truncate] (yaw as i16),
            health,
            max_health,
            last_action_slot,
            last_combat_ts: #[verifier::truncate] (last_combat as i64),
            in_pvp_zone,
            is_grounded,
            bump,
            name,
        },
    )
}

} // verus!

verus! {

/// The full state a 3D movement step leaves a player in. The camera-relative
/// stick values have already been rotated into the world-space direction
/// `(wdx, wdz)`.
pub open spec fn spec_move3d(
    p: WorldPlayerV,
    input: MovementInput3D,
    wdx: i8,
    wdz: i8,
    world: WorldConfigV,
) -> WorldPlayerV {
    let vx = spec_accelerate(
        p.velocity_x as int,
        spec_target_velocity(wdx, input.sprint),
        ACCELERATION as int,
    );
    let vz = spec_accelerate(
        p.velocity_z as int,
        spec_target_velocity(wdz, input.sprint),
        ACCELERATION as int,
    );
    let vy_jumped = if input.jump && p.is_grounded {
        JUMP_VELOCITY as int
    } else {
        p.velocity_y as int
    };
    let grounded_after_jump = if input.jump && p.is_grounded {
        false
    } else {
        p.is_grounded
    };
    let vy = if !grounded_after_jump {
        if vy_jumped + GRAVITY > TERMINAL_VELOCITY as int {
            vy_jumped + GRAVITY
        } else {
            TERMINAL_VELOCITY as int
        }
    } else {
        vy_jumped
    };
    let vx2 = if input.move_x == 0 && input.move_z == 0 && grounded_after_jump {
        spec_friction(vx, FRICTION as int)
    } else {
        vx
    };
    let vz2 = if input.move_x == 0 && input.move_z == 0 && grounded_after_jump {
        spec_friction(vz, FRICTION as int)
    } else {
        vz
    };
    let px = spec_clamp(p.position_x + vx2, 0, world.width * FIXED_POINT_SCALE);
    let pz = spec_clamp(p.position_z + vz2, 0, world.depth * FIXED_POINT_SCALE);
    let py = spec_clamp(p.position_y + vy, GROUND_LEVEL as int, MAX_HEIGHT as int);
    let landed = py <= GROUND_LEVEL;
    WorldPlayerV {
        position_x: px as i32,
        position_z: pz as i32,
        position_y: if landed {
            GROUND_LEVEL
        } else {
            py as i32
        },
        velocity_x: vx2 as i16,
        velocity_z: vz2 as i16,
        velocity_y: if landed {
            0i16
        } else {
            vy as i16
        },
        yaw: input.camera_yaw,
        is_grounded: if landed {
            true
        } else {
            grounded_after_jump
        },
        ..p
    }
}


/// The full state an eight-way movement step leaves a player in.
pub open spec fn spec_move2d(
    p: WorldPlayerV,
    direction: u8,
    sprint: bool,
    world: WorldConfigV,
) -> WorldPlayerV {
    let (dx, dz) = spec_direction_to_vector(direction);
    let vx = dx * spec_speed(sprint);
    let vz = dz * spec_speed(sprint);
    WorldPlayerV {
        velocity_x: vx as i16,
        velocity_z: vz as i16,
        yaw: if direction < 8 {
            ((direction * 8192) as u16) as i16
        } else {
            p.yaw
        },
        position_x: spec_clamp(p.position_x + vx, 0, world.width * FIXED_POINT_SCALE) as i32,
        position_z: spec_clamp(p.position_z + vz, 0, world.depth * FIXED_POINT_SCALE) as i32,
        ..p
    }
}

} // verus!
