//! The world program: the game logic hosted by the runtime. Its state lives
//! in account bytes keyed by derived addresses; its instructions move, heal
//! and fight players inside a bounded world.

pub mod state;
pub mod instruction;
pub mod processor;
pub mod error;

use vstd::prelude::*;

verus! {

/// Health a player starts with.
pub const DEFAULT_HEALTH: u16 = 100;

/// Ceiling for health.
pub const DEFAULT_MAX_HEALTH: u16 = 100;

/// Damage dealt when no weapon stats are supplied.
pub const DEFAULT_DAMAGE: u16 = 10;

/// Healing applied when no amount is supplied.
pub const DEFAULT_HEAL: u16 = 20;

/// Sprinting speed, in fixed-point units per tick.
pub const SPRINT_SPEED: i16 = 500;

/// Walking speed, in fixed-point units per tick.
pub const NORMAL_SPEED: i16 = 250;

/// Velocity gained per tick toward the target velocity.
pub const ACCELERATION: i16 = 100;

/// Velocity lost per tick on the ground with no input.
pub const FRICTION: i16 = 50;

/// Downward velocity gained per airborne tick.
pub const GRAVITY: i16 = -30;

/// Upward velocity at the start of a jump.
pub const JUMP_VELOCITY: i16 = 400;

/// Fastest allowed fall.
pub const TERMINAL_VELOCITY: i16 = -800;

/// Height of the ground plane.
pub const GROUND_LEVEL: i32 = 0;

/// Highest reachable height.
pub const MAX_HEIGHT: i32 = 50_000;

/// Fixed-point scale: one world unit.
pub const FIXED_POINT_SCALE: i32 = 1000;

/// Fastest allowed speed.
pub const MAX_SPEED: i16 = SPRINT_SPEED;

} // verus!
