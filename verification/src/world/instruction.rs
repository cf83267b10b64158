//! The world program's instruction set and its byte format: a one-byte
//! variant tag followed by the variant's fields in declaration order,
//! integers little endian, booleans and options one byte. Decoding is
//! proved to invert encoding.

use vstd::prelude::*;
use vstd::bytes::{spec_u16_to_le_bytes, spec_u32_to_le_bytes, u16_to_le_bytes, u32_to_le_bytes};
use crate::wire::{
    dec_bytes, dec_u16, dec_u32, lemma_dec_bytes, lemma_dec_u16, lemma_dec_u32, read_key32,
    read_u16, read_u32,
};
use crate::world::state::{bool_byte, MovementInput, MovementInput3D, WeaponStats};

verus! {

/// Everything the world program can be asked to do.
#[derive(Debug, Clone, Copy)]
pub enum WorldInstruction {
    /// Create a world with a name, dimensions and a player limit.
    InitializeWorld { name: [u8; 32], width: u32, height: u32, max_players: u16 },
    /// Create a player in the world, at its centre.
    JoinWorld { name: [u8; 16] },
    /// Eight-way movement.
    MovePlayer { input: MovementInput },
    /// Attack another player, with supplied or default weapon stats.
    Attack { weapon_stats: Option<WeaponStats> },
    /// Heal the player by the given amount, or the default when zero.
    Heal { amount: u16 },
    /// Leave the world.
    LeaveWorld,
    /// Change the world's player limit.
    UpdateWorld { max_players: Option<u16> },
    /// Mark the player as inside or outside the contested zone.
    SetPvpZone { in_pvp_zone: bool },
    /// Camera-relative 3D movement with physics.
    MovePlayer3D { input: MovementInput3D },
}

/// Mathematical value of a [`WorldInstruction`].
#[verifier::ext_equal]
pub enum WorldInstructionV {
    InitializeWorld { name: Seq<u8>, width: u32, height: u32, max_players: u16 },
    JoinWorld { name: Seq<u8> },
    MovePlayer { input: MovementInput },
    Attack { weapon_stats: Option<WeaponStats> },
    Heal { amount: u16 },
    LeaveWorld,
    UpdateWorld { max_players: Option<u16> },
    SetPvpZone { in_pvp_zone: bool },
    MovePlayer3D { input: MovementInput3D },
}

impl View for WorldInstruction {
    type V = WorldInstructionV;

    open spec fn view(&self) -> WorldInstructionV {
        match self {
            WorldInstruction::InitializeWorld { name, width, height, max_players } => {
                WorldInstructionV::InitializeWorld {
                    name: name@,
                    width: *width,
                    height: *height,
                    max_players: *max_players,
                }
            },
            WorldInstruction::JoinWorld { name } => WorldInstructionV::JoinWorld { name: name@ },
            WorldInstruction::MovePlayer { input } => WorldInstructionV::MovePlayer {
                input: *input,
            },
            WorldInstruction::Attack { weapon_stats } => WorldInstructionV::Attack {
                weapon_stats: *weapon_stats,
            },
            WorldInstruction::Heal { amount } => WorldInstructionV::Heal { amount: *amount },
            WorldInstruction::LeaveWorld => WorldInstructionV::LeaveWorld,
            WorldInstruction::UpdateWorld { max_players } => WorldInstructionV::UpdateWorld {
                max_players: *max_players,
            },
            WorldInstruction::SetPvpZone { in_pvp_zone } => WorldInstructionV::SetPvpZone {
                in_pvp_zone: *in_pvp_zone,
            },
            WorldInstruction::MovePlayer3D { input } => WorldInstructionV::MovePlayer3D {
                input: *input,
            },
        }
    }
}

/// Stored bytes of optional weapon stats.
pub open spec fn enc_weapon_option(w: Option<WeaponStats>) -> Seq<u8> {
    match w {
        None => seq![0u8],
        Some(s) => seq![1u8] + spec_u16_to_le_bytes(s.damage) + spec_u16_to_le_bytes(s.range)
            + seq![s.attack_speed],
    }
}

/// Stored bytes of an optional player limit.
pub open spec fn enc_u16_option(v: Option<u16>) -> Seq<u8> {
    match v {
        None => seq![0u8],
        Some(x) => seq![1u8] + spec_u16_to_le_bytes(x),
    }
}

/// The instruction's bytes: its tag, then its fields.
pub open spec fn enc_instruction(w: WorldInstructionV) -> Seq<u8> {
    match w {
        WorldInstructionV::InitializeWorld { name, width, height, max_players } => seq![0u8]
            + name + spec_u32_to_le_bytes(width) + spec_u32_to_le_bytes(height)
            + spec_u16_to_le_bytes(max_players),
        WorldInstructionV::JoinWorld { name } => seq![1u8] + name,
        WorldInstructionV::MovePlayer { input } => seq![2u8] + seq![input.direction] + bool_byte(
            input.sprint,
        ),
        WorldInstructionV::Attack { weapon_stats } => seq![3u8] + enc_weapon_option(weapon_stats),
        WorldInstructionV::Heal { amount } => seq![4u8] + spec_u16_to_le_bytes(amount),
        WorldInstructionV::LeaveWorld => seq![5u8],
        WorldInstructionV::UpdateWorld { max_players } => seq![6u8] + enc_u16_option(max_players),
        WorldInstructionV::SetPvpZone { in_pvp_zone } => seq![7u8] + bool_byte(in_pvp_zone),
        WorldInstructionV::MovePlayer3D { input } => seq![8u8] + seq![input.move_x as u8]
            + seq![input.move_z as u8] + spec_u16_to_le_bytes(input.camera_yaw as u16)
            + bool_byte(input.sprint) + bool_byte(input.jump),
    }
}

/// Parse a boolean byte.
pub open spec fn dec_bool(b: Seq<u8>) -> Option<(bool, Seq<u8>)> {
    if b.len() < 1 || (b[0] != 0 && b[0] != 1) {
        None
    } else {
        Some((b[0] == 1, b.skip(1)))
    }
}

/// Parse an instruction; trailing bytes are refused.
pub open spec fn dec_instruction(b: Seq<u8>) -> Option<WorldInstructionV> {
    if b.len() < 1 {
        None
    } else {
        let tag = b[0];
        let p = b.skip(1);
        if tag == 0 {
            match dec_bytes(p, 32) {
                None => None,
                Some((name, p)) => match dec_u32(p) {
                    None => None,
                    Some((width, p)) => match dec_u32(p) {
                        None => None,
                        Some((height, p)) => match dec_u16(p) {
                            None => None,
                            Some((max_players, rest)) => if rest.len() == 0 {
                                Some(
                                    WorldInstructionV::InitializeWorld {
                                        name,
                                        width,
                                        height,
                                        max_players,
                                    },
                                )
                            } else {
                                None
                            },
                        },
                    },
                },
            }
        } else if tag == 1 {
            match dec_bytes(p, 16) {
                None => None,
                Some((name, rest)) => if rest.len() == 0 {
                    Some(WorldInstructionV::JoinWorld { name })
                } else {
                    None
                },
            }
        } else if tag == 2 {
            if p.len() < 1 {
                None
            } else {
                let direction = p[0];
                match dec_bool(p.skip(1)) {
                    None => None,
                    Some((sprint, rest)) => if rest.len() == 0 {
                        Some(
                            WorldInstructionV::MovePlayer {
                                input: MovementInput { direction, sprint },
                            },
                        )
                    } else {
                        None
                    },
                }
            }
        } else if tag == 3 {
            if p.len() < 1 || (p[0] != 0 && p[0] != 1) {
                None
            } else if p[0] == 0 {
                if p.len() == 1 {
                    Some(WorldInstructionV::Attack { weapon_stats: None })
                } else {
                    None
                }
            } else {
                match dec_u16(p.skip(1)) {
                    None => None,
                    Some((damage, p)) => match dec_u16(p) {
                        None => None,
                        Some((range, p)) => if p.len() == 1 {
                            Some(
                                WorldInstructionV::Attack {
                                    weapon_stats: Some(
                                        WeaponStats { damage, range, attack_speed: p[0] },
                                    ),
                                },
                            )
                        } else {
                            None
                        },
                    },
                }
            }
        } else if tag == 4 {
            match dec_u16(p) {
                None => None,
                Some((amount, rest)) => if rest.len() == 0 {
                    Some(WorldInstructionV::Heal { amount })
                } else {
                    None
                },
            }
        } else if tag == 5 {
            if p.len() == 0 {
                Some(WorldInstructionV::LeaveWorld)
            } else {
                None
            }
        } else if tag == 6 {
            if p.len() < 1 || (p[0] != 0 && p[0] != 1) {
                None
            } else if p[0] == 0 {
                if p.len() == 1 {
                    Some(WorldInstructionV::UpdateWorld { max_players: None })
                } else {
                    None
                }
            } else {
                match dec_u16(p.skip(1)) {
                    None => None,
                    Some((max_players, rest)) => if rest.len() == 0 {
                        Some(WorldInstructionV::UpdateWorld { max_players: Some(max_players) })
                    } else {
                        None
                    },
                }
            }
        } else if tag == 7 {
            match dec_bool(p) {
                None => None,
                Some((in_pvp_zone, rest)) => if rest.len() == 0 {
                    Some(WorldInstructionV::SetPvpZone { in_pvp_zone })
                } else {
                    None
                },
            }
        } else if tag == 8 {
            if p.len() < 2 {
                None
            } else {
                let move_x = p[0] as i8;
                let move_z = p[1] as i8;
                match dec_u16(p.skip(2)) {
                    None => None,
                    Some((yaw, p)) => match dec_bool(p) {
                        None => None,
                        Some((sprint, p)) => match dec_bool(p) {
                            None => None,
                            Some((jump, rest)) => if rest.len() == 0 {
                                Some(
                                    WorldInstructionV::MovePlayer3D {
                                        input: MovementInput3D {
                                            move_x,
                                            move_z,
                                            camera_yaw: yaw as i16,
                                            sprint,
                                            jump,
                                        },
                                    },
                                )
                            } else {
                                None
                            },
                        },
                    },
                }
            }
        } else {
            None
        }
    }
}

/// Round trip: decoding an encoded instruction gives the instruction back.
#[verifier::spinoff_prover]
#[verifier::rlimit(100)]
pub proof fn lemma_dec_instruction(w: WorldInstructionV)
    requires
        (w matches WorldInstructionV::InitializeWorld { name, .. } ==> name.len() == 32),
        (w matches WorldInstructionV::JoinWorld { name } ==> name.len() == 16),
    ensures
        dec_instruction(enc_instruction(w)) == Some(w),
{
    let b = enc_instruction(w);
    match w {
        WorldInstructionV::InitializeWorld { name, width, height, max_players } => {
            let t1 = spec_u32_to_le_bytes(width) + spec_u32_to_le_bytes(height)
                + spec_u16_to_le_bytes(max_players);
            assert(b.skip(1) =~= name + t1);
            lemma_dec_bytes(name, t1);
            let t2 = spec_u32_to_le_bytes(height) + spec_u16_to_le_bytes(max_players);
            assert(t1 =~= spec_u32_to_le_bytes(width) + t2);
            lemma_dec_u32(width, t2);
            assert(t2 =~= spec_u32_to_le_bytes(height) + (spec_u16_to_le_bytes(max_players)
                + Seq::<u8>::empty()));
            lemma_dec_u32(height, spec_u16_to_le_bytes(max_players) + Seq::<u8>::empty());
            lemma_dec_u16(max_players, Seq::empty());
        },
        WorldInstructionV::JoinWorld { name } => {
            assert(b.skip(1) =~= name + Seq::<u8>::empty());
            lemma_dec_bytes(name, Seq::empty());
        },
        WorldInstructionV::MovePlayer { input } => {
            assert(b.skip(1)[0] == input.direction);
            assert(b.skip(1).skip(1) =~= bool_byte(input.sprint));
        },
        WorldInstructionV::Attack { weapon_stats } => {
            match weapon_stats {
                None => {
                    assert(b.skip(1).len() == 1 && b.skip(1)[0] == 0);
                },
                Some(s) => {
                    let p = b.skip(1);
                    assert(p[0] == 1);
                    let t1 = spec_u16_to_le_bytes(s.range) + seq![s.attack_speed];
                    assert(p.skip(1) =~= spec_u16_to_le_bytes(s.damage) + t1);
                    lemma_dec_u16(s.damage, t1);
                    assert(t1 =~= spec_u16_to_le_bytes(s.range) + seq![s.attack_speed]);
                    lemma_dec_u16(s.range, seq![s.attack_speed]);
                },
            }
        },
        WorldInstructionV::Heal { amount } => {
            assert(b.skip(1) =~= spec_u16_to_le_bytes(amount) + Seq::<u8>::empty());
            lemma_dec_u16(amount, Seq::empty());
        },
        WorldInstructionV::LeaveWorld => {
            assert(b.skip(1).len() == 0);
        },
        WorldInstructionV::UpdateWorld { max_players } => {
            match max_players {
                None => {
                    assert(b.skip(1).len() == 1 && b.skip(1)[0] == 0);
                },
                Some(x) => {
                    let p = b.skip(1);
                    assert(p[0] == 1);
                    assert(p.skip(1) =~= spec_u16_to_le_bytes(x) + Seq::<u8>::empty());
                    lemma_dec_u16(x, Seq::empty());
                },
            }
        },
        WorldInstructionV::SetPvpZone { in_pvp_zone } => {
            assert(b.skip(1) =~= bool_byte(in_pvp_zone));
        },
        WorldInstructionV::MovePlayer3D { input } => {
            let p = b.skip(1);
            assert(p[0] == input.move_x as u8);
            assert(p[1] == input.move_z as u8);
            let mx = input.move_x;
            let mz = input.move_z;
            assert(mx as u8 as i8 == mx && mz as u8 as i8 == mz) by (bit_vector);
            let yaw = input.camera_yaw;
            assert(yaw as u16 as i16 == yaw) by (bit_vector);
            let t1 = bool_byte(input.sprint) + bool_byte(input.jump);
            assert(p.skip(2) =~= spec_u16_to_le_bytes(input.camera_yaw as u16) + t1);
            lemma_dec_u16(input.camera_yaw as u16, t1);
            assert(t1[0] == bool_byte(input.sprint)[0]);
            assert(t1.skip(1) =~= bool_byte(input.jump));
        },
    }
}

impl WorldInstruction {
    /// The instruction's bytes.
    pub fn to_bytes(&self) -> (r: Vec<u8>)
        ensures
            r@ == enc_instruction(self@),
    {
        let mut r: Vec<u8> = Vec::new();
        match self {
            WorldInstruction::InitializeWorld { name, width, height, max_players } => {
                r.push(0u8);
                r.extend_from_slice(name.as_slice());
                let t = u32_to_le_bytes(*width);
                r.extend_from_slice(t.as_slice());
                let t = u32_to_le_bytes(*height);
                r.extend_from_slice(t.as_slice());
                let t = u16_to_le_bytes(*max_players);
                r.extend_from_slice(t.as_slice());
            },
            WorldInstruction::JoinWorld { name } => {
                r.push(1u8);
                r.extend_from_slice(name.as_slice());
            },
            WorldInstruction::MovePlayer { input } => {
                r.push(2u8);
                r.push(input.direction);
                r.push(if input.sprint {
                    1u8
                } else {
                    0u8
                });
            },
            WorldInstruction::Attack { weapon_stats } => {
                r.push(3u8);
                match weapon_stats {
                    None => {
                        r.push(0u8);
                    },
                    Some(s) => {
                        r.push(1u8);
                        let t = u16_to_le_bytes(s.damage);
                        r.extend_from_slice(t.as_slice());
                        let t = u16_to_le_bytes(s.range);
                        r.extend_from_slice(t.as_slice());
                        r.push(s.attack_speed);
                    },
                }
            },
            WorldInstruction::Heal { amount } => {
                r.push(4u8);
                let t = u16_to_le_bytes(*amount);
                r.extend_from_slice(t.as_slice());
            },
            WorldInstruction::LeaveWorld => {
                r.push(5u8);
            },
            WorldInstruction::UpdateWorld { max_players } => {
                r.push(6u8);
                match max_players {
                    None => {
                        r.push(0u8);
                    },
                    Some(x) => {
                        r.push(1u8);
                        let t = u16_to_le_bytes(*x);
                        r.extend_from_slice(t.as_slice());
                    },
                }
            },
            WorldInstruction::SetPvpZone { in_pvp_zone } => {
                r.push(7u8);
                r.push(if *in_pvp_zone {
                    1u8
                } else {
                    0u8
                });
            },
            WorldInstruction::MovePlayer3D { input } => {
                r.push(8u8);
                r.push(#[verifier::truncate] (input.move_x as u8));
                r.push(#[verifier::truncate] (input.move_z as u8));
                let t = u16_to_le_bytes(#[verifier::truncate] (input.camera_yaw as u16));
                r.extend_from_slice(t.as_slice());
                r.push(if input.sprint {
                    1u8
                } else {
                    0u8
                });
                r.push(if input.jump {
                    1u8
                } else {
                    0u8
                });
            },
        }
        proof {
            assert(r@ =~= enc_instruction(self@));
        }
        r
    }
}

} // verus!

verus! {

use vstd::array::ArrayAdditionalExecFns;

/// Read 16 bytes into an array.
fn read_name16(b: &[u8], pos: usize) -> (r: Option<([u8; 16], usize)>)
    requires
        pos <= b@.len(),
    ensures
        match r {
            Some(p) => dec_bytes(b@.skip(pos as int), 16) == Some((p.0@, b@.skip(p.1 as int)))
                && pos < p.1 <= b@.len(),
            None => dec_bytes(b@.skip(pos as int), 16) is None,
        },
{
    let blen: usize = b.len();
    if blen - pos >= 16 {
        let mut a = [0u8; 16];
        let mut i: usize = 0;
        while i < 16
            invariant
                blen == b@.len(),
                pos + 16 <= blen,
                i <= 16,
                forall|j: int| 0 <= j < i ==> a@[j] == b@[pos + j],
            decreases 16 - i,
        {
            a.set(i, b[pos + i]);
            i = i + 1;
        }
        proof {
            assert(a@ =~= b@.skip(pos as int).take(16));
            assert(b@.skip(pos as int).skip(16) =~= b@.skip(pos + 16));
        }
        Some((a, pos + 16))
    } else {
        None
    }
}

impl WorldInstruction {
    /// Parse an instruction from exactly these bytes; an unknown tag or
    /// trailing bytes are refused.
    #[verifier::rlimit(100)]
    #[verifier::loop_isolation(false)]
    pub fn from_bytes(data: &[u8]) -> (r: Option<WorldInstruction>)
        ensures
            match r {
                Some(w) => dec_instruction(data@) == Some(w@),
                None => dec_instruction(data@) is None,
            },
    {
        let len = data.len();
        if len < 1 {
            return None;
        }
        let tag = data[0];
        if tag == 0 {
            let (name, p1) = match read_key32(data, 1) {
                Some(p) => p,
                None => {
                    return None;
                },
            };
            let (width, p2) = match read_u32(data, p1) {
                Some(p) => p,
                None => {
                    return None;
                },
            };
            let (height, p3) = match read_u32(data, p2) {
                Some(p) => p,
                None => {
                    return None;
                },
            };
            let (max_players, p4) = match read_u16(data, p3) {
                Some(p) => p,
                None => {
                    return None;
                },
            };
            proof {
                assert(data@.skip(p4 as int).len() == data@.len() - p4);
            }
            if p4 != len {
                return None;
            }
            proof {
                assert(data@.skip(p4 as int) =~= Seq::<u8>::empty());
            }
            Some(WorldInstruction::InitializeWorld { name, width, height, max_players })
        } else if tag == 1 {
            let (name, p1) = match read_name16(data, 1) {
                Some(p) => p,
                None => {
                    return None;
                },
            };
            proof {
                assert(data@.skip(p1 as int).len() == data@.len() - p1);
            }
            if p1 != len {
                return None;
            }
            proof {
                assert(data@.skip(p1 as int) =~= Seq::<u8>::empty());
            }
            Some(WorldInstruction::JoinWorld { name })
        } else if tag == 2 {
            if len != 3 {
                return None;
            }
            let direction = data[1];
            let sprint_byte = data[2];
            proof {
                assert(data@.skip(1)[0] == data@[1]);
                assert(data@.skip(1).skip(1) =~= data@.skip(2));
                assert(data@.skip(2)[0] == data@[2]);
                assert(data@.skip(2).skip(1).len() == 0);
            }
            if sprint_byte != 0 && sprint_byte != 1 {
                return None;
            }
            Some(
                WorldInstruction::MovePlayer {
                    input: MovementInput { direction, sprint: sprint_byte == 1 },
                },
            )
        } else if tag == 3 {
            if len < 2 {
                return None;
            }
            let flag = data[1];
            proof {
                assert(data@.skip(1)[0] == data@[1]);
            }
            if flag == 0 {
                if len != 2 {
                    return None;
                }
                Some(WorldInstruction::Attack { weapon_stats: None })
            } else if flag == 1 {
                proof {
                    assert(data@.skip(1).skip(1) =~= data@.skip(2));
                }
                let (damage, p1) = match read_u16(data, 2) {
                    Some(p) => p,
                    None => {
                        return None;
                    },
                };
                let (range, p2) = match read_u16(data, p1) {
                    Some(p) => p,
                    None => {
                        return None;
                    },
                };
                proof {
                    assert(data@.skip(p2 as int).len() == data@.len() - p2);
                }
                if p2 + 1 != len {
                    return None;
                }
                let attack_speed = data[p2];
                proof {
                    assert(data@.skip(p2 as int)[0] == data@[p2 as int]);
                    assert(data@.skip(p2 as int).len() == 1);
                }
                Some(
                    WorldInstruction::Attack {
                        weapon_stats: Some(WeaponStats { damage, range, attack_speed }),
                    },
                )
            } else {
                None
            }
        } else if tag == 4 {
            let (amount, p1) = match read_u16(data, 1) {
                Some(p) => p,
                None => {
                    return None;
                },
            };
            proof {
                assert(data@.skip(p1 as int).len() == data@.len() - p1);
            }
            if p1 != len {
                return None;
            }
            proof {
                assert(data@.skip(p1 as int) =~= Seq::<u8>::empty());
            }
            Some(WorldInstruction::Heal { amount })
        } else if tag == 5 {
            if len != 1 {
                return None;
            }
            proof {
                assert(data@.skip(1).len() == 0);
            }
            Some(WorldInstruction::LeaveWorld)
        } else if tag == 6 {
            if len < 2 {
                return None;
            }
            let flag = data[1];
            proof {
                assert(data@.skip(1)[0] == data@[1]);
            }
            if flag == 0 {
                if len != 2 {
                    return None;
                }
                Some(WorldInstruction::UpdateWorld { max_players: None })
            } else if flag == 1 {
                proof {
                    assert(data@.skip(1).skip(1) =~= data@.skip(2));
                }
                let (max_players, p1) = match read_u16(data, 2) {
                    Some(p) => p,
                    None => {
                        return None;
                    },
                };
                proof {
                    assert(data@.skip(p1 as int).len() == data@.len() - p1);
                }
                if p1 != len {
                    return None;
                }
                proof {
                    assert(data@.skip(p1 as int) =~= Seq::<u8>::empty());
                }
                Some(WorldInstruction::UpdateWorld { max_players: Some(max_players) })
            } else {
                None
            }
        } else if tag == 7 {
            if len != 2 {
                return None;
            }
            let flag = data[1];
            proof {
                assert(data@.skip(1)[0] == data@[1]);
                assert(data@.skip(1).skip(1).len() == 0);
            }
            if flag != 0 && flag != 1 {
                return None;
            }
            Some(WorldInstruction::SetPvpZone { in_pvp_zone: flag == 1 })
        } else if tag == 8 {
            if len < 3 {
                return None;
            }
            let move_x = #[verifier::truncate] (data[1] as i8);
            let move_z = #[verifier::truncate] (data[2] as i8);
            proof {
                assert(data@.skip(1)[0] == data@[1]);
                assert(data@.skip(1)[1] == data@[2]);
                assert(data@.skip(1).skip(2) =~= data@.skip(3));
            }
            let (yaw, p1) = match read_u16(data, 3) {
                Some(p) => p,
                None => {
                    return None;
                },
            };
            proof {
                assert(data@.skip(p1 as int).len() == data@.len() - p1);
            }
            if p1 + 2 != len {
                return None;
            }
            let sprint_byte = data[p1];
            let jump_byte = data[p1 + 1];
            proof {
                assert(data@.skip(p1 as int)[0] == data@[p1 as int]);
                assert(data@.skip(p1 as int).skip(1) =~= data@.skip(p1 + 1));
                assert(data@.skip(p1 + 1)[0] == data@[p1 + 1]);
                assert(data@.skip(p1 + 1).skip(1).len() == 0);
            }
            if sprint_byte != 0 && sprint_byte != 1 {
                return None;
            }
            if jump_byte != 0 && jump_byte != 1 {
                return None;
            }
            Some(
                WorldInstruction::MovePlayer3D {
                    input: MovementInput3D {
                        move_x,
                        move_z,
                        camera_yaw: #[verifier::truncate] (yaw as i16),
                        sprint: sprint_byte == 1,
                        jump: jump_byte == 1,
                    },
                },
            )
        } else {
            None
        }
    }
}

} // verus!
