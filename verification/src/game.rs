//! The direct game handler: the fast path that mutates world state in the
//! account store without going through full transaction execution. Each
//! mutating call answers with the account writes it made, in order, for the
//! caller to hand to the leader's open slot record.

use vstd::prelude::*;
use crate::account::{Account, AccountStore, AccountV};
use crate::chain::{AccountWrite, AccountWriteV};
use crate::hashing::random_u32;
use crate::ids::{spec_world_program_id, world_program_id};
use crate::world::state::{
    dec_world_player, decode_world_player, enc_world_config, enc_world_player,
    encode_world_config, encode_world_player, spec_move2d, spec_move3d, MovementInput3D,
    WorldConfig, WorldConfigV, WorldPlayer, WorldPlayerV, WORLD_PLAYER_LEN,
};
use crate::world::{DEFAULT_HEALTH, FIXED_POINT_SCALE, GROUND_LEVEL, MAX_HEIGHT};

verus! {

/// Width of the default world, in world units.
pub const DEFAULT_WORLD_WIDTH: u32 = 100;

/// Depth of the default world, in world units.
pub const DEFAULT_WORLD_DEPTH: u32 = 100;

/// Player limit of the default world.
pub const DEFAULT_WORLD_MAX_PLAYERS: u16 = 100;

/// Why a game call failed.
#[derive(Debug, Clone, Copy, PartialEq, Eq, Structural)]
pub enum GameError {
    /// No player account under the derived address; join first.
    PlayerNotFound,
    /// The player account's bytes do not parse.
    BadPlayerData,
    /// The player's stored state lies outside the default world's bounds.
    OutOfRange,
}

/// The default world's configuration, under the given name bytes and bump.
pub open spec fn spec_default_world(name: Seq<u8>, bump: u8, init_ts: i64) -> WorldConfigV {
    WorldConfigV {
        name,
        authority: crate::chain::zero_root(),
        width: DEFAULT_WORLD_WIDTH,
        depth: DEFAULT_WORLD_DEPTH,
        max_players: DEFAULT_WORLD_MAX_PLAYERS,
        player_count: 0,
        tick_rate: 30,
        bump,
        l1_game: crate::chain::zero_root(),
        init_ts,
    }
}

/// The account a world configuration is stored in.
pub open spec fn spec_world_account(w: WorldConfigV) -> AccountV {
    AccountV {
        lamports: 1,
        data: enc_world_config(w),
        owner: spec_world_program_id(),
        executable: false,
        rent_epoch: 0,
    }
}

/// The account a player is stored in.
pub open spec fn spec_player_account(p: WorldPlayerV) -> AccountV {
    AccountV {
        lamports: 1,
        data: enc_world_player(p),
        owner: spec_world_program_id(),
        executable: false,
        rent_epoch: 0,
    }
}

/// The write that broadcasts an account.
pub open spec fn spec_write_of(key: Seq<u8>, a: AccountV) -> AccountWriteV {
    AccountWriteV { pubkey: key, data: a.data, lamports: a.lamports, owner: a.owner }
}

/// A stored player positioned inside the default world's ground plane, as
/// eight-way movement needs.
pub open spec fn default_positioned(p: WorldPlayerV) -> bool {
    &&& 0 <= p.position_x <= DEFAULT_WORLD_WIDTH * FIXED_POINT_SCALE
    &&& 0 <= p.position_z <= DEFAULT_WORLD_DEPTH * FIXED_POINT_SCALE
}

/// Why a movement call on `player_pda` is refused, in check order: no
/// account, unparseable bytes, or stored state outside the required range.
pub open spec fn move_refusal(
    m: Map<Seq<u8>, AccountV>,
    player_pda: Seq<u8>,
    in_range: bool,
) -> Option<GameError> {
    if !m.dom().contains(player_pda) {
        Some(GameError::PlayerNotFound)
    } else if dec_world_player(m[player_pda].data) is None {
        Some(GameError::BadPlayerData)
    } else if !in_range {
        Some(GameError::OutOfRange)
    } else {
        None
    }
}

/// The game handler over the shared account store.
pub struct GameHandler {
    account_store: AccountStore,
}

impl GameHandler {
    pub closed spec fn contents(&self) -> Map<Seq<u8>, AccountV> {
        self.account_store.contents()
    }

    pub closed spec fn wf(&self) -> bool {
        self.account_store.wf()
    }

    pub fn new(account_store: AccountStore) -> (r: Self)
        requires
            account_store.wf(),
        ensures
            r.wf(),
            r.contents() == account_store.contents(),
    {
        GameHandler { account_store }
    }

    /// A reference to the store behind the handler.
    pub fn account_store(&self) -> (r: &AccountStore)
        ensures
            r.contents() == self.contents(),
            r.wf() == self.wf(),
    {
        &self.account_store
    }

    fn store_and_broadcast(
        &mut self,
        writes: &mut Vec<AccountWrite>,
        pubkey: [u8; 32],
        account: Account,
        slot: u64,
    )
        requires
            old(self).wf(),
        ensures
            final(self).wf(),
            final(self).contents() == old(self).contents().insert(pubkey@, account@),
            final(writes)@.map_values(|w: AccountWrite| w@) == old(writes)@.map_values(
                |w: AccountWrite| w@,
            ).push(spec_write_of(pubkey@, account@)),
    {
        let ghost av = account@;
        let write = AccountWrite {
            pubkey,
            data: clone_bytes(&account.data),
            lamports: account.lamports,
            owner: account.owner,
        };
        self.account_store.store_account(pubkey, account, slot);
        let ghost pre = writes@;
        writes.push(write);
        proof {
            assert(writes@.map_values(|w: AccountWrite| w@) =~= pre.map_values(
                |w: AccountWrite| w@,
            ).push(spec_write_of(pubkey@, av)));
        }
    }

    /// Create the default world under `world_pda` if no account holds it
    /// yet; the write made, if any, is appended to `writes`.
    pub fn ensure_default_world(
        &mut self,
        writes: &mut Vec<AccountWrite>,
        world_pda: [u8; 32],
        name: [u8; 32],
        bump: u8,
        init_ts: i64,
        slot: u64,
    ) -> (r: [u8; 32])
        requires
            old(self).wf(),
        ensures
            final(self).wf(),
            r@ == world_pda@,
            old(self).contents().dom().contains(world_pda@) ==> final(self).contents() == old(
                self,
            ).contents() && final(writes)@ == old(writes)@,
            !old(self).contents().dom().contains(world_pda@) ==> {
                &&& final(self).contents() == old(self).contents().insert(
                    world_pda@,
                    spec_world_account(spec_default_world(name@, bump, init_ts)),
                )
                &&& final(writes)@.map_values(|w: AccountWrite| w@) == old(writes)@.map_values(
                    |w: AccountWrite| w@,
                ).push(
                    spec_write_of(
                        world_pda@,
                        spec_world_account(spec_default_world(name@, bump, init_ts)),
                    ),
                )
            },
    {
        if self.account_store.account_exists(&world_pda) {
            return world_pda;
        }
        let world = WorldConfig {
            name,
            authority: crate::chain::zeroed_root(),
            width: DEFAULT_WORLD_WIDTH,
            depth: DEFAULT_WORLD_DEPTH,
            max_players: DEFAULT_WORLD_MAX_PLAYERS,
            player_count: 0,
            tick_rate: 30,
            bump,
            l1_game: crate::chain::zeroed_root(),
            init_ts,
        };
        proof {
            assert(world@ =~= spec_default_world(name@, bump, init_ts));
        }
        let account = Account {
            lamports: 1,
            data: encode_world_config(&world),
            owner: world_program_id(),
            executable: false,
            rent_epoch: 0,
        };
        proof {
            assert(account@ =~= spec_world_account(spec_default_world(name@, bump, init_ts)));
        }
        self.store_and_broadcast(writes, world_pda, account, slot);
        world_pda
    }

    /// Create a player under `player_pda` in the world, spawning at a fresh
    /// spot on the ground plane; a player already there is left alone. The
    /// writes made are appended to `writes`.
    pub fn join_world(
        &mut self,
        writes: &mut Vec<AccountWrite>,
        authority: [u8; 32],
        name: [u8; 16],
        world_pda: [u8; 32],
        player_pda: [u8; 32],
        bump: u8,
        slot: u64,
    ) -> (r: [u8; 32])
        requires
            old(self).wf(),
        ensures
            final(self).wf(),
            r@ == player_pda@,
            old(self).contents().dom().contains(player_pda@) ==> final(self).contents() == old(
                self,
            ).contents() && final(writes)@ == old(writes)@,
            !old(self).contents().dom().contains(player_pda@) ==> exists|p: WorldPlayerV|
                {
                    &&& p.authority == authority@
                    &&& p.world == world_pda@
                    &&& 0 <= p.position_x < DEFAULT_WORLD_WIDTH * FIXED_POINT_SCALE
                    &&& 0 <= p.position_z < DEFAULT_WORLD_DEPTH * FIXED_POINT_SCALE
                    &&& p.position_y == 0
                    &&& p.velocity_x == 0 && p.velocity_z == 0 && p.velocity_y == 0
                    &&& p.health == DEFAULT_HEALTH && p.max_health == DEFAULT_HEALTH
                    &&& p.last_action_slot == slot
                    &&& p.is_grounded
                    &&& p.bump == bump
                    &&& p.name == name@
                    &&& final(self).contents() == old(self).contents().insert(
                        player_pda@,
                        #[trigger] spec_player_account(p),
                    )
                    &&& final(writes)@.map_values(|w: AccountWrite| w@) == old(
                        writes,
                    )@.map_values(|w: AccountWrite| w@).push(
                        spec_write_of(player_pda@, spec_player_account(p)),
                    )
                },
    {
        if self.account_store.account_exists(&player_pda) {
            return player_pda;
        }
        let spawn_x_units = random_u32() % DEFAULT_WORLD_WIDTH;
        let spawn_z_units = random_u32() % DEFAULT_WORLD_DEPTH;
        let player = WorldPlayer {
            authority,
            world: world_pda,
            position_x: (spawn_x_units as i32) * FIXED_POINT_SCALE,
            position_z: (spawn_z_units as i32) * FIXED_POINT_SCALE,
            position_y: 0,
            velocity_x: 0,
            velocity_z: 0,
            velocity_y: 0,
            yaw: 0,
            health: DEFAULT_HEALTH,
            max_health: DEFAULT_HEALTH,
            last_action_slot: slot,
            last_combat_ts: 0,
            in_pvp_zone: false,
            is_grounded: true,
            bump,
            name,
        };
        let account = Account {
            lamports: 1,
            data: encode_world_player(&player),
            owner: world_program_id(),
            executable: false,
            rent_epoch: 0,
        };
        proof {
            assert(account@ =~= spec_player_account(player@));
        }
        self.store_and_broadcast(writes, player_pda, account, slot);
        player_pda
    }

    /// 3D movement on the stored player: decode, step the physics over the
    /// already-rotated world-space direction, stamp the slot, store and
    /// append the write. A missing, unreadable or out-of-range player
    /// changes nothing.
    pub fn move_player_3d(
        &mut self,
        writes: &mut Vec<AccountWrite>,
        input: MovementInput3D,
        world_dx: i8,
        world_dz: i8,
        world_pda: [u8; 32],
        player_pda: [u8; 32],
        slot: u64,
    ) -> (r: Result<[u8; 32], GameError>)
        requires
            old(self).wf(),
        ensures
            final(self).wf(),
            match r {
                Ok(pda) => {
                    &&& pda@ == player_pda@
                    &&& old(self).contents().dom().contains(player_pda@)
                    &&& dec_world_player(old(self).contents()[player_pda@].data) matches Some(p)
                    &&& ({
                        let p = dec_world_player(old(self).contents()[player_pda@].data)->Some_0;
                        let moved = WorldPlayerV {
                            last_action_slot: slot,
                            ..spec_move3d(
                                p,
                                input,
                                world_dx,
                                world_dz,
                                spec_default_world_dims(),
                            )
                        };
                        &&& crate::world::processor::movable(p, spec_default_world_dims())
                        &&& final(self).contents() == old(self).contents().insert(
                            player_pda@,
                            spec_player_account(moved),
                        )
                        &&& final(writes)@.map_values(|w: AccountWrite| w@) == old(
                            writes,
                        )@.map_values(|w: AccountWrite| w@).push(
                            spec_write_of(player_pda@, spec_player_account(moved)),
                        )
                    })
                },
                Err(e) => {
                    &&& final(self).contents() == old(self).contents()
                    &&& final(writes)@ == old(writes)@
                    &&& Some(e) == move_refusal(
                        old(self).contents(),
                        player_pda@,
                        ({
                            let m = old(self).contents();
                            m.dom().contains(player_pda@) && (dec_world_player(
                                m[player_pda@].data,
                            ) matches Some(p) && crate::world::processor::movable(
                                p,
                                spec_default_world_dims(),
                            ))
                        }),
                    )
                },
            },
    {
        let account = match self.account_store.get_account(&player_pda) {
            Some(a) => a,
            None => {
                return Err(GameError::PlayerNotFound);
            },
        };
        let mut player = match decode_world_player(account.data.as_slice()) {
            Some(p) => p,
            None => {
                return Err(GameError::BadPlayerData);
            },
        };
        let max_x = (DEFAULT_WORLD_WIDTH as i32) * FIXED_POINT_SCALE;
        let max_z = (DEFAULT_WORLD_DEPTH as i32) * FIXED_POINT_SCALE;
        if !(0 <= player.position_x && player.position_x <= max_x && 0 <= player.position_z
            && player.position_z <= max_z && GROUND_LEVEL <= player.position_y
            && player.position_y <= MAX_HEIGHT && -504 <= player.velocity_x && player.velocity_x
            <= 504 && -504 <= player.velocity_z && player.velocity_z <= 504 && -1000
            <= player.velocity_y && player.velocity_y <= 1000) {
            proof {
                assert(!crate::world::processor::movable(player@, spec_default_world_dims()));
            }
            return Err(GameError::OutOfRange);
        }
        proof {
            assert(crate::world::processor::movable(player@, spec_default_world_dims()));
        }
        let dims = default_world_dims();
        player.apply_movement_3d(&input, world_dx, world_dz, &dims);
        player.last_action_slot = slot;
        let ghost p0 = dec_world_player(account@.data)->Some_0;
        proof {
            assert(player@ =~= (WorldPlayerV {
                last_action_slot: slot,
                ..spec_move3d(p0, input, world_dx, world_dz, spec_default_world_dims())
            }));
            crate::world::state::lemma_dec_world_player_wf(account@.data);
        }
        let updated = Account {
            lamports: 1,
            data: encode_world_player(&player),
            owner: world_program_id(),
            executable: false,
            rent_epoch: 0,
        };
        proof {
            assert(updated@ =~= spec_player_account(player@));
        }
        self.store_and_broadcast(writes, player_pda, updated, slot);
        Ok(player_pda)
    }

    /// Eight-way movement on the stored player, as the 3D step but with the
    /// legacy velocity rule.
    pub fn move_player(
        &mut self,
        writes: &mut Vec<AccountWrite>,
        direction: u8,
        sprint: bool,
        world_pda: [u8; 32],
        player_pda: [u8; 32],
        slot: u64,
    ) -> (r: Result<[u8; 32], GameError>)
        requires
            old(self).wf(),
        ensures
            final(self).wf(),
            match r {
                Ok(pda) => {
                    &&& pda@ == player_pda@
                    &&& old(self).contents().dom().contains(player_pda@)
                    &&& dec_world_player(old(self).contents()[player_pda@].data) matches Some(p)
                    &&& ({
                        let p = dec_world_player(old(self).contents()[player_pda@].data)->Some_0;
                        let moved = WorldPlayerV {
                            last_action_slot: slot,
                            ..spec_move2d(p, direction, sprint, spec_default_world_dims())
                        };
                        &&& default_positioned(p)
                        &&& final(self).contents() == old(self).contents().insert(
                            player_pda@,
                            spec_player_account(moved),
                        )
                        &&& final(writes)@.map_values(|w: AccountWrite| w@) == old(
                            writes,
                        )@.map_values(|w: AccountWrite| w@).push(
                            spec_write_of(player_pda@, spec_player_account(moved)),
                        )
                    })
                },
                Err(e) => {
                    &&& final(self).contents() == old(self).contents()
                    &&& final(writes)@ == old(writes)@
                    &&& Some(e) == move_refusal(
                        old(self).contents(),
                        player_pda@,
                        ({
                            let m = old(self).contents();
                            m.dom().contains(player_pda@) && (dec_world_player(
                                m[player_pda@].data,
                            ) matches Some(p) && default_positioned(p))
                        }),
                    )
                },
            },
    {
        let account = match self.account_store.get_account(&player_pda) {
            Some(a) => a,
            None => {
                return Err(GameError::PlayerNotFound);
            },
        };
        let mut player = match decode_world_player(account.data.as_slice()) {
            Some(p) => p,
            None => {
                return Err(GameError::BadPlayerData);
            },
        };
        let max_x = (DEFAULT_WORLD_WIDTH as i32) * FIXED_POINT_SCALE;
        let max_z = (DEFAULT_WORLD_DEPTH as i32) * FIXED_POINT_SCALE;
        if !(0 <= player.position_x && player.position_x <= max_x && 0 <= player.position_z
            && player.position_z <= max_z) {
            proof {
                assert(!default_positioned(player@));
            }
            return Err(GameError::OutOfRange);
        }
        proof {
            assert(default_positioned(player@));
        }
        let dims = default_world_dims();
        player.apply_movement(direction, sprint, &dims);
        player.last_action_slot = slot;
        let ghost p0 = dec_world_player(account@.data)->Some_0;
        proof {
            assert(player@ =~= (WorldPlayerV {
                last_action_slot: slot,
                ..spec_move2d(p0, direction, sprint, spec_default_world_dims())
            }));
            crate::world::state::lemma_dec_world_player_wf(account@.data);
        }
        let updated = Account {
            lamports: 1,
            data: encode_world_player(&player),
            owner: world_program_id(),
            executable: false,
            rent_epoch: 0,
        };
        proof {
            assert(updated@ =~= spec_player_account(player@));
        }
        self.store_and_broadcast(writes, player_pda, updated, slot);
        Ok(player_pda)
    }

    /// Read and decode the player stored under `player_pda`.
    pub fn get_player(&self, player_pda: &[u8; 32]) -> (r: Option<WorldPlayer>)
        requires
            self.wf(),
        ensures
            match r {
                Some(p) => self.contents().dom().contains(player_pda@) && dec_world_player(
                    self.contents()[player_pda@].data,
                ) == Some(p@),
                None => !self.contents().dom().contains(player_pda@) || dec_world_player(
                    self.contents()[player_pda@].data,
                ) is None,
            },
    {
        let account = match self.account_store.get_account(player_pda) {
            Some(a) => a,
            None => {
                return None;
            },
        };
        decode_world_player(account.data.as_slice())
    }

    /// Every decodable player account owned by the world program, in store
    /// order, keyed by its address: exactly the held accounts that are
    /// world-owned, parse as players, and carry a live authority.
    pub fn get_all_players(&self) -> (r: Vec<([u8; 32], WorldPlayer)>)
        requires
            self.wf(),
        ensures
            forall|j: int|
                0 <= j < r@.len() ==> {
                    &&& self.contents().dom().contains((#[trigger] r@[j]).0@)
                    &&& self.contents()[r@[j].0@].owner == spec_world_program_id()
                    &&& dec_world_player(self.contents()[r@[j].0@].data) == Some(r@[j].1@)
                    &&& r@[j].1@.authority != crate::chain::zero_root()
                },
            forall|k: Seq<u8>|
                #![trigger self.contents().dom().contains(k)]
                self.contents().dom().contains(k) && self.contents()[k].owner
                    == spec_world_program_id() && (dec_world_player(
                    self.contents()[k].data,
                ) matches Some(p) && p.authority != crate::chain::zero_root()) ==> exists|j: int|
                    0 <= j < r@.len() && (#[trigger] r@[j]).0@ == k,
    {
        let world_id = world_program_id();
        let owned = self.account_store.get_program_accounts(&world_id);
        let zero = crate::chain::zeroed_root();
        let mut r: Vec<([u8; 32], WorldPlayer)> = Vec::new();
        let n = owned.len();
        let mut i: usize = 0;
        while i < n
            invariant
                self.wf(),
                zero@ == crate::chain::zero_root(),
                n == owned@.len(),
                i <= n,
                forall|j: int|
                    0 <= j < owned@.len() ==> crate::account::owned_pair(
                        self.contents(),
                        spec_world_program_id(),
                        #[trigger] owned@[j],
                    ),
                forall|j: int|
                    0 <= j < r@.len() ==> {
                        &&& self.contents().dom().contains((#[trigger] r@[j]).0@)
                        &&& self.contents()[r@[j].0@].owner == spec_world_program_id()
                        &&& dec_world_player(self.contents()[r@[j].0@].data) == Some(r@[j].1@)
                        &&& r@[j].1@.authority != crate::chain::zero_root()
                    },
                forall|w: int|
                    #![trigger owned@[w]]
                    0 <= w < i && (dec_world_player(owned@[w].1@.data) matches Some(p)
                        && p.authority != crate::chain::zero_root()) ==> exists|j: int|
                        0 <= j < r@.len() && (#[trigger] r@[j]).0@ == owned@[w].0@,
            decreases n - i,
        {
            proof {
                assert(crate::account::owned_pair(
                    self.contents(),
                    spec_world_program_id(),
                    owned@[i as int],
                ));
            }
            if owned[i].1.data.len() == WORLD_PLAYER_LEN {
                match decode_world_player(owned[i].1.data.as_slice()) {
                    Some(player) => {
                        if !crate::bytes32_eq(&player.authority, &zero) {
                            let ghost r_old = r@;
                            let key = owned[i].0;
                            r.push((key, player));
                            proof {
                                assert(forall|j: int|
                                    0 <= j < r_old.len() ==> r_old[j] == #[trigger] r@[j]);
                                assert((r@[r@.len() - 1]).0@ == owned@[i as int].0@);
                                assert(self.contents()[owned@[i as int].0@] == owned@[
                                i as int].1@);
                                assert forall|w: int|
                                    #![trigger owned@[w]]
                                    0 <= w < i + 1 && (dec_world_player(owned@[w].1@.data)
                                        matches Some(p) && p.authority
                                        != crate::chain::zero_root()) implies exists|j: int|
                                    0 <= j < r@.len() && (#[trigger] r@[j]).0@ == owned@[
                                    w].0@ by {
                                    if w < i {
                                        let j0 = choose|j: int|
                                            0 <= j < r_old.len() && (#[trigger] r_old[j]).0@
                                                == owned@[w].0@;
                                        assert(r@[j0] == r_old[j0]);
                                    } else {
                                        assert((r@[r@.len() - 1]).0@ == owned@[w].0@);
                                    }
                                }
                            }
                        } else {
                            proof {
                                assert(player@.authority == crate::chain::zero_root());
                            }
                        }
                    },
                    None => {},
                }
            } else {
                proof {
                    assert(dec_world_player(owned@[i as int].1@.data) is None);
                }
            }
            i = i + 1;
        }
        proof {
            assert forall|k: Seq<u8>|
                self.contents().dom().contains(k) && self.contents()[k].owner
                    == spec_world_program_id() && (dec_world_player(
                    self.contents()[k].data,
                ) matches Some(p) && p.authority != crate::chain::zero_root()) implies exists|
                j: int,
            | 0 <= j < r@.len() && (#[trigger] r@[j]).0@ == k by {
                let w0 = choose|j: int|
                    0 <= j < owned@.len() && (#[trigger] owned@[j]).0@ == k;
                assert(crate::account::owned_pair(
                    self.contents(),
                    spec_world_program_id(),
                    owned@[w0],
                ));
                assert(owned@[w0].1@ == self.contents()[k]);
                assert(dec_world_player(owned@[w0].1@.data) matches Some(p) && p.authority
                    != crate::chain::zero_root());
            }
        }
        r
    }
}

/// The default world's dimensions, as movement needs them.
pub open spec fn spec_default_world_dims() -> WorldConfigV {
    spec_default_world(Seq::new(32, |i: int| 0u8), 0, 0)
}

/// Build the default world's dimensions for a movement step.
fn default_world_dims() -> (r: WorldConfig)
    ensures
        r@ == spec_default_world_dims(),
        r.bounded(),
{
    let r = WorldConfig {
        name: crate::chain::zeroed_root(),
        authority: crate::chain::zeroed_root(),
        width: DEFAULT_WORLD_WIDTH,
        depth: DEFAULT_WORLD_DEPTH,
        max_players: DEFAULT_WORLD_MAX_PLAYERS,
        player_count: 0,
        tick_rate: 30,
        bump: 0,
        l1_game: crate::chain::zeroed_root(),
        init_ts: 0,
    };
    proof {
        assert(r@ =~= spec_default_world_dims());
    }
    r
}

fn clone_bytes(v: &Vec<u8>) -> (r: Vec<u8>)
    ensures
        r@ == v@,
{
    v.clone()
}

} // verus!
