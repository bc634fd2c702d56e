//! The NPC behavior engine: spawning, the behavior state machine driven
//! by periodic ticks, and damage from players.

use vstd::prelude::*;
use crate::constants::{
    NPC_ATTACK_RANGE, NPC_CHASE_SPEED, NPC_FLEE_SPEED, NPC_PERCEPTION_RADIUS, NPC_RESPAWN_SECONDS,
};
use crate::errors::GameError;
use crate::geometry::{
    dist2_3d, move_away_spec, move_towards_spec, patrol_position_spec, point_ok,
    validate_world_position, world_position_valid,
};
use crate::ids::{GameTime, Identity};
use crate::state::{has_npc, has_player, Player, WorldState};
use crate::strutil::str_eq;

verus! {

/// The behavior state of an NPC: a closed set, stored in its native form
/// and never round-tripped through text inside the core.
#[derive(Clone, Copy, Debug, PartialEq, Eq, Structural)]
pub enum AIState {
    Idle,
    Patrolling,
    Chasing,
    Attacking,
    Fleeing,
    Dead,
}

impl AIState {
    /// The textual name of the state, for external representations.
    pub fn to_string(&self) -> (r: &'static str)
        ensures
            r@ == state_name(*self),
    {
        match self {
            AIState::Idle => "idle",
            AIState::Patrolling => "patrolling",
            AIState::Chasing => "chasing",
            AIState::Attacking => "attacking",
            AIState::Fleeing => "fleeing",
            AIState::Dead => "dead",
        }
    }

    /// Decodes a textual state name. An unrecognized value is a hard
    /// decode error, never a silent default.
    pub fn from_string(s: &str) -> (r: Result<AIState, GameError>)
        ensures
            r matches Ok(st) ==> s@ == state_name(st),
            r is Err ==> r->Err_0 == GameError::Validation,
            r is Err ==> forall|st: AIState| s@ != state_name(st),
    {
        proof {
            reveal_strlit("idle");
            reveal_strlit("patrolling");
            reveal_strlit("chasing");
            reveal_strlit("attacking");
            reveal_strlit("fleeing");
            reveal_strlit("dead");
        }
        if str_eq(s, "idle") {
            Ok(AIState::Idle)
        } else if str_eq(s, "patrolling") {
            Ok(AIState::Patrolling)
        } else if str_eq(s, "chasing") {
            Ok(AIState::Chasing)
        } else if str_eq(s, "attacking") {
            Ok(AIState::Attacking)
        } else if str_eq(s, "fleeing") {
            Ok(AIState::Fleeing)
        } else if str_eq(s, "dead") {
            Ok(AIState::Dead)
        } else {
            Err(GameError::Validation)
        }
    }
}

/// The textual name of each behavior state.
pub open spec fn state_name(s: AIState) -> Seq<char> {
    match s {
        AIState::Idle => "idle"@,
        AIState::Patrolling => "patrolling"@,
        AIState::Chasing => "chasing"@,
        AIState::Attacking => "attacking"@,
        AIState::Fleeing => "fleeing"@,
        AIState::Dead => "dead"@,
    }
}

/// A non-player character. Death is a state, not removal: the row is
/// never deleted.
#[derive(Clone, Debug)]
pub struct NPC {
    /// Unique key of the NPC.
    pub npc_id: u64,
    /// Display name.
    pub name: String,
    /// Type tag; drives base stats and aggression.
    pub npc_type: String,
    /// Position in space.
    pub position_x: i64,
    /// Position in space.
    pub position_y: i64,
    /// Position in space.
    pub position_z: i64,
    /// The zone the NPC lives in.
    pub zone_id: u32,
    /// Current health; never exceeds `max_health`.
    pub health: u32,
    /// Health ceiling; at least one.
    pub max_health: u32,
    /// Current behavior state.
    pub ai_state: AIState,
    /// When the NPC last died; meaningful while `ai_state` is `Dead`.
    pub respawn_time: GameTime,
}

impl NPC {
    /// Well-formedness of one NPC row.
    pub open spec fn wf(self) -> bool {
        &&& point_ok(self.position_x, self.position_y, self.position_z)
        &&& self.health <= self.max_health
        &&& self.max_health >= 1
    }
}

/// Whether an NPC type attacks players on sight.
pub open spec fn aggressive_type(t: Seq<char>) -> bool {
    t == "goblin"@ || t == "orc"@ || t == "dragon"@
}

/// Decides whether an NPC type attacks players on sight.
pub fn is_aggressive_npc(npc_type: &str) -> (r: bool)
    ensures
        r == aggressive_type(npc_type@),
{
    str_eq(npc_type, "goblin") || str_eq(npc_type, "orc") || str_eq(npc_type, "dragon")
}

/// The base stats of an NPC type: `(health, max_health)`. Unknown types
/// get the baseline pair.
pub open spec fn type_stats(t: Seq<char>) -> (u32, u32) {
    if t == "goblin"@ {
        (50u32, 50u32)
    } else if t == "orc"@ {
        (100u32, 100u32)
    } else if t == "dragon"@ {
        (1000u32, 1000u32)
    } else if t == "merchant"@ {
        (100u32, 100u32)
    } else {
        (50u32, 50u32)
    }
}

/// Looks up the base stats of an NPC type.
fn stats_for_type(npc_type: &str) -> (r: (u32, u32))
    ensures
        r == type_stats(npc_type@),
{
    if str_eq(npc_type, "goblin") {
        (50, 50)
    } else if str_eq(npc_type, "orc") {
        (100, 100)
    } else if str_eq(npc_type, "dragon") {
        (1000, 1000)
    } else if str_eq(npc_type, "merchant") {
        (100, 100)
    } else {
        (50, 50)
    }
}

/// Spawns an NPC. The position must lie inside the world bounds; the
/// stats come from the type table, unknown types getting the baseline
/// pair; the NPC starts idle at full health. Returns the fresh id.
pub fn spawn_npc(
    state: &mut WorldState,
    caller: &Identity,
    name: String,
    npc_type: String,
    x: i64,
    y: i64,
    z: i64,
    zone_id: u32,
    now: GameTime,
) -> (r: Result<u64, GameError>)
    requires
        old(state).wf(),
    ensures
        final(state).wf(),
        match r {
            Ok(id) => {
                &&& world_position_valid(x, y, z)
                &&& old(state).next_id < u64::MAX
                &&& id == old(state).next_id
                &&& final(state).next_id == old(state).next_id + 1
                &&& final(state).npcs@.len() == old(state).npcs@.len() + 1
                &&& {
                    let n = final(state).npcs@.last();
                    &&& n.npc_id == id
                    &&& n.name@ == name@
                    &&& n.npc_type@ == npc_type@
                    &&& n.position_x == x && n.position_y == y && n.position_z == z
                    &&& n.zone_id == zone_id
                    &&& (n.health, n.max_health) == type_stats(npc_type@)
                    &&& n.ai_state == AIState::Idle
                    &&& n.respawn_time == now
                }
                &&& final(state).npcs@.drop_last() == old(state).npcs@
                &&& final(state).users@ == old(state).users@
                &&& final(state).sessions@ == old(state).sessions@
                &&& final(state).players@ == old(state).players@
                &&& final(state).items@ == old(state).items@
                &&& final(state).inventory@ == old(state).inventory@
                &&& final(state).skills@ == old(state).skills@
                &&& final(state).messages@ == old(state).messages@
            },
            Err(GameError::Validation) => !world_position_valid(x, y, z) && *final(state) == *old(state),
            Err(GameError::Capacity) => world_position_valid(x, y, z) && old(state).next_id
                == u64::MAX && *final(state) == *old(state),
            Err(_) => false,
        },
{
    let _ = caller;
    if let Err(e) = validate_world_position(x, y, z) {
        return Err(e);
    }
    if state.next_id == u64::MAX {
        return Err(GameError::Capacity);
    }
    let npc_id = state.next_id;
    state.next_id = state.next_id + 1;
    let (health, max_health) = stats_for_type(npc_type.as_str());
    let npc = NPC {
        npc_id,
        name,
        npc_type,
        position_x: x,
        position_y: y,
        position_z: z,
        zone_id,
        health,
        max_health,
        ai_state: AIState::Idle,
        respawn_time: now,
    };
    state.npcs.push(npc);
    proof {
        assert(state.npcs@.drop_last() =~= old(state).npcs@);
    }
    Ok(npc_id)
}


/// Whether a player is detectable by an NPC standing at the given point:
/// online and within the perception radius.
pub open spec fn player_near(p: Player, x: i64, y: i64, z: i64) -> bool {
    p.is_online && dist2_3d(p.position_x, p.position_y, p.position_z, x, y, z)
        <= NPC_PERCEPTION_RADIUS * NPC_PERCEPTION_RADIUS
}

/// Whether any player is detectable from the given point.
pub open spec fn any_player_near(players: Seq<Player>, x: i64, y: i64, z: i64) -> bool {
    exists|i: int| 0 <= i < players.len() && player_near(players[i], x, y, z)
}

/// The index of the nearest detectable player among the first `n`
/// entries, ties broken toward the earliest entry; `-1` when none is
/// detectable.
pub open spec fn nearest_prefix(players: Seq<Player>, x: i64, y: i64, z: i64, n: int) -> int
    decreases n,
{
    if n <= 0 {
        -1
    } else {
        let prev = nearest_prefix(players, x, y, z, n - 1);
        let c = players[n - 1];
        if player_near(c, x, y, z) && (prev == -1 || dist2_3d(
            c.position_x, c.position_y, c.position_z, x, y, z,
        ) < dist2_3d(
            players[prev].position_x, players[prev].position_y, players[prev].position_z, x, y, z,
        )) {
            n - 1
        } else {
            prev
        }
    }
}

/// The index of the nearest detectable player, `-1` when none is.
pub open spec fn nearest_player_index(players: Seq<Player>, x: i64, y: i64, z: i64) -> int {
    nearest_prefix(players, x, y, z, players.len() as int)
}

/// The player a tick steps toward or away from: the nearest detectable
/// one, if any.
pub open spec fn tick_target(players: Seq<Player>, x: i64, y: i64, z: i64) -> Option<Player> {
    let ti = nearest_player_index(players, x, y, z);
    if ti == -1 {
        None
    } else {
        Some(players[ti])
    }
}

/// The nearest result lies in range and is detectable when not `-1`.
proof fn lemma_nearest_prefix_bounds(players: Seq<Player>, x: i64, y: i64, z: i64, n: int)
    requires
        n <= players.len(),
    ensures
        nearest_prefix(players, x, y, z, n) == -1 || (0 <= nearest_prefix(players, x, y, z, n)
            < n && player_near(players[nearest_prefix(players, x, y, z, n)], x, y, z)),
    decreases n,
{
    if n > 0 {
        lemma_nearest_prefix_bounds(players, x, y, z, n - 1);
    }
}

/// Finds the nearest detectable player from a point: online, within the
/// perception radius, smallest squared distance, earliest row on ties.
fn find_nearest_player(players: &Vec<Player>, x: i64, y: i64, z: i64) -> (r: Option<usize>)
    requires
        point_ok(x, y, z),
        forall|i: int| 0 <= i < players@.len() ==> (#[trigger] players@[i]).wf(),
    ensures
        match r {
            Some(i) => i as int == nearest_player_index(players@, x, y, z),
            None => nearest_player_index(players@, x, y, z) == -1,
        },
{
    let mut best: Option<usize> = None;
    let mut best_d2: u64 = 0;
    let mut i: usize = 0;
    let radius2: u64 = (NPC_PERCEPTION_RADIUS * NPC_PERCEPTION_RADIUS) as u64;
    while i < players.len()
        invariant
            0 <= i <= players@.len(),
            point_ok(x, y, z),
            forall|k: int| 0 <= k < players@.len() ==> (#[trigger] players@[k]).wf(),
            radius2 == NPC_PERCEPTION_RADIUS * NPC_PERCEPTION_RADIUS,
            match best {
                Some(b) => b as int == nearest_prefix(players@, x, y, z, i as int) && b < i
                    && best_d2 == dist2_3d(
                    players@[b as int].position_x,
                    players@[b as int].position_y,
                    players@[b as int].position_z,
                    x, y, z,
                ),
                None => nearest_prefix(players@, x, y, z, i as int) == -1,
            },
        decreases players@.len() - i,
    {
        let p = &players[i];
        if p.is_online {
            let d2 = crate::geometry::distance_squared(
                p.position_x, p.position_y, p.position_z, x, y, z,
            );
            if d2 <= radius2 {
                match best {
                    None => {
                        best = Some(i);
                        best_d2 = d2;
                    },
                    Some(_) => {
                        if d2 < best_d2 {
                            best = Some(i);
                            best_d2 = d2;
                        }
                    },
                }
            }
        }
        i = i + 1;
    }
    best
}

/// Whether an NPC's health is in the fleeing band: below a fifth of its
/// maximum.
pub open spec fn low_health(n: NPC) -> bool {
    5 * n.health < n.max_health
}

/// The behavior transition table, evaluated once per tick. `nearby` says
/// whether any player is detectable from the NPC's position.
pub open spec fn npc_transition(n: NPC, nearby: bool, now: GameTime) -> AIState {
    match n.ai_state {
        AIState::Idle => if nearby {
            if aggressive_type(n.npc_type@) {
                AIState::Chasing
            } else {
                AIState::Idle
            }
        } else {
            AIState::Patrolling
        },
        AIState::Patrolling => if nearby && aggressive_type(n.npc_type@) {
            AIState::Chasing
        } else {
            AIState::Patrolling
        },
        AIState::Chasing => if !nearby {
            AIState::Idle
        } else if low_health(n) {
            AIState::Fleeing
        } else {
            AIState::Attacking
        },
        AIState::Attacking => if !nearby {
            AIState::Idle
        } else if low_health(n) {
            AIState::Fleeing
        } else {
            AIState::Attacking
        },
        AIState::Fleeing => if !nearby {
            AIState::Idle
        } else {
            AIState::Fleeing
        },
        AIState::Dead => if now >= n.respawn_time + NPC_RESPAWN_SECONDS {
            AIState::Idle
        } else {
            AIState::Dead
        },
    }
}

/// What one tick does to an NPC row, given the nearest detectable player.
///
/// A dead-by-damage NPC that is not yet marked dead is forced into the
/// dead state, recording the respawn timestamp, and nothing else runs.
/// Otherwise the transition table is evaluated once; a tick whose
/// transition keeps the current state changes nothing at all. On a state
/// change the movement side effect of the new state applies: a patrol
/// wanders to its position-seeded point, a chase or attack steps toward
/// the nearest player without overshooting, a flee steps away faster, and
/// a respawn restores full health where it stands.
pub open spec fn npc_tick_step(n: NPC, target: Option<Player>, now: GameTime) -> NPC {
    if n.health == 0 && n.ai_state != AIState::Dead {
        NPC { ai_state: AIState::Dead, respawn_time: now, ..n }
    } else {
        let next = npc_transition(n, target is Some, now);
        if next == n.ai_state {
            n
        } else {
            match next {
                AIState::Patrolling => {
                    let mv = patrol_position_spec(n.position_x, n.position_y);
                    NPC {
                        ai_state: next,
                        position_x: mv.0 as i64,
                        position_y: mv.1 as i64,
                        ..n
                    }
                },
                AIState::Chasing | AIState::Attacking => match target {
                    Some(t) => {
                        let mv = move_towards_spec(
                            n.position_x, n.position_y, t.position_x, t.position_y,
                            NPC_CHASE_SPEED,
                        );
                        NPC {
                            ai_state: next,
                            position_x: mv.0 as i64,
                            position_y: mv.1 as i64,
                            ..n
                        }
                    },
                    None => NPC { ai_state: next, ..n },
                },
                AIState::Fleeing => match target {
                    Some(t) => {
                        let mv = move_away_spec(
                            n.position_x, n.position_y, t.position_x, t.position_y,
                            NPC_FLEE_SPEED,
                        );
                        NPC {
                            ai_state: next,
                            position_x: mv.0 as i64,
                            position_y: mv.1 as i64,
                            ..n
                        }
                    },
                    None => NPC { ai_state: next, ..n },
                },
                AIState::Idle => if n.ai_state == AIState::Dead {
                    NPC { ai_state: next, health: n.max_health, ..n }
                } else {
                    NPC { ai_state: next, ..n }
                },
                AIState::Dead => NPC { ai_state: next, ..n },
            }
        }
    }
}

/// A tick whose transition conditions leave the behavior state where it
/// was changes nothing at all: no movement beyond a step already applied,
/// no health change, no timestamp change.
pub proof fn lemma_tick_fixed_point(n: NPC, target: Option<Player>, now: GameTime)
    ensures
        npc_tick_step(n, target, now).ai_state == n.ai_state ==> npc_tick_step(n, target, now)
            == n,
{
}

/// Re-evaluates one NPC's behavior: a single idempotent step of the state
/// machine, with the movement side effect of any state change.
pub fn update_npc_ai(state: &mut WorldState, npc_id: u64, now: GameTime) -> (r: Result<
    (),
    GameError,
>)
    requires
        old(state).wf(),
    ensures
        final(state).wf(),
        match r {
            Ok(_) => exists|ni: int|
                {
                    &&& 0 <= ni < old(state).npcs@.len()
                    &&& (#[trigger] old(state).npcs@[ni]).npc_id == npc_id
                    &&& final(state).npcs@ =~= old(state).npcs@.update(
                        ni,
                        npc_tick_step(
                            old(state).npcs@[ni],
                            tick_target(
                                old(state).players@,
                                old(state).npcs@[ni].position_x,
                                old(state).npcs@[ni].position_y,
                                old(state).npcs@[ni].position_z,
                            ),
                            now,
                        ),
                    )
                } && final(state).users@ == old(state).users@ && final(state).sessions@ == old(state).sessions@ && final(state).players@ == old(state).players@ && final(state).items@
                == old(state).items@ && final(state).inventory@ == old(state).inventory@ && final(state).skills@ == old(state).skills@ && final(state).messages@ == old(state).messages@
                && final(state).next_id == old(state).next_id,
            Err(GameError::NotFound) => !has_npc(old(state).npcs@, npc_id) && *final(state)
                == *old(state),
            Err(_) => false,
        },
{
    let ni = match state.find_npc_index(npc_id) {
        Some(i) => i,
        None => {
            return Err(GameError::NotFound);
        },
    };
    let nx = state.npcs[ni].position_x;
    let ny = state.npcs[ni].position_y;
    let nz = state.npcs[ni].position_z;
    proof {
        assert(state.npcs@[ni as int].wf());
    }
    let target = find_nearest_player(&state.players, nx, ny, nz);
    let mut row = state.npcs.remove(ni);
    let ghost old_row = old(state).npcs@[ni as int];
    let ghost spec_target = tick_target(old(state).players@, nx, ny, nz);
    proof {
        lemma_nearest_prefix_bounds(
            old(state).players@, nx, ny, nz, old(state).players@.len() as int,
        );
    }
    if row.health == 0 && !matches!(row.ai_state, AIState::Dead) {
        row.ai_state = AIState::Dead;
        row.respawn_time = now;
    } else {
        let nearby = target.is_some();
        let next: AIState = match row.ai_state {
            AIState::Idle => if nearby {
                if is_aggressive_npc(row.npc_type.as_str()) {
                    AIState::Chasing
                } else {
                    AIState::Idle
                }
            } else {
                AIState::Patrolling
            },
            AIState::Patrolling => if nearby && is_aggressive_npc(row.npc_type.as_str()) {
                AIState::Chasing
            } else {
                AIState::Patrolling
            },
            AIState::Chasing | AIState::Attacking => if !nearby {
                AIState::Idle
            } else if (row.health as u64) * 5 < (row.max_health as u64) {
                AIState::Fleeing
            } else {
                AIState::Attacking
            },
            AIState::Fleeing => if !nearby {
                AIState::Idle
            } else {
                AIState::Fleeing
            },
            AIState::Dead => if now >= NPC_RESPAWN_SECONDS && now - NPC_RESPAWN_SECONDS
                >= row.respawn_time {
                AIState::Idle
            } else {
                AIState::Dead
            },
        };
        proof {
            assert(next == npc_transition(old_row, spec_target is Some, now));
        }
        if next != row.ai_state {
            let was_dead = matches!(row.ai_state, AIState::Dead);
            match next {
                AIState::Patrolling => {
                    let mv = crate::geometry::get_patrol_position(row.position_x, row.position_y);
                    row.position_x = mv.0;
                    row.position_y = mv.1;
                },
                AIState::Chasing | AIState::Attacking => {
                    if let Some(ti) = target {
                        let mv = crate::geometry::move_towards_target(
                            row.position_x,
                            row.position_y,
                            state.players[ti].position_x,
                            state.players[ti].position_y,
                            NPC_CHASE_SPEED,
                        );
                        row.position_x = mv.0;
                        row.position_y = mv.1;
                    }
                },
                AIState::Fleeing => {
                    if let Some(ti) = target {
                        let mv = crate::geometry::move_away_from_target(
                            row.position_x,
                            row.position_y,
                            state.players[ti].position_x,
                            state.players[ti].position_y,
                            NPC_FLEE_SPEED,
                        );
                        row.position_x = mv.0;
                        row.position_y = mv.1;
                    }
                },
                AIState::Idle => {
                    if was_dead {
                        row.health = row.max_health;
                    }
                },
                AIState::Dead => {},
            }
            row.ai_state = next;
        }
    }
    proof {
        assert(row == npc_tick_step(old_row, spec_target, now));
    }
    state.npcs.insert(ni, row);
    proof {
        assert(state.npcs@ =~= old(state).npcs@.update(
            ni as int,
            npc_tick_step(old_row, spec_target, now),
        ));
    }
    Ok(())
}

/// What taking damage does to an NPC row: health drops, clamped at zero;
/// reaching zero forces the dead state and records the respawn timestamp;
/// surviving a hit while idle provokes a chase.
pub open spec fn damaged_npc(n: NPC, damage: u32, now: GameTime) -> NPC {
    let h = if damage >= n.health { 0u32 } else { (n.health - damage) as u32 };
    if h == 0 {
        NPC { health: 0, ai_state: AIState::Dead, respawn_time: now, ..n }
    } else if n.ai_state == AIState::Idle {
        NPC { health: h, ai_state: AIState::Chasing, ..n }
    } else {
        NPC { health: h, ..n }
    }
}

/// Applies a player's attack to an NPC. The caller must have an online
/// player within attack range of the NPC; the damage is subtracted with
/// health clamped at zero, death records the respawn timestamp, and a
/// surviving idle NPC is provoked into chasing.
pub fn attack_npc(
    state: &mut WorldState,
    caller: &Identity,
    npc_id: u64,
    damage: u32,
    now: GameTime,
) -> (r: Result<(), GameError>)
    requires
        old(state).wf(),
    ensures
        final(state).wf(),
        match r {
            Ok(_) => exists|pi: int, ni: int|
                {
                    &&& 0 <= pi < old(state).players@.len()
                    &&& (#[trigger] old(state).players@[pi]).identity == *caller
                    &&& old(state).players@[pi].is_online
                    &&& 0 <= ni < old(state).npcs@.len()
                    &&& (#[trigger] old(state).npcs@[ni]).npc_id == npc_id
                    &&& dist2_3d(
                        old(state).players@[pi].position_x,
                        old(state).players@[pi].position_y,
                        old(state).players@[pi].position_z,
                        old(state).npcs@[ni].position_x,
                        old(state).npcs@[ni].position_y,
                        old(state).npcs@[ni].position_z,
                    ) <= NPC_ATTACK_RANGE * NPC_ATTACK_RANGE
                    &&& final(state).npcs@ =~= old(state).npcs@.update(
                        ni,
                        damaged_npc(old(state).npcs@[ni], damage, now),
                    )
                } && final(state).users@ == old(state).users@ && final(state).sessions@ == old(state).sessions@ && final(state).players@ == old(state).players@ && final(state).items@
                == old(state).items@ && final(state).inventory@ == old(state).inventory@ && final(state).skills@ == old(state).skills@ && final(state).messages@ == old(state).messages@
                && final(state).next_id == old(state).next_id,
            Err(GameError::NotFound) => (!has_player(old(state).players@, *caller) || (
            crate::state::player_online(old(state).players@, *caller) && !has_npc(old(state).npcs@, npc_id)))
                && *final(state) == *old(state),
            Err(GameError::Permission) => has_player(old(state).players@, *caller)
                && !crate::state::player_online(old(state).players@, *caller) && *final(state) == *old(state),
            Err(GameError::Validation) => crate::state::player_online(old(state).players@, *caller) && exists|
                pi: int,
                ni: int,
            |
                {
                    &&& 0 <= pi < old(state).players@.len()
                    &&& (#[trigger] old(state).players@[pi]).identity == *caller
                    &&& 0 <= ni < old(state).npcs@.len()
                    &&& (#[trigger] old(state).npcs@[ni]).npc_id == npc_id
                    &&& dist2_3d(
                        old(state).players@[pi].position_x,
                        old(state).players@[pi].position_y,
                        old(state).players@[pi].position_z,
                        old(state).npcs@[ni].position_x,
                        old(state).npcs@[ni].position_y,
                        old(state).npcs@[ni].position_z,
                    ) > NPC_ATTACK_RANGE * NPC_ATTACK_RANGE
                } && *final(state) == *old(state),
            Err(_) => false,
        },
{
    let pi = match state.find_player_index(caller) {
        Some(i) => i,
        None => {
            return Err(GameError::NotFound);
        },
    };
    if !state.players[pi].is_online {
        return Err(GameError::Permission);
    }
    let ni = match state.find_npc_index(npc_id) {
        Some(i) => i,
        None => {
            return Err(GameError::NotFound);
        },
    };
    proof {
        assert(state.players@[pi as int].wf());
        assert(state.npcs@[ni as int].wf());
    }
    let d2 = crate::geometry::distance_squared(
        state.players[pi].position_x,
        state.players[pi].position_y,
        state.players[pi].position_z,
        state.npcs[ni].position_x,
        state.npcs[ni].position_y,
        state.npcs[ni].position_z,
    );
    let range2: u64 = (NPC_ATTACK_RANGE * NPC_ATTACK_RANGE) as u64;
    if d2 > range2 {
        return Err(GameError::Validation);
    }
    let mut row = state.npcs.remove(ni);
    let ghost old_row = old(state).npcs@[ni as int];
    let h = if damage >= row.health {
        0
    } else {
        row.health - damage
    };
    row.health = h;
    if h == 0 {
        row.ai_state = AIState::Dead;
        row.respawn_time = now;
    } else if matches!(row.ai_state, AIState::Idle) {
        row.ai_state = AIState::Chasing;
    }
    proof {
        assert(row == damaged_npc(old_row, damage, now));
    }
    state.npcs.insert(ni, row);
    proof {
        assert(state.npcs@ =~= old(state).npcs@.update(
            ni as int,
            damaged_npc(old_row, damage, now),
        ));
    }
    Ok(())
}


/// A surviving hit on an idle NPC always provokes it: any nonzero damage
/// that leaves health above zero moves the state from idle to chasing.
pub proof fn lemma_damage_provokes_aggression(n: NPC, damage: u32, now: GameTime)
    requires
        n.ai_state == AIState::Idle,
        damage < n.health,
    ensures
        damaged_npc(n, damage, now).ai_state == AIState::Chasing,
        damaged_npc(n, damage, now).health == n.health - damage,
{
}

/// A lethal hit forces the dead state and records the time of death as
/// the respawn timestamp, whatever state the NPC was in.
pub proof fn lemma_lethal_damage_records_death(n: NPC, damage: u32, now: GameTime)
    requires
        damage >= n.health,
    ensures
        damaged_npc(n, damage, now).ai_state == AIState::Dead,
        damaged_npc(n, damage, now).health == 0,
        damaged_npc(n, damage, now).respawn_time == now,
{
}

/// Once the respawn duration has elapsed, the next tick returns a dead
/// NPC to idle with its health fully restored, wherever it stands and
/// whoever is nearby.
pub proof fn lemma_respawn_after_duration(n: NPC, target: Option<Player>, now: GameTime)
    requires
        n.ai_state == AIState::Dead,
        n.health == 0,
        now >= n.respawn_time + NPC_RESPAWN_SECONDS,
    ensures
        npc_tick_step(n, target, now).ai_state == AIState::Idle,
        npc_tick_step(n, target, now).health == n.max_health,
        npc_tick_step(n, target, now).position_x == n.position_x,
        npc_tick_step(n, target, now).position_y == n.position_y,
        npc_tick_step(n, target, now).position_z == n.position_z,
{
}


/// Under unchanged surroundings the behavior state machine settles:
/// after at most three ticks with the same nearest player and the same
/// timestamp, a further tick changes nothing at all.
pub proof fn lemma_tick_settles(n: NPC, target: Option<Player>, now: GameTime)
    ensures
        ({
            let n3 = npc_tick_step(
                npc_tick_step(npc_tick_step(n, target, now), target, now),
                target,
                now,
            );
            npc_tick_step(n3, target, now) == n3
        }),
{
}

} // verus!
