//! Player lifecycle: joining and leaving the world, anti-cheat movement,
//! stat updates, and zone changes.

use vstd::prelude::*;
use vstd::string::*;
use crate::constants::MAX_MOVEMENT_DISTANCE;
use crate::errors::GameError;
use crate::geometry::{coord_ok, movement_valid, point_ok, validate_movement};
use crate::ids::{GameTime, Identity};
use crate::session::{sessions_refreshed, update_session_activity};
use crate::state::{
    copy_player, has_player, has_session, has_user, player_like, Player, WorldState,
};

verus! {

/// The row a first join creates: the default spawn at the origin, level
/// one, full health, online, in the requested zone.
pub open spec fn fresh_player(id: Identity, username: Seq<char>, zone: Seq<char>, now: GameTime, p: Player) -> bool {
    &&& p.identity == id
    &&& p.username@ == username
    &&& p.position_x == 0 && p.position_y == 0 && p.position_z == 0
    &&& p.rotation_yaw == 0
    &&& p.level == 1
    &&& p.experience == 0
    &&& p.health == 100
    &&& p.max_health == 100
    &&& p.is_online
    &&& p.last_seen == now
    &&& p.current_zone@ == zone
}

/// Joins the game world. The caller must be logged in and registered,
/// and the zone name must be non-empty. A first join creates the player
/// at the default spawn with full health and level one; a rejoin marks
/// the player online and moves it to the requested zone. Session
/// activity is refreshed either way.
pub fn join_game(
    state: &mut WorldState,
    caller: &Identity,
    starting_zone: String,
    now: GameTime,
) -> (r: Result<(), GameError>)
    requires
        old(state).wf(),
    ensures
        final(state).wf(),
        match r {
            Ok(_) => {
                &&& has_session(old(state).sessions@, *caller)
                &&& has_user(old(state).users@, *caller)
                &&& starting_zone@.len() >= 1
                &&& sessions_refreshed(
                    old(state).sessions@,
                    final(state).sessions@,
                    *caller,
                    now,
                )
                &&& if has_player(old(state).players@, *caller) {
                    exists|i: int|
                        0 <= i < old(state).players@.len() && (#[trigger] old(state).players@[i])
                            .identity == *caller && final(state).players@ =~= old(state).players@.update(
                            i,
                            Player {
                                is_online: true,
                                last_seen: now,
                                current_zone: final(state).players@[i].current_zone,
                                ..old(state).players@[i]
                            },
                        ) && final(state).players@[i].current_zone@ == starting_zone@
                } else {
                    &&& final(state).players@.len() == old(state).players@.len() + 1
                    &&& final(state).players@.drop_last() == old(state).players@
                    &&& exists|ui: int|
                        0 <= ui < old(state).users@.len() && (#[trigger] old(state).users@[ui])
                            .identity == *caller && fresh_player(
                            *caller,
                            old(state).users@[ui].username@,
                            starting_zone@,
                            now,
                            final(state).players@.last(),
                        )
                }
                &&& final(state).users@ == old(state).users@
                &&& final(state).npcs@ == old(state).npcs@
                &&& final(state).items@ == old(state).items@
                &&& final(state).inventory@ == old(state).inventory@
                &&& final(state).skills@ == old(state).skills@
                &&& final(state).messages@ == old(state).messages@
                &&& final(state).next_id == old(state).next_id
            },
            Err(GameError::Permission) => !has_session(old(state).sessions@, *caller) && *final(state) == *old(state),
            Err(GameError::NotFound) => has_session(old(state).sessions@, *caller) && !has_user(
                old(state).users@,
                *caller,
            ) && *final(state) == *old(state),
            Err(GameError::Validation) => has_session(old(state).sessions@, *caller) && has_user(
                old(state).users@,
                *caller,
            ) && starting_zone@.len() == 0 && *final(state) == *old(state),
            Err(_) => false,
        },
{
    if state.find_session_index(caller).is_none() {
        return Err(GameError::Permission);
    }
    let ui = match state.find_user_index(caller) {
        Some(i) => i,
        None => {
            return Err(GameError::NotFound);
        },
    };
    if starting_zone.as_str().unicode_len() == 0 {
        return Err(GameError::Validation);
    }
    update_session_activity(state, caller, now);
    match state.find_player_index(caller) {
        Some(pi) => {
            let mut row = state.players.remove(pi);
            row.is_online = true;
            row.last_seen = now;
            row.current_zone = starting_zone;
            state.players.insert(pi, row);
            proof {
                assert(state.players@ =~= old(state).players@.update(
                    pi as int,
                    Player {
                        is_online: true,
                        last_seen: now,
                        current_zone: state.players@[pi as int].current_zone,
                        ..old(state).players@[pi as int]
                    },
                ));
                assert(has_session(state.sessions@, *caller)) by {
                    let w = choose|w: int|
                        0 <= w < old(state).sessions@.len() && (#[trigger] old(state).sessions@[w])
                            .identity == *caller;
                    assert(state.sessions@[w].identity == *caller);
                }
                assert forall|k: int|
                    0 <= k < state.players@.len() && (#[trigger] state.players@[k]).is_online
                    implies has_session(state.sessions@, state.players@[k].identity) by {
                    if k != pi as int {
                        assert(old(state).players@[k].is_online);
                        let w = choose|w: int|
                            0 <= w < old(state).sessions@.len() && (
                            #[trigger] old(state).sessions@[w]).identity == old(state).players@[k].identity;
                        assert(state.sessions@[w].identity == old(state).players@[k].identity);
                    }
                }
            }
        },
        None => {
            let username = state.users[ui].username.clone();
            let row = Player {
                identity: *caller,
                username,
                position_x: 0,
                position_y: 0,
                position_z: 0,
                rotation_yaw: 0,
                level: 1,
                experience: 0,
                health: 100,
                max_health: 100,
                is_online: true,
                last_seen: now,
                current_zone: starting_zone,
            };
            state.players.push(row);
            proof {
                assert(state.players@.drop_last() =~= old(state).players@);
                assert forall|k: int|
                    0 <= k < state.players@.len() && (#[trigger] state.players@[k]).is_online
                    implies has_session(state.sessions@, state.players@[k].identity) by {
                    if k < old(state).players@.len() {
                        assert(state.players@[k] == old(state).players@[k]);
                        let w = choose|w: int|
                            0 <= w < old(state).sessions@.len() && (
                            #[trigger] old(state).sessions@[w]).identity == old(state).players@[k].identity;
                        assert(state.sessions@[w].identity == old(state).players@[k].identity);
                    } else {
                        let w = choose|w: int|
                            0 <= w < old(state).sessions@.len() && (
                            #[trigger] old(state).sessions@[w]).identity == *caller;
                        assert(state.sessions@[w].identity == *caller);
                    }
                }
            }
        },
    }
    Ok(())
}

/// Moves the caller's player. The proposed point must be representable
/// and within the per-update movement ceiling of the player's last known
/// position; an accepted move commits the position and facing and
/// refreshes activity, a rejected one changes nothing.
pub fn update_player_position(
    state: &mut WorldState,
    caller: &Identity,
    x: i64,
    y: i64,
    z: i64,
    yaw: i64,
    now: GameTime,
) -> (r: Result<(), GameError>)
    requires
        old(state).wf(),
    ensures
        final(state).wf(),
        match r {
            Ok(_) => exists|i: int|
                {
                    &&& 0 <= i < old(state).players@.len()
                    &&& (#[trigger] old(state).players@[i]).identity == *caller
                    &&& movement_valid(
                        old(state).players@[i].position_x,
                        old(state).players@[i].position_y,
                        old(state).players@[i].position_z,
                        x,
                        y,
                        z,
                        MAX_MOVEMENT_DISTANCE,
                    )
                    &&& final(state).players@ =~= old(state).players@.update(
                        i,
                        Player {
                            position_x: x,
                            position_y: y,
                            position_z: z,
                            rotation_yaw: yaw,
                            last_seen: now,
                            ..old(state).players@[i]
                        },
                    )
                } && sessions_refreshed(
                old(state).sessions@,
                final(state).sessions@,
                *caller,
                now,
            ) && final(state).users@ == old(state).users@ && final(state).npcs@ == old(state).npcs@ && final(state).items@ == old(state).items@ && final(state).inventory@ == old(state).inventory@ && final(state).skills@ == old(state).skills@ && final(state).messages@
                == old(state).messages@ && final(state).next_id == old(state).next_id,
            Err(GameError::NotFound) => !has_player(old(state).players@, *caller) && *final(state)
                == *old(state),
            Err(GameError::Validation) => exists|i: int|
                {
                    &&& 0 <= i < old(state).players@.len()
                    &&& (#[trigger] old(state).players@[i]).identity == *caller
                    &&& !movement_valid(
                        old(state).players@[i].position_x,
                        old(state).players@[i].position_y,
                        old(state).players@[i].position_z,
                        x,
                        y,
                        z,
                        MAX_MOVEMENT_DISTANCE,
                    )
                } && *final(state) == *old(state),
            Err(_) => false,
        },
{
    let pi = match state.find_player_index(caller) {
        Some(i) => i,
        None => {
            return Err(GameError::NotFound);
        },
    };
    proof {
        assert(state.players@[pi as int].wf());
    }
    if let Err(e) = validate_movement(
        state.players[pi].position_x,
        state.players[pi].position_y,
        state.players[pi].position_z,
        x,
        y,
        z,
        MAX_MOVEMENT_DISTANCE,
    ) {
        return Err(e);
    }
    let mut row = state.players.remove(pi);
    row.position_x = x;
    row.position_y = y;
    row.position_z = z;
    row.rotation_yaw = yaw;
    row.last_seen = now;
    state.players.insert(pi, row);
    proof {
        assert(state.players@ =~= old(state).players@.update(
            pi as int,
            Player {
                position_x: x,
                position_y: y,
                position_z: z,
                rotation_yaw: yaw,
                last_seen: now,
                ..old(state).players@[pi as int]
            },
        ));
        assert forall|k: int|
            0 <= k < state.players@.len() && (#[trigger] state.players@[k]).is_online implies
            has_session(state.sessions@, state.players@[k].identity) by {
            assert(state.players@[k].identity == old(state).players@[k].identity);
            assert(state.players@[k].is_online == old(state).players@[k].is_online);
        }
    }
    update_session_activity(state, caller, now);
    Ok(())
}

/// The online players standing in a zone, in table order.
pub open spec fn players_in_zone(players: Seq<Player>, zone: Seq<char>) -> Seq<Player>
    decreases players.len(),
{
    if players.len() == 0 {
        players
    } else if players.last().is_online && players.last().current_zone@ == zone {
        players_in_zone(players.drop_last(), zone).push(players.last())
    } else {
        players_in_zone(players.drop_last(), zone)
    }
}

/// Returns copies of the online players in a zone, in table order. The
/// caller must have a player row.
pub fn get_players_in_zone(state: &WorldState, caller: &Identity, zone: String) -> (r: Result<
    Vec<Player>,
    GameError,
>)
    ensures
        match r {
            Ok(v) => has_player(state.players@, *caller) && v@.len() == players_in_zone(
                state.players@,
                zone@,
            ).len() && forall|k: int|
                0 <= k < v@.len() ==> player_like(
                    #[trigger] v@[k],
                    players_in_zone(state.players@, zone@)[k],
                ),
            Err(e) => e == GameError::NotFound && !has_player(state.players@, *caller),
        },
{
    if state.find_player_index(caller).is_none() {
        return Err(GameError::NotFound);
    }
    let mut out: Vec<Player> = Vec::new();
    let mut i: usize = 0;
    while i < state.players.len()
        invariant
            0 <= i <= state.players@.len(),
            out@.len() == players_in_zone(state.players@.subrange(0, i as int), zone@).len(),
            forall|k: int|
                0 <= k < out@.len() ==> player_like(
                    #[trigger] out@[k],
                    players_in_zone(state.players@.subrange(0, i as int), zone@)[k],
                ),
        decreases state.players@.len() - i,
    {
        proof {
            let pre = state.players@.subrange(0, i as int);
            let post = state.players@.subrange(0, i + 1);
            assert(post.drop_last() =~= pre);
            assert(post.last() == state.players@[i as int]);
        }
        let p = &state.players[i];
        if p.is_online && crate::strutil::str_eq(p.current_zone.as_str(), zone.as_str()) {
            out.push(copy_player(p));
        }
        i = i + 1;
    }
    proof {
        assert(state.players@.subrange(0, state.players@.len() as int) =~= state.players@);
    }
    Ok(out)
}

/// Leaves the game without logging out: the caller's player, if any, is
/// marked offline; the session stays.
pub fn leave_game(state: &mut WorldState, caller: &Identity, now: GameTime) -> (r: Result<
    (),
    GameError,
>)
    requires
        old(state).wf(),
    ensures
        final(state).wf(),
        r is Ok,
        crate::session::players_online_set(
            old(state).players@,
            final(state).players@,
            *caller,
            false,
            now,
        ),
        final(state).users@ == old(state).users@,
        final(state).sessions@ == old(state).sessions@,
        final(state).npcs@ == old(state).npcs@,
        final(state).items@ == old(state).items@,
        final(state).inventory@ == old(state).inventory@,
        final(state).skills@ == old(state).skills@,
        final(state).messages@ == old(state).messages@,
        final(state).next_id == old(state).next_id,
{
    crate::session::set_online_status(state, caller, false, now);
    Ok(())
}

/// The stat changes an update applies to a player row: each given stat
/// replaces the old one, health is clamped into the (possibly new)
/// maximum, and the last-seen timestamp is refreshed.
pub open spec fn stats_applied(
    p: Player,
    level: Option<u32>,
    experience: Option<u64>,
    health: Option<u32>,
    max_health: Option<u32>,
    now: GameTime,
) -> Player {
    let l = match level {
        Some(v) => v,
        None => p.level,
    };
    let e = match experience {
        Some(v) => v,
        None => p.experience,
    };
    let m = match max_health {
        Some(v) => v,
        None => p.max_health,
    };
    let h0 = match health {
        Some(v) => if v <= p.max_health {
            v
        } else {
            p.max_health
        },
        None => p.health,
    };
    let h = if h0 <= m {
        h0
    } else {
        m
    };
    Player { level: l, experience: e, health: h, max_health: m, last_seen: now, ..p }
}

/// Updates the caller's stats: each given value replaces the stored one,
/// with health clamped so it never exceeds the maximum. A zero level or
/// a zero maximum is rejected, keeping every player row well-formed.
pub fn update_player_stats(
    state: &mut WorldState,
    caller: &Identity,
    level: Option<u32>,
    experience: Option<u64>,
    health: Option<u32>,
    max_health: Option<u32>,
    now: GameTime,
) -> (r: Result<(), GameError>)
    requires
        old(state).wf(),
    ensures
        final(state).wf(),
        match r {
            Ok(_) => level != Some(0u32) && max_health != Some(0u32) && exists|i: int|
                {
                    &&& 0 <= i < old(state).players@.len()
                    &&& (#[trigger] old(state).players@[i]).identity == *caller
                    &&& final(state).players@ =~= old(state).players@.update(
                        i,
                        stats_applied(
                            old(state).players@[i],
                            level,
                            experience,
                            health,
                            max_health,
                            now,
                        ),
                    )
                } && sessions_refreshed(
                old(state).sessions@,
                final(state).sessions@,
                *caller,
                now,
            ) && final(state).users@ == old(state).users@ && final(state).npcs@ == old(state).npcs@ && final(state).items@ == old(state).items@ && final(state).inventory@ == old(state).inventory@ && final(state).skills@ == old(state).skills@ && final(state).messages@
                == old(state).messages@ && final(state).next_id == old(state).next_id,
            Err(GameError::NotFound) => !has_player(old(state).players@, *caller) && *final(state)
                == *old(state),
            Err(GameError::Validation) => has_player(old(state).players@, *caller) && (level
                == Some(0u32) || max_health == Some(0u32)) && *final(state) == *old(state),
            Err(_) => false,
        },
{
    let pi = match state.find_player_index(caller) {
        Some(i) => i,
        None => {
            return Err(GameError::NotFound);
        },
    };
    match level {
        Some(0) => {
            return Err(GameError::Validation);
        },
        _ => {},
    }
    match max_health {
        Some(0) => {
            return Err(GameError::Validation);
        },
        _ => {},
    }
    let mut row = state.players.remove(pi);
    if let Some(v) = level {
        row.level = v;
    }
    if let Some(v) = experience {
        row.experience = v;
    }
    if let Some(v) = health {
        row.health = if v <= row.max_health {
            v
        } else {
            row.max_health
        };
    }
    if let Some(v) = max_health {
        row.max_health = v;
        if row.health > row.max_health {
            row.health = row.max_health;
        }
    }
    row.last_seen = now;
    proof {
        assert(row == stats_applied(
            old(state).players@[pi as int],
            level,
            experience,
            health,
            max_health,
            now,
        ));
    }
    state.players.insert(pi, row);
    proof {
        assert(state.players@ =~= old(state).players@.update(
            pi as int,
            stats_applied(old(state).players@[pi as int], level, experience, health, max_health, now),
        ));
        assert forall|k: int|
            0 <= k < state.players@.len() && (#[trigger] state.players@[k]).is_online implies
            has_session(state.sessions@, state.players@[k].identity) by {
            assert(state.players@[k].identity == old(state).players@[k].identity);
            assert(state.players@[k].is_online == old(state).players@[k].is_online);
        }
    }
    update_session_activity(state, caller, now);
    Ok(())
}

/// Moves the caller's player to another zone at the given spawn point.
/// The zone name must be non-empty and the spawn point representable;
/// activity is refreshed.
pub fn change_zone(
    state: &mut WorldState,
    caller: &Identity,
    new_zone: String,
    spawn_x: i64,
    spawn_y: i64,
    spawn_z: i64,
    now: GameTime,
) -> (r: Result<(), GameError>)
    requires
        old(state).wf(),
    ensures
        final(state).wf(),
        match r {
            Ok(_) => point_ok(spawn_x, spawn_y, spawn_z) && new_zone@.len() >= 1 && exists|i: int|
                {
                    &&& 0 <= i < old(state).players@.len()
                    &&& (#[trigger] old(state).players@[i]).identity == *caller
                    &&& final(state).players@ =~= old(state).players@.update(
                        i,
                        Player {
                            position_x: spawn_x,
                            position_y: spawn_y,
                            position_z: spawn_z,
                            last_seen: now,
                            current_zone: final(state).players@[i].current_zone,
                            ..old(state).players@[i]
                        },
                    )
                    &&& final(state).players@[i].current_zone@ == new_zone@
                } && sessions_refreshed(
                old(state).sessions@,
                final(state).sessions@,
                *caller,
                now,
            ) && final(state).users@ == old(state).users@ && final(state).npcs@ == old(state).npcs@ && final(state).items@ == old(state).items@ && final(state).inventory@ == old(state).inventory@ && final(state).skills@ == old(state).skills@ && final(state).messages@
                == old(state).messages@ && final(state).next_id == old(state).next_id,
            Err(GameError::NotFound) => !has_player(old(state).players@, *caller) && *final(state)
                == *old(state),
            Err(GameError::Validation) => has_player(old(state).players@, *caller) && (!point_ok(
                spawn_x,
                spawn_y,
                spawn_z,
            ) || new_zone@.len() == 0) && *final(state) == *old(state),
            Err(_) => false,
        },
{
    let pi = match state.find_player_index(caller) {
        Some(i) => i,
        None => {
            return Err(GameError::NotFound);
        },
    };
    if !(coord_in_range(spawn_x) && coord_in_range(spawn_y) && coord_in_range(spawn_z)) {
        return Err(GameError::Validation);
    }
    if new_zone.as_str().unicode_len() == 0 {
        return Err(GameError::Validation);
    }
    let mut row = state.players.remove(pi);
    row.position_x = spawn_x;
    row.position_y = spawn_y;
    row.position_z = spawn_z;
    row.last_seen = now;
    row.current_zone = new_zone;
    state.players.insert(pi, row);
    proof {
        assert(state.players@ =~= old(state).players@.update(
            pi as int,
            Player {
                position_x: spawn_x,
                position_y: spawn_y,
                position_z: spawn_z,
                last_seen: now,
                current_zone: state.players@[pi as int].current_zone,
                ..old(state).players@[pi as int]
            },
        ));
        assert forall|k: int|
            0 <= k < state.players@.len() && (#[trigger] state.players@[k]).is_online implies
            has_session(state.sessions@, state.players@[k].identity) by {
            assert(state.players@[k].identity == old(state).players@[k].identity);
            assert(state.players@[k].is_online == old(state).players@[k].is_online);
        }
    }
    update_session_activity(state, caller, now);
    Ok(())
}

/// Whether a coordinate lies within the representable range.
fn coord_in_range(v: i64) -> (r: bool)
    ensures
        r == coord_ok(v),
{
    -crate::geometry::COORD_LIMIT <= v && v <= crate::geometry::COORD_LIMIT
}

} // verus!
