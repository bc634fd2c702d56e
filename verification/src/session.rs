//! Session lifecycle: registration, login, logout, activity tracking,
//! and the inactivity cleanup that reaps stale sessions.

use vstd::prelude::*;
use vstd::string::*;
use crate::auth::{generate_salt, hash_password, password_hash_of, salt_of, verify_password};
use crate::constants::INACTIVITY_TIMEOUT_SECONDS;
use crate::errors::GameError;
use crate::ids::{GameTime, Identity};
use crate::state::{
    copy_session, copy_user, has_player, has_session, has_user, has_username, player_online,
    session_like, user_like, GameSession, Player, User, WorldState,
};
use crate::validation::{
    email_ok, password_ok, username_ok, validate_email, validate_password, validate_username,
};

verus! {

/// What refreshing a session's activity does: the session of the
/// identity, if one exists, gets the new activity timestamp; nothing else
/// changes.
pub open spec fn sessions_refreshed(
    old_s: Seq<GameSession>,
    new_s: Seq<GameSession>,
    id: Identity,
    now: GameTime,
) -> bool {
    if has_session(old_s, id) {
        exists|i: int|
            0 <= i < old_s.len() && (#[trigger] old_s[i]).identity == id && new_s =~= old_s.update(
                i,
                GameSession { last_activity: now, ..old_s[i] },
            )
    } else {
        new_s == old_s
    }
}

/// What setting a player's online flag does: the player row of the
/// identity, if one exists, gets the flag and the new last-seen
/// timestamp; nothing else changes.
pub open spec fn players_online_set(
    old_p: Seq<Player>,
    new_p: Seq<Player>,
    id: Identity,
    online: bool,
    now: GameTime,
) -> bool {
    if has_player(old_p, id) {
        exists|i: int|
            0 <= i < old_p.len() && (#[trigger] old_p[i]).identity == id && new_p =~= old_p.update(
                i,
                Player { is_online: online, last_seen: now, ..old_p[i] },
            )
    } else {
        new_p == old_p
    }
}

/// Refreshes the activity timestamp of the identity's session, if one
/// exists.
pub fn update_session_activity(state: &mut WorldState, id: &Identity, now: GameTime)
    requires
        old(state).wf(),
    ensures
        final(state).wf(),
        sessions_refreshed(old(state).sessions@, final(state).sessions@, *id, now),
        final(state).users@ == old(state).users@,
        final(state).players@ == old(state).players@,
        final(state).npcs@ == old(state).npcs@,
        final(state).items@ == old(state).items@,
        final(state).inventory@ == old(state).inventory@,
        final(state).skills@ == old(state).skills@,
        final(state).messages@ == old(state).messages@,
        final(state).next_id == old(state).next_id,
{
    if let Some(i) = state.find_session_index(id) {
        let mut row = state.sessions.remove(i);
        row.last_activity = now;
        state.sessions.insert(i, row);
        proof {
            assert(state.sessions@ =~= old(state).sessions@.update(
                i as int,
                GameSession { last_activity: now, ..old(state).sessions@[i as int] },
            ));
            assert forall|k: int|
                0 <= k < state.players@.len() && (#[trigger] state.players@[k]).is_online implies
                has_session(state.sessions@, state.players@[k].identity) by {
                let w = choose|w: int|
                    0 <= w < old(state).sessions@.len() && (#[trigger] old(state).sessions@[w])
                        .identity == state.players@[k].identity;
                assert(state.sessions@[w].identity == old(state).sessions@[w].identity);
            }
        }
    }
}

/// Sets the online flag and last-seen timestamp of the identity's player
/// row, if one exists. Marking a player online requires a live session
/// for the identity, so the online flag never outlives the session.
pub fn set_online_status(state: &mut WorldState, id: &Identity, online: bool, now: GameTime)
    requires
        old(state).wf(),
        online ==> has_session(old(state).sessions@, *id),
    ensures
        final(state).wf(),
        players_online_set(old(state).players@, final(state).players@, *id, online, now),
        final(state).users@ == old(state).users@,
        final(state).sessions@ == old(state).sessions@,
        final(state).npcs@ == old(state).npcs@,
        final(state).items@ == old(state).items@,
        final(state).inventory@ == old(state).inventory@,
        final(state).skills@ == old(state).skills@,
        final(state).messages@ == old(state).messages@,
        final(state).next_id == old(state).next_id,
{
    if let Some(i) = state.find_player_index(id) {
        let mut row = state.players.remove(i);
        row.is_online = online;
        row.last_seen = now;
        state.players.insert(i, row);
        proof {
            assert(state.players@ =~= old(state).players@.update(
                i as int,
                Player { is_online: online, last_seen: now, ..old(state).players@[i as int] },
            ));
        }
    }
}

/// Refreshes the last-login timestamp of the identity's user row, if one
/// exists.
pub fn update_last_login(state: &mut WorldState, id: &Identity, now: GameTime)
    requires
        old(state).wf(),
    ensures
        final(state).wf(),
        if has_user(old(state).users@, *id) {
            exists|i: int|
                0 <= i < old(state).users@.len() && (#[trigger] old(state).users@[i]).identity
                    == *id && final(state).users@ =~= old(state).users@.update(
                    i,
                    User { last_login: now, ..old(state).users@[i] },
                )
        } else {
            final(state).users@ == old(state).users@
        },
        final(state).sessions@ == old(state).sessions@,
        final(state).players@ == old(state).players@,
        final(state).npcs@ == old(state).npcs@,
        final(state).items@ == old(state).items@,
        final(state).inventory@ == old(state).inventory@,
        final(state).skills@ == old(state).skills@,
        final(state).messages@ == old(state).messages@,
        final(state).next_id == old(state).next_id,
{
    if let Some(i) = state.find_user_index(id) {
        let mut row = state.users.remove(i);
        row.last_login = now;
        state.users.insert(i, row);
        proof {
            assert(state.users@ =~= old(state).users@.update(
                i as int,
                User { last_login: now, ..old(state).users@[i as int] },
            ));
        }
    }
}

/// Registers a new account. The username, password, and optional email
/// must pass validation, the username must be free, and the caller must
/// not already own an account. The password is stored as a salted digest,
/// never in the clear.
pub fn register_user(
    state: &mut WorldState,
    caller: &Identity,
    username: String,
    password: String,
    email: Option<String>,
    now: GameTime,
) -> (r: Result<(), GameError>)
    requires
        old(state).wf(),
    ensures
        final(state).wf(),
        match r {
            Ok(_) => {
                &&& username_ok(username@)
                &&& password_ok(password@)
                &&& match email {
                    Some(e) => email_ok(e@),
                    None => true,
                }
                &&& !has_username(old(state).users@, username@)
                &&& !has_user(old(state).users@, *caller)
                &&& final(state).users@.len() == old(state).users@.len() + 1
                &&& final(state).users@.drop_last() == old(state).users@
                &&& {
                    let u = final(state).users@.last();
                    &&& u.identity == *caller
                    &&& u.username@ == username@
                    &&& u.password_salt@ == salt_of(*caller, now)
                    &&& u.password_hash@ == password_hash_of(password@, salt_of(*caller, now))
                    &&& match (u.email, email) {
                        (Some(x), Some(y)) => x@ == y@,
                        (None, None) => true,
                        _ => false,
                    }
                    &&& u.created_at == now
                    &&& u.last_login == now
                    &&& u.is_active
                }
                &&& final(state).sessions@ == old(state).sessions@
                &&& final(state).players@ == old(state).players@
                &&& final(state).npcs@ == old(state).npcs@
                &&& final(state).items@ == old(state).items@
                &&& final(state).inventory@ == old(state).inventory@
                &&& final(state).skills@ == old(state).skills@
                &&& final(state).messages@ == old(state).messages@
                &&& final(state).next_id == old(state).next_id
            },
            Err(GameError::Validation) => (!username_ok(username@) || !password_ok(password@)
                || match email {
                Some(e) => !email_ok(e@),
                None => false,
            }) && *final(state) == *old(state),
            Err(GameError::State) => username_ok(username@) && password_ok(password@) && match email {
                Some(e) => email_ok(e@),
                None => true,
            } && (has_username(old(state).users@, username@) || has_user(
                old(state).users@,
                *caller,
            )) && *final(state) == *old(state),
            Err(_) => false,
        },
{
    if let Err(e) = validate_username(username.as_str()) {
        return Err(e);
    }
    if let Err(e) = validate_password(password.as_str()) {
        return Err(e);
    }
    if let Some(addr) = &email {
        if let Err(e) = validate_email(addr.as_str()) {
            return Err(e);
        }
    }
    if state.find_user_by_username(username.as_str()).is_some() {
        return Err(GameError::State);
    }
    if state.find_user_index(caller).is_some() {
        return Err(GameError::State);
    }
    let salt = generate_salt(caller, now);
    let password_hash = hash_password(password.as_str(), salt.as_str());
    let user = User {
        identity: *caller,
        username,
        password_hash,
        password_salt: salt,
        email,
        created_at: now,
        last_login: now,
        is_active: true,
    };
    state.users.push(user);
    proof {
        assert(state.users@.drop_last() =~= old(state).users@);
    }
    Ok(())
}

/// Authenticates a user and opens or refreshes the caller's session. The
/// username must name an active account whose stored hash the password
/// reproduces; a failed lookup and a failed password give the same
/// refusal.
pub fn login_user(
    state: &mut WorldState,
    caller: &Identity,
    username: String,
    password: String,
    client_version: String,
    connection_id: Option<u64>,
    now: GameTime,
) -> (r: Result<(), GameError>)
    requires
        old(state).wf(),
    ensures
        final(state).wf(),
        match r {
            Ok(_) => exists|ui: int|
                {
                    &&& 0 <= ui < old(state).users@.len()
                    &&& (#[trigger] old(state).users@[ui]).username@ == username@
                    &&& old(state).users@[ui].is_active
                    &&& old(state).users@[ui].password_hash@ == password_hash_of(
                        password@,
                        old(state).users@[ui].password_salt@,
                    )
                } && {
                if has_user(old(state).users@, *caller) {
                    exists|i: int|
                        0 <= i < old(state).users@.len() && (#[trigger] old(state).users@[i])
                            .identity == *caller && final(state).users@ =~= old(state).users@.update(i, User { last_login: now, ..old(state).users@[i] })
                } else {
                    final(state).users@ == old(state).users@
                }
            } && {
                if has_session(old(state).sessions@, *caller) {
                    sessions_refreshed(old(state).sessions@, final(state).sessions@, *caller, now)
                } else {
                    &&& final(state).sessions@.len() == old(state).sessions@.len() + 1
                    &&& final(state).sessions@.drop_last() == old(state).sessions@
                    &&& {
                        let sn = final(state).sessions@.last();
                        &&& sn.identity == *caller
                        &&& sn.connection_id == connection_id
                        &&& sn.login_time == now
                        &&& sn.last_activity == now
                        &&& sn.client_version@ == client_version@
                        &&& sn.ip_address@ == "unknown"@
                    }
                }
            } && final(state).players@ == old(state).players@ && final(state).npcs@
                == old(state).npcs@ && final(state).items@ == old(state).items@ && final(state).inventory@ == old(state).inventory@ && final(state).skills@ == old(state).skills@
                && final(state).messages@ == old(state).messages@ && final(state).next_id
                == old(state).next_id,
            Err(GameError::Permission) => (!has_username(old(state).users@, username@) || exists|
                ui: int,
            |
                {
                    &&& 0 <= ui < old(state).users@.len()
                    &&& (#[trigger] old(state).users@[ui]).username@ == username@
                    &&& (!old(state).users@[ui].is_active || old(state).users@[ui].password_hash@
                        != password_hash_of(password@, old(state).users@[ui].password_salt@))
                }) && *final(state) == *old(state),
            Err(_) => false,
        },
{
    let ui = match state.find_user_by_username(username.as_str()) {
        Some(i) => i,
        None => {
            return Err(GameError::Permission);
        },
    };
    if !state.users[ui].is_active {
        return Err(GameError::Permission);
    }
    if !verify_password(
        password.as_str(),
        state.users[ui].password_hash.as_str(),
        state.users[ui].password_salt.as_str(),
    ) {
        return Err(GameError::Permission);
    }
    update_last_login(state, caller, now);
    if state.find_session_index(caller).is_some() {
        update_session_activity(state, caller, now);
    } else {
        let session = GameSession {
            identity: *caller,
            connection_id,
            login_time: now,
            last_activity: now,
            client_version,
            ip_address: "unknown".to_owned(),
        };
        state.sessions.push(session);
        proof {
            assert(state.sessions@.drop_last() =~= old(state).sessions@);
            assert forall|i: int|
                0 <= i < state.players@.len() && (#[trigger] state.players@[i]).is_online implies
                has_session(state.sessions@, state.players@[i].identity) by {
                let w = choose|k: int|
                    0 <= k < old(state).sessions@.len() && (#[trigger] old(state).sessions@[k])
                        .identity == state.players@[i].identity;
                assert(state.sessions@[w] == old(state).sessions@[w]);
            }
        }
    }
    Ok(())
}

/// Ends the caller's session and marks the caller's player offline. The
/// operation succeeds whether or not a session or a player exists.
pub fn logout_user(state: &mut WorldState, caller: &Identity, now: GameTime) -> (r: Result<
    (),
    GameError,
>)
    requires
        old(state).wf(),
    ensures
        final(state).wf(),
        r is Ok,
        if has_session(old(state).sessions@, *caller) {
            exists|i: int|
                0 <= i < old(state).sessions@.len() && (#[trigger] old(state).sessions@[i])
                    .identity == *caller && final(state).sessions@ =~= old(state).sessions@.remove(i)
        } else {
            final(state).sessions@ == old(state).sessions@
        },
        players_online_set(old(state).players@, final(state).players@, *caller, false, now),
        final(state).users@ == old(state).users@,
        final(state).npcs@ == old(state).npcs@,
        final(state).items@ == old(state).items@,
        final(state).inventory@ == old(state).inventory@,
        final(state).skills@ == old(state).skills@,
        final(state).messages@ == old(state).messages@,
        final(state).next_id == old(state).next_id,
{
    set_online_status(state, caller, false, now);
    proof {
        if player_online(state.players@, *caller) {
            let w = choose|w: int|
                0 <= w < state.players@.len() && (#[trigger] state.players@[w]).identity == *caller
                    && state.players@[w].is_online;
        }
    }
    remove_session(state, caller);
    Ok(())
}

/// Removes the identity's session, if one exists. The identity's player
/// must already be offline, so the online flag never outlives the
/// session.
fn remove_session(state: &mut WorldState, id: &Identity)
    requires
        old(state).wf(),
        !player_online(old(state).players@, *id),
    ensures
        final(state).wf(),
        final(state).sessions@.len() <= old(state).sessions@.len(),
        if has_session(old(state).sessions@, *id) {
            exists|i: int|
                0 <= i < old(state).sessions@.len() && (#[trigger] old(state).sessions@[i])
                    .identity == *id && final(state).sessions@ =~= old(state).sessions@.remove(i)
        } else {
            final(state).sessions@ == old(state).sessions@
        },
        forall|oid: Identity|
            oid != *id && has_session(old(state).sessions@, oid) ==> has_session(
                final(state).sessions@,
                oid,
            ),
        final(state).sessions_wf(),
        final(state).users@ == old(state).users@,
        final(state).players@ == old(state).players@,
        final(state).npcs@ == old(state).npcs@,
        final(state).items@ == old(state).items@,
        final(state).inventory@ == old(state).inventory@,
        final(state).skills@ == old(state).skills@,
        final(state).messages@ == old(state).messages@,
        final(state).next_id == old(state).next_id,
{
    if let Some(i) = state.find_session_index(id) {
        state.sessions.remove(i);
        proof {
            let old_s = old(state).sessions@;
            let new_s = state.sessions@;
            assert forall|oid: Identity|
                oid != *id && has_session(old_s, oid) implies has_session(new_s, oid) by {
                let w = choose|k: int|
                    0 <= k < old_s.len() && (#[trigger] old_s[k]).identity == oid;
                if w < i as int {
                    assert(new_s[w] == old_s[w]);
                } else {
                    assert(new_s[w - 1] == old_s[w]);
                }
            }
            assert forall|a: int, b: int| 0 <= a < b < new_s.len() implies (
            #[trigger] new_s[a]).identity != (#[trigger] new_s[b]).identity by {
                let sa: int = if a < i as int { a } else { a + 1 };
                let sb: int = if b < i as int { b } else { b + 1 };
                assert(new_s[a] == old_s[sa]);
                assert(new_s[b] == old_s[sb]);
            }
            assert forall|k: int|
                0 <= k < state.players@.len() && (#[trigger] state.players@[k]).is_online implies
                has_session(new_s, state.players@[k].identity) by {
                assert(has_session(old_s, state.players@[k].identity));
                let w = choose|w: int|
                    0 <= w < old_s.len() && (#[trigger] old_s[w]).identity
                        == state.players@[k].identity;
                assert(old_s[w].identity != *id);
                assert(w != i as int);
                if w < i as int {
                    assert(new_s[w] == old_s[w]);
                } else {
                    assert(new_s[w - 1] == old_s[w]);
                }
            }
        }
    }
}

/// Keeps the caller's session alive and, when the caller's player is in
/// the game, refreshes its last-seen timestamp too.
pub fn heartbeat(state: &mut WorldState, caller: &Identity, now: GameTime) -> (r: Result<
    (),
    GameError,
>)
    requires
        old(state).wf(),
    ensures
        final(state).wf(),
        r is Ok,
        sessions_refreshed(old(state).sessions@, final(state).sessions@, *caller, now),
        if player_online(old(state).players@, *caller) {
            players_online_set(old(state).players@, final(state).players@, *caller, true, now)
        } else {
            final(state).players@ == old(state).players@
        },
        final(state).users@ == old(state).users@,
        final(state).npcs@ == old(state).npcs@,
        final(state).items@ == old(state).items@,
        final(state).inventory@ == old(state).inventory@,
        final(state).skills@ == old(state).skills@,
        final(state).messages@ == old(state).messages@,
        final(state).next_id == old(state).next_id,
{
    update_session_activity(state, caller, now);
    let online = match state.find_player_index(caller) {
        Some(i) => state.players[i].is_online,
        None => false,
    };
    if online {
        proof {
            assert(player_online(old(state).players@, *caller));
            assert(has_session(old(state).sessions@, *caller));
            let w = choose|w: int|
                0 <= w < old(state).sessions@.len() && (#[trigger] old(state).sessions@[w])
                    .identity == *caller;
            if has_session(old(state).sessions@, *caller) {
                let i = choose|i: int|
                    0 <= i < old(state).sessions@.len() && (#[trigger] old(state).sessions@[i])
                        .identity == *caller && state.sessions@ =~= old(state).sessions@.update(
                        i,
                        GameSession { last_activity: now, ..old(state).sessions@[i] },
                    );
                assert(state.sessions@[i].identity == *caller);
            }
        }
        set_online_status(state, caller, true, now);
    }
    Ok(())
}

/// Returns a copy of the caller's session, if one exists.
pub fn get_session_info(state: &WorldState, caller: &Identity) -> (r: Result<
    Option<GameSession>,
    GameError,
>)
    ensures
        match r {
            Ok(Some(s)) => exists|i: int|
                0 <= i < state.sessions@.len() && (#[trigger] state.sessions@[i]).identity
                    == *caller && session_like(s, state.sessions@[i]),
            Ok(None) => !has_session(state.sessions@, *caller),
            Err(_) => false,
        },
{
    match state.find_session_index(caller) {
        Some(i) => Ok(Some(copy_session(&state.sessions[i]))),
        None => Ok(None),
    }
}

/// How many player rows are online.
pub open spec fn online_count(players: Seq<Player>) -> int
    decreases players.len(),
{
    if players.len() == 0 {
        0
    } else {
        online_count(players.drop_last()) + if players.last().is_online {
            1int
        } else {
            0int
        }
    }
}

/// Counts the players currently online.
pub fn get_online_players_count(state: &WorldState) -> (r: Result<u32, GameError>)
    requires
        state.players@.len() <= u32::MAX,
    ensures
        r matches Ok(n) && n == online_count(state.players@),
{
    let mut count: u32 = 0;
    let mut i: usize = 0;
    while i < state.players.len()
        invariant
            0 <= i <= state.players@.len(),
            state.players@.len() <= u32::MAX,
            count == online_count(state.players@.subrange(0, i as int)),
            count <= i,
        decreases state.players@.len() - i,
    {
        proof {
            let pre = state.players@.subrange(0, i as int);
            let post = state.players@.subrange(0, i + 1);
            assert(post.drop_last() =~= pre);
            assert(post.last() == state.players@[i as int]);
        }
        if state.players[i].is_online {
            count = count + 1;
        }
        i = i + 1;
    }
    proof {
        assert(state.players@.subrange(0, state.players@.len() as int) =~= state.players@);
    }
    Ok(count)
}

/// Disconnects the user with the given username: removes the session and
/// marks the player offline, as one atomic step.
pub fn force_disconnect_user(
    state: &mut WorldState,
    target_username: String,
    now: GameTime,
) -> (r: Result<(), GameError>)
    requires
        old(state).wf(),
    ensures
        final(state).wf(),
        match r {
            Ok(_) => exists|ui: int|
                {
                    &&& 0 <= ui < old(state).users@.len()
                    &&& (#[trigger] old(state).users@[ui]).username@ == target_username@
                    &&& {
                        let target = old(state).users@[ui].identity;
                        &&& if has_session(old(state).sessions@, target) {
                            exists|i: int|
                                0 <= i < old(state).sessions@.len() && (
                                #[trigger] old(state).sessions@[i]).identity == target && final(state).sessions@ =~= old(state).sessions@.remove(i)
                        } else {
                            final(state).sessions@ == old(state).sessions@
                        }
                        &&& players_online_set(
                            old(state).players@,
                            final(state).players@,
                            target,
                            false,
                            now,
                        )
                    }
                } && final(state).users@ == old(state).users@ && final(state).npcs@
                == old(state).npcs@ && final(state).items@ == old(state).items@ && final(state).inventory@ == old(state).inventory@ && final(state).skills@ == old(state).skills@
                && final(state).messages@ == old(state).messages@ && final(state).next_id
                == old(state).next_id,
            Err(GameError::NotFound) => !has_username(old(state).users@, target_username@)
                && *final(state) == *old(state),
            Err(_) => false,
        },
{
    let ui = match state.find_user_by_username(target_username.as_str()) {
        Some(i) => i,
        None => {
            return Err(GameError::NotFound);
        },
    };
    let target = Identity { bits: state.users[ui].identity.bits };
    set_online_status(state, &target, false, now);
    remove_session(state, &target);
    Ok(())
}

/// Records the client build the caller runs, refreshing session activity
/// with it; a caller without a session changes nothing.
pub fn update_client_version(
    state: &mut WorldState,
    caller: &Identity,
    client_version: String,
    now: GameTime,
) -> (r: Result<(), GameError>)
    requires
        old(state).wf(),
    ensures
        final(state).wf(),
        r is Ok,
        if has_session(old(state).sessions@, *caller) {
            exists|i: int|
                0 <= i < old(state).sessions@.len() && (#[trigger] old(state).sessions@[i])
                    .identity == *caller && final(state).sessions@ =~= old(state).sessions@.update(
                    i,
                    GameSession {
                        last_activity: now,
                        client_version: final(state).sessions@[i].client_version,
                        ..old(state).sessions@[i]
                    },
                ) && final(state).sessions@[i].client_version@ == client_version@
        } else {
            final(state).sessions@ == old(state).sessions@
        },
        final(state).users@ == old(state).users@,
        final(state).players@ == old(state).players@,
        final(state).npcs@ == old(state).npcs@,
        final(state).items@ == old(state).items@,
        final(state).inventory@ == old(state).inventory@,
        final(state).skills@ == old(state).skills@,
        final(state).messages@ == old(state).messages@,
        final(state).next_id == old(state).next_id,
{
    if let Some(i) = state.find_session_index(caller) {
        let mut row = state.sessions.remove(i);
        row.client_version = client_version;
        row.last_activity = now;
        state.sessions.insert(i, row);
        proof {
            assert(state.sessions@ =~= old(state).sessions@.update(
                i as int,
                GameSession {
                    last_activity: now,
                    client_version: state.sessions@[i as int].client_version,
                    ..old(state).sessions@[i as int]
                },
            ));
            assert forall|k: int|
                0 <= k < state.players@.len() && (#[trigger] state.players@[k]).is_online implies
                has_session(state.sessions@, state.players@[k].identity) by {
                let w = choose|w: int|
                    0 <= w < old(state).sessions@.len() && (#[trigger] old(state).sessions@[w])
                        .identity == state.players@[k].identity;
                assert(state.sessions@[w].identity == old(state).sessions@[w].identity);
            }
        }
    }
    Ok(())
}

/// Whether a session has been inactive past the timeout at the given
/// time.
pub open spec fn session_stale(s: GameSession, now: GameTime) -> bool {
    s.last_activity + INACTIVITY_TIMEOUT_SECONDS < now
}

/// The sessions that survive an inactivity sweep, in order.
pub open spec fn retained_sessions(s: Seq<GameSession>, now: GameTime) -> Seq<GameSession>
    decreases s.len(),
{
    if s.len() == 0 {
        s
    } else if session_stale(s.last(), now) {
        retained_sessions(s.drop_last(), now)
    } else {
        retained_sessions(s.drop_last(), now).push(s.last())
    }
}

/// How many sessions an inactivity sweep removes.
pub open spec fn stale_count(s: Seq<GameSession>, now: GameTime) -> int
    decreases s.len(),
{
    if s.len() == 0 {
        0
    } else {
        stale_count(s.drop_last(), now) + if session_stale(s.last(), now) {
            1int
        } else {
            0int
        }
    }
}

/// Whether the identity has a session that the sweep removes.
pub open spec fn has_stale_session(s: Seq<GameSession>, id: Identity, now: GameTime) -> bool {
    exists|i: int| 0 <= i < s.len() && s[i].identity == id && session_stale(s[i], now)
}

/// Every retained session comes from the swept table.
proof fn lemma_retained_from(s: Seq<GameSession>, now: GameTime)
    ensures
        forall|m: int|
            0 <= m < retained_sessions(s, now).len() ==> exists|k: int|
                0 <= k < s.len() && s[k] == #[trigger] retained_sessions(s, now)[m]
                    && !session_stale(s[k], now),
    decreases s.len(),
{
    if s.len() > 0 {
        lemma_retained_from(s.drop_last(), now);
        let cur = retained_sessions(s, now);
        let rest = retained_sessions(s.drop_last(), now);
        assert forall|m: int| 0 <= m < cur.len() implies exists|k: int|
            0 <= k < s.len() && s[k] == #[trigger] cur[m] && !session_stale(s[k], now) by {
            if session_stale(s.last(), now) || m < rest.len() {
                assert(cur[m] == rest[m]);
                let k = choose|k: int|
                    0 <= k < s.drop_last().len() && s.drop_last()[k] == rest[m] && !session_stale(
                        s.drop_last()[k],
                        now,
                    );
                assert(s[k] == s.drop_last()[k]);
            } else {
                assert(cur[m] == s.last());
                assert(s[s.len() - 1] == s.last());
            }
        }
    }
}

/// A session that is not stale survives the sweep.
proof fn lemma_retained_keeps(s: Seq<GameSession>, now: GameTime, k: int)
    requires
        0 <= k < s.len(),
        !session_stale(s[k], now),
    ensures
        exists|m: int|
            0 <= m < retained_sessions(s, now).len() && #[trigger] retained_sessions(s, now)[m]
                == s[k],
    decreases s.len(),
{
    if k == s.len() - 1 {
        let cur = retained_sessions(s, now);
        assert(cur[cur.len() - 1] == s.last());
    } else {
        lemma_retained_keeps(s.drop_last(), now, k);
        let rest = retained_sessions(s.drop_last(), now);
        let m = choose|m: int| 0 <= m < rest.len() && #[trigger] rest[m] == s.drop_last()[k];
        if session_stale(s.last(), now) {
            assert(retained_sessions(s, now)[m] == rest[m]);
        } else {
            assert(retained_sessions(s, now)[m] == rest[m]);
        }
        assert(s.drop_last()[k] == s[k]);
    }
}

/// Scans all sessions and reaps those inactive past the timeout: each
/// reaped session's player is marked offline with the same timestamp, in
/// the same atomic sweep. Returns how many sessions were removed.
#[verifier::rlimit(100)]
pub fn cleanup_inactive_sessions(state: &mut WorldState, now: GameTime) -> (r: u32)
    requires
        old(state).wf(),
        old(state).sessions@.len() <= u32::MAX,
    ensures
        final(state).wf(),
        final(state).sessions@ == retained_sessions(old(state).sessions@, now),
        r == stale_count(old(state).sessions@, now),
        final(state).players@.len() == old(state).players@.len(),
        forall|i: int|
            0 <= i < old(state).players@.len() ==> #[trigger] final(state).players@[i] == (
            if has_stale_session(old(state).sessions@, old(state).players@[i].identity, now) {
                Player { is_online: false, last_seen: now, ..old(state).players@[i] }
            } else {
                old(state).players@[i]
            }),
        final(state).users@ == old(state).users@,
        final(state).npcs@ == old(state).npcs@,
        final(state).items@ == old(state).items@,
        final(state).inventory@ == old(state).inventory@,
        final(state).skills@ == old(state).skills@,
        final(state).messages@ == old(state).messages@,
        final(state).next_id == old(state).next_id,
{
    // First mark every player whose session went stale as offline.
    let mut i: usize = 0;
    while i < state.players.len()
        invariant
            old(state).wf(),
            0 <= i <= state.players@.len(),
            state.players@.len() == old(state).players@.len(),
            forall|k: int|
                0 <= k < i ==> #[trigger] state.players@[k] == (
                if has_stale_session(old(state).sessions@, old(state).players@[k].identity, now) {
                    Player { is_online: false, last_seen: now, ..old(state).players@[k] }
                } else {
                    old(state).players@[k]
                }),
            forall|k: int|
                i <= k < state.players@.len() ==> #[trigger] state.players@[k] == old(state).players@[k],
            state.users@ == old(state).users@,
            state.sessions@ == old(state).sessions@,
            state.npcs@ == old(state).npcs@,
            state.items@ == old(state).items@,
            state.inventory@ == old(state).inventory@,
            state.skills@ == old(state).skills@,
            state.messages@ == old(state).messages@,
            state.next_id == old(state).next_id,
        decreases state.players@.len() - i,
    {
        let ghost before = state.players@;
        let stale = session_is_stale_for(&state.sessions, &state.players[i].identity, now);
        if stale {
            let mut row = state.players.remove(i);
            row.is_online = false;
            row.last_seen = now;
            state.players.insert(i, row);
            proof {
                assert(state.players@ =~= before.update(
                    i as int,
                    Player { is_online: false, last_seen: now, ..before[i as int] },
                ));
            }
        }
        i = i + 1;
    }
    // Then drop the stale sessions themselves, in place.
    let ghost old_s = old(state).sessions@;
    let ghost players_after = state.players@;
    let mut removed: u32 = 0;
    let mut idx: usize = 0;
    let ghost mut j: int = 0;
    while idx < state.sessions.len()
        invariant
            0 <= idx <= state.sessions@.len(),
            0 <= j <= old_s.len(),
            old_s.len() <= u32::MAX,
            j == idx + removed,
            state.players@ == players_after,
            state.sessions@ =~= retained_sessions(old_s.subrange(0, j), now) + old_s.subrange(
                j,
                old_s.len() as int,
            ),
            idx == retained_sessions(old_s.subrange(0, j), now).len(),
            removed == stale_count(old_s.subrange(0, j), now),
            state.users@ == old(state).users@,
            state.npcs@ == old(state).npcs@,
            state.items@ == old(state).items@,
            state.inventory@ == old(state).inventory@,
            state.skills@ == old(state).skills@,
            state.messages@ == old(state).messages@,
            state.next_id == old(state).next_id,
        decreases state.sessions@.len() - idx,
    {
        proof {
            let pre = old_s.subrange(0, j);
            let post = old_s.subrange(0, j + 1);
            assert(post.drop_last() =~= pre);
            assert(post.last() == old_s[j]);
            assert(state.sessions@[idx as int] == old_s[j]);
        }
        let stale = now > INACTIVITY_TIMEOUT_SECONDS && state.sessions[idx].last_activity
            < now - INACTIVITY_TIMEOUT_SECONDS;
        proof {
            assert(stale == session_stale(old_s[j], now));
        }
        if stale {
            state.sessions.remove(idx);
            removed = removed + 1;
            proof {
                j = j + 1;
                assert(state.sessions@ =~= retained_sessions(old_s.subrange(0, j), now)
                    + old_s.subrange(j, old_s.len() as int));
            }
        } else {
            idx = idx + 1;
            proof {
                j = j + 1;
                assert(state.sessions@ =~= retained_sessions(old_s.subrange(0, j), now)
                    + old_s.subrange(j, old_s.len() as int));
            }
        }
    }
    proof {
        assert(j == old_s.len());
        assert(old_s.subrange(0, old_s.len() as int) =~= old_s);
        assert(old_s.subrange(old_s.len() as int, old_s.len() as int) =~= Seq::<
            GameSession,
        >::empty());
        assert(state.sessions@ =~= retained_sessions(old_s, now));
    }
    proof {
        let new_s = state.sessions@;
        lemma_retained_from(old_s, now);
        assert forall|a: int, b: int| 0 <= a < b < new_s.len() implies (
        #[trigger] new_s[a]).identity != (#[trigger] new_s[b]).identity by {
            lemma_retained_distinct(old_s, now, a, b);
        }
        assert forall|i2: int|
            0 <= i2 < state.players@.len() && (#[trigger] state.players@[i2]).is_online implies
            has_session(new_s, state.players@[i2].identity) by {
            let id = state.players@[i2].identity;
            assert(old(state).players@[i2].identity == id);
            assert(old(state).players@[i2].is_online);
            assert(has_session(old_s, id));
            let k = choose|k: int| 0 <= k < old_s.len() && (#[trigger] old_s[k]).identity == id;
            assert(!has_stale_session(old_s, id, now));
            assert(!session_stale(old_s[k], now));
            lemma_retained_keeps(old_s, now, k);
        }
    }
    removed
}

/// Two distinct retained rows come from distinct source rows, so their
/// identities differ when the source identities were unique.
proof fn lemma_retained_distinct(s: Seq<GameSession>, now: GameTime, a: int, b: int)
    requires
        0 <= a < b < retained_sessions(s, now).len(),
        forall|i: int, j: int|
            0 <= i < j < s.len() ==> (#[trigger] s[i]).identity != (#[trigger] s[j]).identity,
    ensures
        retained_sessions(s, now)[a].identity != retained_sessions(s, now)[b].identity,
    decreases s.len(),
{
    let cur = retained_sessions(s, now);
    let rest = retained_sessions(s.drop_last(), now);
    assert forall|i: int, j: int|
        0 <= i < j < s.drop_last().len() implies (#[trigger] s.drop_last()[i]).identity != (
        #[trigger] s.drop_last()[j]).identity by {
        assert(s.drop_last()[i] == s[i]);
        assert(s.drop_last()[j] == s[j]);
    }
    if session_stale(s.last(), now) {
        lemma_retained_distinct(s.drop_last(), now, a, b);
    } else {
        if b < rest.len() {
            lemma_retained_distinct(s.drop_last(), now, a, b);
        } else {
            assert(cur[b] == s.last());
            assert(cur[a] == rest[a]);
            lemma_retained_from(s.drop_last(), now);
            let k = choose|k: int|
                0 <= k < s.drop_last().len() && s.drop_last()[k] == rest[a] && !session_stale(
                    s.drop_last()[k],
                    now,
                );
            assert(s[k] == s.drop_last()[k]);
            assert(s[k].identity != s[s.len() - 1].identity);
        }
    }
}

/// Whether the identity has a session gone stale at the given time.
fn session_is_stale_for(sessions: &Vec<GameSession>, id: &Identity, now: GameTime) -> (r: bool)
    ensures
        r == has_stale_session(sessions@, *id, now),
{
    let mut i: usize = 0;
    while i < sessions.len()
        invariant
            0 <= i <= sessions@.len(),
            forall|k: int|
                0 <= k < i ==> !((#[trigger] sessions@[k]).identity == *id && session_stale(
                    sessions@[k],
                    now,
                )),
        decreases sessions@.len() - i,
    {
        let s = &sessions[i];
        if s.identity.bits == id.bits && now > INACTIVITY_TIMEOUT_SECONDS && s.last_activity
            < now - INACTIVITY_TIMEOUT_SECONDS {
            return true;
        }
        proof {
            assert(!(sessions@[i as int].identity == *id && session_stale(
                sessions@[i as int],
                now,
            )));
        }
        i = i + 1;
    }
    false
}

/// Marks the identity's player offline and removes its session, the
/// whole cleanup a disconnect needs, as one atomic step.
pub fn cleanup_client_state(state: &mut WorldState, id: &Identity, now: GameTime)
    requires
        old(state).wf(),
    ensures
        final(state).wf(),
        players_online_set(old(state).players@, final(state).players@, *id, false, now),
        if has_session(old(state).sessions@, *id) {
            exists|i: int|
                0 <= i < old(state).sessions@.len() && (#[trigger] old(state).sessions@[i])
                    .identity == *id && final(state).sessions@ =~= old(state).sessions@.remove(i)
        } else {
            final(state).sessions@ == old(state).sessions@
        },
        final(state).users@ == old(state).users@,
        final(state).npcs@ == old(state).npcs@,
        final(state).items@ == old(state).items@,
        final(state).inventory@ == old(state).inventory@,
        final(state).skills@ == old(state).skills@,
        final(state).messages@ == old(state).messages@,
        final(state).next_id == old(state).next_id,
{
    set_online_status(state, id, false, now);
    remove_session(state, id);
}

/// Handles a client disconnect: the same cleanup as an explicit logout.
pub fn handle_client_disconnected(state: &mut WorldState, caller: &Identity, now: GameTime)
    requires
        old(state).wf(),
    ensures
        final(state).wf(),
        players_online_set(old(state).players@, final(state).players@, *caller, false, now),
        if has_session(old(state).sessions@, *caller) {
            exists|i: int|
                0 <= i < old(state).sessions@.len() && (#[trigger] old(state).sessions@[i])
                    .identity == *caller && final(state).sessions@ =~= old(state).sessions@.remove(i)
        } else {
            final(state).sessions@ == old(state).sessions@
        },
        final(state).users@ == old(state).users@,
        final(state).npcs@ == old(state).npcs@,
        final(state).items@ == old(state).items@,
        final(state).inventory@ == old(state).inventory@,
        final(state).skills@ == old(state).skills@,
        final(state).messages@ == old(state).messages@,
        final(state).next_id == old(state).next_id,
{
    cleanup_client_state(state, caller, now);
}

/// Whether the identity's player is currently online.
pub fn is_user_online(state: &WorldState, id: &Identity) -> (r: bool)
    requires
        state.wf(),
    ensures
        r == player_online(state.players@, *id),
{
    match state.find_player_index(id) {
        Some(i) => {
            let online = state.players[i].is_online;
            proof {
                if !online && player_online(state.players@, *id) {
                    let w = choose|w: int|
                        0 <= w < state.players@.len() && (#[trigger] state.players@[w]).identity
                            == *id && state.players@[w].is_online;
                    assert(w == i as int);
                }
            }
            online
        },
        None => false,
    }
}

/// How long the identity's session has been alive, if one exists; a
/// login timestamp in the future counts as no time at all.
pub fn get_session_duration(state: &WorldState, id: &Identity, now: GameTime) -> (r: Option<u64>)
    ensures
        match r {
            Some(d) => exists|i: int|
                0 <= i < state.sessions@.len() && (#[trigger] state.sessions@[i]).identity == *id
                    && d == (if state.sessions@[i].login_time <= now {
                    now - state.sessions@[i].login_time
                } else {
                    0int
                }),
            None => !has_session(state.sessions@, *id),
        },
{
    match state.find_session_index(id) {
        Some(i) => {
            let login = state.sessions[i].login_time;
            if login <= now {
                Some(now - login)
            } else {
                Some(0)
            }
        },
        None => None,
    }
}

/// Checks that the caller owns an active account with a live session and
/// returns a copy of the account row.
pub fn validate_authenticated_user(state: &WorldState, caller: &Identity) -> (r: Result<
    User,
    GameError,
>)
    ensures
        match r {
            Ok(u) => exists|i: int|
                0 <= i < state.users@.len() && (#[trigger] state.users@[i]).identity == *caller
                    && state.users@[i].is_active && user_like(u, state.users@[i]) && has_session(
                    state.sessions@,
                    *caller,
                ),
            Err(GameError::NotFound) => !has_user(state.users@, *caller),
            Err(GameError::Permission) => exists|i: int|
                0 <= i < state.users@.len() && (#[trigger] state.users@[i]).identity == *caller
                    && (!state.users@[i].is_active || !has_session(state.sessions@, *caller)),
            Err(_) => false,
        },
{
    let ui = match state.find_user_index(caller) {
        Some(i) => i,
        None => {
            return Err(GameError::NotFound);
        },
    };
    if !state.users[ui].is_active {
        return Err(GameError::Permission);
    }
    if state.find_session_index(caller).is_none() {
        return Err(GameError::Permission);
    }
    Ok(copy_user(&state.users[ui]))
}

/// Checks that the caller's player exists and is online, and returns a
/// copy of the player row.
pub fn validate_player_in_game(state: &WorldState, caller: &Identity) -> (r: Result<
    Player,
    GameError,
>)
    requires
        state.wf(),
    ensures
        match r {
            Ok(p) => exists|i: int|
                0 <= i < state.players@.len() && (#[trigger] state.players@[i]).identity == *caller
                    && state.players@[i].is_online && crate::state::player_like(
                    p,
                    state.players@[i],
                ),
            Err(GameError::NotFound) => !has_player(state.players@, *caller),
            Err(GameError::Permission) => has_player(state.players@, *caller) && !player_online(
                state.players@,
                *caller,
            ),
            Err(_) => false,
        },
{
    let pi = match state.find_player_index(caller) {
        Some(i) => i,
        None => {
            return Err(GameError::NotFound);
        },
    };
    if !state.players[pi].is_online {
        proof {
            if player_online(state.players@, *caller) {
                let w = choose|w: int|
                    0 <= w < state.players@.len() && (#[trigger] state.players@[w]).identity
                        == *caller && state.players@[w].is_online;
                assert(w == pi as int);
            }
        }
        return Err(GameError::Permission);
    }
    Ok(crate::state::copy_player(&state.players[pi]))
}

/// Checks zone access for the caller: the caller's player must be online
/// and the zone name must be non-empty. All non-empty zones are open to
/// everyone.
pub fn validate_zone_access(state: &WorldState, caller: &Identity, zone: &str) -> (r: Result<
    Player,
    GameError,
>)
    requires
        state.wf(),
    ensures
        match r {
            Ok(p) => zone@.len() > 0 && exists|i: int|
                0 <= i < state.players@.len() && (#[trigger] state.players@[i]).identity == *caller
                    && state.players@[i].is_online && crate::state::player_like(
                    p,
                    state.players@[i],
                ),
            Err(GameError::NotFound) => !has_player(state.players@, *caller),
            Err(GameError::Permission) => has_player(state.players@, *caller) && !player_online(
                state.players@,
                *caller,
            ),
            Err(GameError::Validation) => player_online(state.players@, *caller) && zone@.len()
                == 0,
            Err(_) => false,
        },
{
    let p = match validate_player_in_game(state, caller) {
        Ok(p) => p,
        Err(e) => {
            return Err(e);
        },
    };
    if zone.unicode_len() == 0 {
        return Err(GameError::Validation);
    }
    Ok(p)
}

/// Checks that a target username names an online player, and returns a
/// copy of that player row.
pub fn validate_target_player(state: &WorldState, target_username: &str) -> (r: Result<
    Player,
    GameError,
>)
    ensures
        match r {
            Ok(p) => exists|i: int|
                0 <= i < state.players@.len() && (#[trigger] state.players@[i]).username@
                    == target_username@ && state.players@[i].is_online
                    && crate::state::player_like(p, state.players@[i]),
            Err(GameError::NotFound) => forall|i: int|
                0 <= i < state.players@.len() ==> (#[trigger] state.players@[i]).username@
                    != target_username@,
            Err(GameError::Permission) => exists|i: int|
                0 <= i < state.players@.len() && (#[trigger] state.players@[i]).username@
                    == target_username@ && !state.players@[i].is_online,
            Err(_) => false,
        },
{
    let pi = match state.find_player_by_username(target_username) {
        Some(i) => i,
        None => {
            return Err(GameError::NotFound);
        },
    };
    if !state.players[pi].is_online {
        return Err(GameError::Permission);
    }
    Ok(crate::state::copy_player(&state.players[pi]))
}

/// Checks that the caller may run administrative operations. The world
/// has no separate role model: any authenticated caller qualifies.
pub fn validate_admin_permissions(state: &WorldState, caller: &Identity) -> (r: Result<
    (),
    GameError,
>)
    ensures
        match r {
            Ok(_) => exists|i: int|
                0 <= i < state.users@.len() && (#[trigger] state.users@[i]).identity == *caller
                    && state.users@[i].is_active && has_session(state.sessions@, *caller),
            Err(GameError::NotFound) => !has_user(state.users@, *caller),
            Err(GameError::Permission) => exists|i: int|
                0 <= i < state.users@.len() && (#[trigger] state.users@[i]).identity == *caller
                    && (!state.users@[i].is_active || !has_session(state.sessions@, *caller)),
            Err(_) => false,
        },
{
    match validate_authenticated_user(state, caller) {
        Ok(_) => Ok(()),
        Err(e) => Err(e),
    }
}


} // verus!
