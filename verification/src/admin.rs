//! Administrative utilities: monitoring statistics, the periodic
//! maintenance sweep, and access checks.

use vstd::prelude::*;
use vstd::string::*;
use crate::errors::GameError;
use crate::ids::{GameTime, Identity};
use crate::session::{
    cleanup_inactive_sessions, has_stale_session, online_count, retained_sessions,
    validate_player_in_game,
};
use crate::state::{has_player, player_online, Player, User, WorldState};

verus! {

/// How many user rows are active.
pub open spec fn active_count(users: Seq<User>) -> int
    decreases users.len(),
{
    if users.len() == 0 {
        0
    } else {
        active_count(users.drop_last()) + if users.last().is_active {
            1int
        } else {
            0int
        }
    }
}

/// Table sizes for monitoring.
#[derive(Clone, Copy, Debug, PartialEq, Eq, Structural)]
pub struct DatabaseStats {
    /// Registered accounts.
    pub total_users: usize,
    /// Accounts allowed to log in.
    pub active_users: usize,
    /// Players online right now.
    pub online_players: usize,
    /// Live sessions.
    pub total_sessions: usize,
    /// Retained chat messages.
    pub total_messages: usize,
}

/// Reports the table sizes for monitoring.
pub fn get_database_stats(state: &WorldState) -> (r: DatabaseStats)
    ensures
        r.total_users == state.users@.len(),
        r.active_users == active_count(state.users@),
        r.online_players == online_count(state.players@),
        r.total_sessions == state.sessions@.len(),
        r.total_messages == state.messages@.len(),
{
    let mut active: usize = 0;
    let mut i: usize = 0;
    while i < state.users.len()
        invariant
            0 <= i <= state.users@.len(),
            active == active_count(state.users@.subrange(0, i as int)),
            active <= i,
        decreases state.users@.len() - i,
    {
        proof {
            let pre = state.users@.subrange(0, i as int);
            let post = state.users@.subrange(0, i + 1);
            assert(post.drop_last() =~= pre);
            assert(post.last() == state.users@[i as int]);
        }
        if state.users[i].is_active {
            active = active + 1;
        }
        i = i + 1;
    }
    let mut online: usize = 0;
    let mut j: usize = 0;
    while j < state.players.len()
        invariant
            0 <= j <= state.players@.len(),
            online == online_count(state.players@.subrange(0, j as int)),
            online <= j,
        decreases state.players@.len() - j,
    {
        proof {
            let pre = state.players@.subrange(0, j as int);
            let post = state.players@.subrange(0, j + 1);
            assert(post.drop_last() =~= pre);
            assert(post.last() == state.players@[j as int]);
        }
        if state.players[j].is_online {
            online = online + 1;
        }
        j = j + 1;
    }
    proof {
        assert(state.users@.subrange(0, state.users@.len() as int) =~= state.users@);
        assert(state.players@.subrange(0, state.players@.len() as int) =~= state.players@);
    }
    DatabaseStats {
        total_users: state.users.len(),
        active_users: active,
        online_players: online,
        total_sessions: state.sessions.len(),
        total_messages: state.messages.len(),
    }
}

/// Runs the periodic maintenance sweep: prunes chat history to its cap
/// and reaps sessions inactive past the timeout, marking their players
/// offline.
pub fn perform_database_maintenance(state: &mut WorldState, now: GameTime)
    requires
        old(state).wf(),
        old(state).sessions@.len() <= u32::MAX,
    ensures
        final(state).wf(),
        final(state).messages@ =~= (if old(state).messages@.len()
            <= crate::constants::MAX_CHAT_HISTORY {
            old(state).messages@
        } else {
            old(state).messages@.skip(
                old(state).messages@.len() - crate::constants::MAX_CHAT_HISTORY,
            )
        }),
        final(state).sessions@ == retained_sessions(old(state).sessions@, now),
        final(state).players@.len() == old(state).players@.len(),
        forall|i: int|
            0 <= i < old(state).players@.len() ==> #[trigger] final(state).players@[i] == (
            if has_stale_session(old(state).sessions@, old(state).players@[i].identity, now) {
                Player { is_online: false, last_seen: now, ..old(state).players@[i] }
            } else {
                old(state).players@[i]
            }),
        final(state).users@ == old(state).users@,
        final(state).npcs@ == old(state).npcs@,
        final(state).items@ == old(state).items@,
        final(state).inventory@ == old(state).inventory@,
        final(state).skills@ == old(state).skills@,
        final(state).next_id == old(state).next_id,
{
    crate::chat::cleanup_old_chat_messages(state);
    cleanup_inactive_sessions(state, now);
}

/// Checks chat channel access for the caller: the caller's player must
/// be online, and the channel must be a known one or a whisper channel.
pub fn validate_chat_channel_access(state: &WorldState, caller: &Identity, channel: &str) -> (r:
    Result<(), GameError>)
    requires
        state.wf(),
    ensures
        match r {
            Ok(_) => player_online(state.players@, *caller) && (crate::chat::valid_channel(
                channel@,
            ) || (channel@.len() >= 8 && channel@.subrange(0, 8) == "whisper:"@)),
            Err(GameError::NotFound) => !has_player(state.players@, *caller),
            Err(GameError::Permission) => has_player(state.players@, *caller) && !player_online(
                state.players@,
                *caller,
            ),
            Err(GameError::Validation) => player_online(state.players@, *caller)
                && !crate::chat::valid_channel(channel@) && !(channel@.len() >= 8
                && channel@.subrange(0, 8) == "whisper:"@),
            Err(_) => false,
        },
{
    if let Err(e) = validate_player_in_game(state, caller) {
        return Err(match e {
            GameError::NotFound => GameError::NotFound,
            _ => GameError::Permission,
        });
    }
    proof {
        reveal_strlit("global");
        reveal_strlit("zone");
        reveal_strlit("guild");
        reveal_strlit("party");
        reveal_strlit("whisper");
        reveal_strlit("whisper:");
    }
    if crate::strutil::str_eq(channel, "global") || crate::strutil::str_eq(channel, "zone")
        || crate::strutil::str_eq(channel, "guild") || crate::strutil::str_eq(channel, "party")
        || crate::strutil::str_eq(channel, "whisper") {
        return Ok(());
    }
    if channel.unicode_len() >= 8 {
        let head = channel.substring_char(0, 8);
        if crate::strutil::str_eq(head, "whisper:") {
            return Ok(());
        }
    }
    Err(GameError::Validation)
}

/// Checks the caller's rate budget for an action. The world imposes no
/// per-action limits: every action is within budget.
pub fn validate_rate_limit(action_type: &str) -> (r: Result<(), GameError>)
    ensures
        r is Ok,
{
    let _ = action_type;
    Ok(())
}


} // verus!
