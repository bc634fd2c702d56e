//! Chat: sending messages and whispers, reading recent history, and
//! pruning old messages.

use vstd::prelude::*;
use vstd::string::*;
use crate::constants::MAX_CHAT_HISTORY;
use crate::errors::GameError;
use crate::ids::{GameTime, Identity};
use crate::session::{sessions_refreshed, update_session_activity};
use crate::state::{has_player, player_online, ChatMessage, WorldState};
use crate::strutil::str_eq;
use crate::validation::{chat_message_ok, sanitize_chat_message, sanitized_message};

verus! {

/// Whether two message rows carry the same values.
pub open spec fn message_like(a: ChatMessage, b: ChatMessage) -> bool {
    &&& a.message_id == b.message_id
    &&& a.sender_identity == b.sender_identity
    &&& a.sender_username@ == b.sender_username@
    &&& a.message@ == b.message@
    &&& a.channel@ == b.channel@
    &&& a.timestamp == b.timestamp
}

/// The channels a plain chat message may go to.
pub open spec fn valid_channel(c: Seq<char>) -> bool {
    c == "global"@ || c == "zone"@ || c == "guild"@ || c == "party"@ || c == "whisper"@
}

/// Every stored message is no newer than the given time. Timestamps are
/// supplied monotonically by the substrate, so each call may assume it
/// of the current state.
pub open spec fn messages_at_most(messages: Seq<ChatMessage>, now: GameTime) -> bool {
    forall|i: int| 0 <= i < messages.len() ==> (#[trigger] messages[i]).timestamp <= now
}

/// Sends a chat message. The caller's player must be online, the message
/// must survive sanitization, and the channel must be one of the known
/// ones. The stored message carries the sanitized text, the sender's
/// name, and the call timestamp; session activity is refreshed.
pub fn send_chat_message(
    state: &mut WorldState,
    caller: &Identity,
    message: String,
    channel: String,
    now: GameTime,
) -> (r: Result<(), GameError>)
    requires
        old(state).wf(),
        messages_at_most(old(state).messages@, now),
    ensures
        final(state).wf(),
        match r {
            Ok(_) => exists|pi: int|
                {
                    &&& 0 <= pi < old(state).players@.len()
                    &&& (#[trigger] old(state).players@[pi]).identity == *caller
                    &&& old(state).players@[pi].is_online
                    &&& chat_message_ok(message@)
                    &&& valid_channel(channel@)
                    &&& old(state).next_id < u64::MAX
                    &&& final(state).messages@.len() == old(state).messages@.len() + 1
                    &&& final(state).messages@.drop_last() == old(state).messages@
                    &&& {
                        let m = final(state).messages@.last();
                        &&& m.message_id == old(state).next_id
                        &&& m.sender_identity == *caller
                        &&& m.sender_username@ == old(state).players@[pi].username@
                        &&& m.message@ == sanitized_message(message@)
                        &&& m.channel@ == channel@
                        &&& m.timestamp == now
                    }
                    &&& final(state).next_id == old(state).next_id + 1
                } && sessions_refreshed(old(state).sessions@, final(state).sessions@, *caller, now)
                && final(state).users@ == old(state).users@ && final(state).players@
                == old(state).players@ && final(state).npcs@ == old(state).npcs@ && final(state).items@ == old(state).items@ && final(state).inventory@ == old(state).inventory@
                && final(state).skills@ == old(state).skills@,
            Err(GameError::NotFound) => !has_player(old(state).players@, *caller) && *final(state)
                == *old(state),
            Err(GameError::Permission) => has_player(old(state).players@, *caller)
                && !player_online(old(state).players@, *caller) && *final(state) == *old(state),
            Err(GameError::Validation) => player_online(old(state).players@, *caller) && (
            !chat_message_ok(message@) || !valid_channel(channel@)) && *final(state) == *old(state),
            Err(GameError::Capacity) => player_online(old(state).players@, *caller)
                && chat_message_ok(message@) && valid_channel(channel@) && old(state).next_id
                == u64::MAX && *final(state) == *old(state),
            Err(_) => false,
        },
{
    let pi = match state.find_player_index(caller) {
        Some(i) => i,
        None => {
            return Err(GameError::NotFound);
        },
    };
    if !state.players[pi].is_online {
        proof {
            if player_online(state.players@, *caller) {
                let w = choose|w: int|
                    0 <= w < state.players@.len() && (#[trigger] state.players@[w]).identity
                        == *caller && state.players@[w].is_online;
                assert(w == pi as int);
            }
        }
        return Err(GameError::Permission);
    }
    let sanitized = match sanitize_chat_message(message.as_str()) {
        Ok(s) => s,
        Err(e) => {
            return Err(e);
        },
    };
    proof {
        reveal_strlit("global");
        reveal_strlit("zone");
        reveal_strlit("guild");
        reveal_strlit("party");
        reveal_strlit("whisper");
    }
    let ch = channel.as_str();
    if !(str_eq(ch, "global") || str_eq(ch, "zone") || str_eq(ch, "guild") || str_eq(ch, "party")
        || str_eq(ch, "whisper")) {
        return Err(GameError::Validation);
    }
    if state.next_id == u64::MAX {
        return Err(GameError::Capacity);
    }
    let message_id = state.next_id;
    state.next_id = state.next_id + 1;
    let row = ChatMessage {
        message_id,
        sender_identity: *caller,
        sender_username: state.players[pi].username.clone(),
        message: sanitized,
        channel,
        timestamp: now,
    };
    state.messages.push(row);
    proof {
        assert(state.messages@.drop_last() =~= old(state).messages@);
    }
    update_session_activity(state, caller, now);
    Ok(())
}

/// Sends a private message to another player. Both the sender and the
/// target must be online; the message goes to a channel that names the
/// two, so only conversation queries for this pair find it.
pub fn send_whisper(
    state: &mut WorldState,
    caller: &Identity,
    target_username: String,
    message: String,
    now: GameTime,
) -> (r: Result<(), GameError>)
    requires
        old(state).wf(),
        messages_at_most(old(state).messages@, now),
    ensures
        final(state).wf(),
        match r {
            Ok(_) => exists|pi: int|
                {
                    &&& 0 <= pi < old(state).players@.len()
                    &&& (#[trigger] old(state).players@[pi]).identity == *caller
                    &&& old(state).players@[pi].is_online
                    &&& exists|ti: int|
                        0 <= ti < old(state).players@.len() && (#[trigger] old(state).players@[ti])
                            .username@ == target_username@ && old(state).players@[ti].is_online
                    &&& chat_message_ok(message@)
                    &&& old(state).next_id < u64::MAX
                    &&& final(state).messages@.len() == old(state).messages@.len() + 1
                    &&& final(state).messages@.drop_last() == old(state).messages@
                    &&& {
                        let m = final(state).messages@.last();
                        &&& m.message_id == old(state).next_id
                        &&& m.sender_identity == *caller
                        &&& m.sender_username@ == old(state).players@[pi].username@
                        &&& m.message@ == sanitized_message(message@)
                        &&& m.channel@ == "whisper:"@ + old(state).players@[pi].username@ + ":"@
                            + target_username@
                        &&& m.timestamp == now
                    }
                    &&& final(state).next_id == old(state).next_id + 1
                } && sessions_refreshed(old(state).sessions@, final(state).sessions@, *caller, now)
                && final(state).users@ == old(state).users@ && final(state).players@
                == old(state).players@ && final(state).npcs@ == old(state).npcs@ && final(state).items@ == old(state).items@ && final(state).inventory@ == old(state).inventory@
                && final(state).skills@ == old(state).skills@,
            Err(GameError::NotFound) => (!has_player(old(state).players@, *caller) || (
            player_online(old(state).players@, *caller) && forall|ti: int|
                0 <= ti < old(state).players@.len() ==> !((#[trigger] old(state).players@[ti])
                    .username@ == target_username@ && old(state).players@[ti].is_online)))
                && *final(state) == *old(state),
            Err(GameError::Permission) => has_player(old(state).players@, *caller)
                && !player_online(old(state).players@, *caller) && *final(state) == *old(state),
            Err(GameError::Validation) => player_online(old(state).players@, *caller)
                && !chat_message_ok(message@) && *final(state) == *old(state),
            Err(GameError::Capacity) => player_online(old(state).players@, *caller)
                && chat_message_ok(message@) && old(state).next_id == u64::MAX && *final(state)
                == *old(state),
            Err(_) => false,
        },
{
    let pi = match state.find_player_index(caller) {
        Some(i) => i,
        None => {
            return Err(GameError::NotFound);
        },
    };
    if !state.players[pi].is_online {
        proof {
            if player_online(state.players@, *caller) {
                let w = choose|w: int|
                    0 <= w < state.players@.len() && (#[trigger] state.players@[w]).identity
                        == *caller && state.players@[w].is_online;
                assert(w == pi as int);
            }
        }
        return Err(GameError::Permission);
    }
    if !target_is_online(&state.players, target_username.as_str()) {
        return Err(GameError::NotFound);
    }
    let sanitized = match sanitize_chat_message(message.as_str()) {
        Ok(s) => s,
        Err(e) => {
            return Err(e);
        },
    };
    if state.next_id == u64::MAX {
        return Err(GameError::Capacity);
    }
    let mut whisper_channel = "whisper:".to_owned();
    whisper_channel.append(state.players[pi].username.as_str());
    whisper_channel.append(":");
    whisper_channel.append(target_username.as_str());
    let message_id = state.next_id;
    state.next_id = state.next_id + 1;
    let row = ChatMessage {
        message_id,
        sender_identity: *caller,
        sender_username: state.players[pi].username.clone(),
        message: sanitized,
        channel: whisper_channel,
        timestamp: now,
    };
    state.messages.push(row);
    proof {
        assert(state.messages@.drop_last() =~= old(state).messages@);
    }
    update_session_activity(state, caller, now);
    Ok(())
}

/// Whether any online player carries the username.
fn target_is_online(players: &Vec<crate::state::Player>, name: &str) -> (r: bool)
    ensures
        r == exists|i: int|
            0 <= i < players@.len() && (#[trigger] players@[i]).username@ == name@
                && players@[i].is_online,
{
    let mut i: usize = 0;
    while i < players.len()
        invariant
            0 <= i <= players@.len(),
            forall|j: int|
                0 <= j < i ==> !((#[trigger] players@[j]).username@ == name@
                    && players@[j].is_online),
        decreases players@.len() - i,
    {
        if players[i].is_online && str_eq(players[i].username.as_str(), name) {
            return true;
        }
        i = i + 1;
    }
    false
}

/// The newest messages of a channel, newest first, at most `cap` of
/// them.
pub open spec fn recent_of_channel(s: Seq<ChatMessage>, channel: Seq<char>, cap: int) -> Seq<
    ChatMessage,
>
    decreases s.len(),
{
    if s.len() == 0 || cap <= 0 {
        Seq::<ChatMessage>::empty()
    } else if s.last().channel@ == channel {
        seq![s.last()] + recent_of_channel(s.drop_last(), channel, cap - 1)
    } else {
        recent_of_channel(s.drop_last(), channel, cap)
    }
}

/// The newest messages of either of two channels, newest first, at most
/// `cap` of them.
pub open spec fn recent_of_channels(
    s: Seq<ChatMessage>,
    c1: Seq<char>,
    c2: Seq<char>,
    cap: int,
) -> Seq<ChatMessage>
    decreases s.len(),
{
    if s.len() == 0 || cap <= 0 {
        Seq::<ChatMessage>::empty()
    } else if s.last().channel@ == c1 || s.last().channel@ == c2 {
        seq![s.last()] + recent_of_channels(s.drop_last(), c1, c2, cap - 1)
    } else {
        recent_of_channels(s.drop_last(), c1, c2, cap)
    }
}

/// Returns copies of the newest messages of a channel, newest first,
/// capped at the requested limit and the history bound. The caller must
/// have a player row.
pub fn get_recent_messages(state: &WorldState, caller: &Identity, channel: String, limit: u32) -> (r:
    Result<Vec<ChatMessage>, GameError>)
    ensures
        match r {
            Ok(v) => has_player(state.players@, *caller) && {
                let cap = if limit <= MAX_CHAT_HISTORY {
                    limit as int
                } else {
                    MAX_CHAT_HISTORY as int
                };
                let recent = recent_of_channel(state.messages@, channel@, cap);
                v@.len() == recent.len() && forall|k: int|
                    0 <= k < v@.len() ==> message_like(#[trigger] v@[k], recent[k])
            },
            Err(e) => e == GameError::NotFound && !has_player(state.players@, *caller),
        },
{
    if state.find_player_index(caller).is_none() {
        return Err(GameError::NotFound);
    }
    let cap: usize = if limit <= MAX_CHAT_HISTORY as u32 {
        limit as usize
    } else {
        MAX_CHAT_HISTORY
    };
    let ghost recent = recent_of_channel(state.messages@, channel@, cap as int);
    let mut out: Vec<ChatMessage> = Vec::new();
    let mut j: usize = state.messages.len();
    proof {
        assert(state.messages@.subrange(0, state.messages@.len() as int) =~= state.messages@);
        assert(recent.skip(0) =~= recent);
    }
    while j > 0 && out.len() < cap
        invariant
            0 <= j <= state.messages@.len(),
            out@.len() <= cap,
            out@.len() <= recent.len(),
            recent == recent_of_channel(state.messages@, channel@, cap as int),
            forall|k: int| 0 <= k < out@.len() ==> message_like(#[trigger] out@[k], recent[k]),
            recent.skip(out@.len() as int) =~= recent_of_channel(
                state.messages@.subrange(0, j as int),
                channel@,
                cap - out@.len(),
            ),
        decreases j,
    {
        proof {
            let pre = state.messages@.subrange(0, j as int);
            assert(pre.drop_last() =~= state.messages@.subrange(0, j - 1));
            assert(pre.last() == state.messages@[j - 1]);
        }
        let ghost out_before = out@;
        let m = &state.messages[j - 1];
        if str_eq(m.channel.as_str(), channel.as_str()) {
            let copy = copy_message(m);
            out.push(copy);
            proof {
                assert(recent.skip(out_before.len() as int) =~= seq![
                    state.messages@[j - 1],
                ] + recent_of_channel(
                    state.messages@.subrange(0, j - 1),
                    channel@,
                    cap - out_before.len() - 1,
                ));
                assert(recent.skip(out_before.len() as int).len() >= 1);
                assert(recent.len() >= out_before.len() + 1);
                assert(recent[out_before.len() as int] == recent.skip(
                    out_before.len() as int,
                )[0]);
                let tail = recent_of_channel(
                    state.messages@.subrange(0, j - 1),
                    channel@,
                    cap - out@.len(),
                );
                assert forall|i2: int| 0 <= i2 < recent.len() - out@.len() implies recent.skip(
                    out@.len() as int,
                )[i2] == tail[i2] by {
                    assert(recent.skip(out@.len() as int)[i2] == recent[out_before.len() + 1 + i2]);
                    assert(recent.skip(out_before.len() as int)[1 + i2] == recent[out_before.len()
                        + 1 + i2]);
                    assert((seq![state.messages@[j - 1]] + tail)[1 + i2] == tail[i2]);
                }
                assert(recent.skip(out@.len() as int).len() == tail.len());
                assert(recent.skip(out@.len() as int) =~= tail);
            }
        }
        j = j - 1;
    }
    proof {
        if out@.len() < cap {
            assert(state.messages@.subrange(0, 0) =~= Seq::<ChatMessage>::empty());
        }
        assert(recent.skip(out@.len() as int).len() == 0);
        assert(recent.len() == out@.len());
    }
    Ok(out)
}

/// Returns copies of the newest whispers between the caller and another
/// player, in both directions, newest first, capped at the requested
/// limit and a fixed bound of fifty.
pub fn get_whisper_conversation(
    state: &WorldState,
    caller: &Identity,
    other_username: String,
    limit: u32,
) -> (r: Result<Vec<ChatMessage>, GameError>)
    ensures
        match r {
            Ok(v) => exists|pi: int|
                {
                    &&& 0 <= pi < state.players@.len()
                    &&& (#[trigger] state.players@[pi]).identity == *caller
                    &&& {
                        let cap = if limit <= 50 {
                            limit as int
                        } else {
                            50int
                        };
                        let c1 = "whisper:"@ + state.players@[pi].username@ + ":"@
                            + other_username@;
                        let c2 = "whisper:"@ + other_username@ + ":"@
                            + state.players@[pi].username@;
                        let recent = recent_of_channels(state.messages@, c1, c2, cap);
                        v@.len() == recent.len() && forall|k: int|
                            0 <= k < v@.len() ==> message_like(#[trigger] v@[k], recent[k])
                    }
                },
            Err(e) => e == GameError::NotFound && !has_player(state.players@, *caller),
        },
{
    let pi = match state.find_player_index(caller) {
        Some(i) => i,
        None => {
            return Err(GameError::NotFound);
        },
    };
    let cap: usize = if limit <= 50 {
        limit as usize
    } else {
        50
    };
    let mut c1 = "whisper:".to_owned();
    c1.append(state.players[pi].username.as_str());
    c1.append(":");
    c1.append(other_username.as_str());
    let mut c2 = "whisper:".to_owned();
    c2.append(other_username.as_str());
    c2.append(":");
    c2.append(state.players[pi].username.as_str());
    let ghost recent = recent_of_channels(state.messages@, c1@, c2@, cap as int);
    let mut out: Vec<ChatMessage> = Vec::new();
    let mut j: usize = state.messages.len();
    proof {
        assert(state.messages@.subrange(0, state.messages@.len() as int) =~= state.messages@);
        assert(recent.skip(0) =~= recent);
    }
    while j > 0 && out.len() < cap
        invariant
            0 <= j <= state.messages@.len(),
            out@.len() <= cap,
            out@.len() <= recent.len(),
            recent == recent_of_channels(state.messages@, c1@, c2@, cap as int),
            forall|k: int| 0 <= k < out@.len() ==> message_like(#[trigger] out@[k], recent[k]),
            recent.skip(out@.len() as int) =~= recent_of_channels(
                state.messages@.subrange(0, j as int),
                c1@,
                c2@,
                cap - out@.len(),
            ),
        decreases j,
    {
        proof {
            let pre = state.messages@.subrange(0, j as int);
            assert(pre.drop_last() =~= state.messages@.subrange(0, j - 1));
            assert(pre.last() == state.messages@[j - 1]);
        }
        let ghost out_before = out@;
        let m = &state.messages[j - 1];
        if str_eq(m.channel.as_str(), c1.as_str()) || str_eq(m.channel.as_str(), c2.as_str()) {
            let copy = copy_message(m);
            out.push(copy);
            proof {
                assert(recent.skip(out_before.len() as int) =~= seq![
                    state.messages@[j - 1],
                ] + recent_of_channels(
                    state.messages@.subrange(0, j - 1),
                    c1@,
                    c2@,
                    cap - out_before.len() - 1,
                ));
                assert(recent.skip(out_before.len() as int).len() >= 1);
                assert(recent.len() >= out_before.len() + 1);
                assert(recent[out_before.len() as int] == recent.skip(
                    out_before.len() as int,
                )[0]);
                let tail = recent_of_channels(
                    state.messages@.subrange(0, j - 1),
                    c1@,
                    c2@,
                    cap - out@.len(),
                );
                assert forall|i2: int| 0 <= i2 < recent.len() - out@.len() implies recent.skip(
                    out@.len() as int,
                )[i2] == tail[i2] by {
                    assert(recent.skip(out@.len() as int)[i2] == recent[out_before.len() + 1 + i2]);
                    assert(recent.skip(out_before.len() as int)[1 + i2] == recent[out_before.len()
                        + 1 + i2]);
                    assert((seq![state.messages@[j - 1]] + tail)[1 + i2] == tail[i2]);
                }
                assert(recent.skip(out@.len() as int).len() == tail.len());
                assert(recent.skip(out@.len() as int) =~= tail);
            }
        }
        j = j - 1;
    }
    proof {
        if out@.len() < cap {
            assert(state.messages@.subrange(0, 0) =~= Seq::<ChatMessage>::empty());
        }
        assert(recent.skip(out@.len() as int).len() == 0);
        assert(recent.len() == out@.len());
    }
    Ok(out)
}

/// Copies a message row, field by field.
fn copy_message(m: &ChatMessage) -> (r: ChatMessage)
    ensures
        message_like(r, *m),
{
    ChatMessage {
        message_id: m.message_id,
        sender_identity: m.sender_identity,
        sender_username: m.sender_username.clone(),
        message: m.message.clone(),
        channel: m.channel.clone(),
        timestamp: m.timestamp,
    }
}

/// Prunes chat history down to the retention bound, dropping the oldest
/// messages first.
pub fn cleanup_old_chat_messages(state: &mut WorldState)
    requires
        old(state).wf(),
    ensures
        final(state).wf(),
        final(state).messages@ =~= (if old(state).messages@.len() <= MAX_CHAT_HISTORY {
            old(state).messages@
        } else {
            old(state).messages@.skip(old(state).messages@.len() - MAX_CHAT_HISTORY)
        }),
        final(state).users@ == old(state).users@,
        final(state).sessions@ == old(state).sessions@,
        final(state).players@ == old(state).players@,
        final(state).npcs@ == old(state).npcs@,
        final(state).items@ == old(state).items@,
        final(state).inventory@ == old(state).inventory@,
        final(state).skills@ == old(state).skills@,
        final(state).next_id == old(state).next_id,
{
    while state.messages.len() > MAX_CHAT_HISTORY
        invariant
            old(state).wf(),
            state.messages@ =~= old(state).messages@.skip(
                old(state).messages@.len() - state.messages@.len(),
            ),
            state.messages@.len() <= old(state).messages@.len(),
            state.messages@.len() >= MAX_CHAT_HISTORY || state.messages@.len() == old(state).messages@.len(),
            state.users@ == old(state).users@,
            state.sessions@ == old(state).sessions@,
            state.players@ == old(state).players@,
            state.npcs@ == old(state).npcs@,
            state.items@ == old(state).items@,
            state.inventory@ == old(state).inventory@,
            state.skills@ == old(state).skills@,
            state.next_id == old(state).next_id,
        decreases state.messages@.len(),
    {
        state.messages.remove(0);
    }
    proof {
        if old(state).messages@.len() <= MAX_CHAT_HISTORY {
            assert(state.messages@ =~= old(state).messages@.skip(0));
            assert(old(state).messages@.skip(0) =~= old(state).messages@);
        }
        let k = old(state).messages@.len() - state.messages@.len();
        assert forall|a: int, b: int| 0 <= a < b < state.messages@.len() implies (
        #[trigger] state.messages@[a]).message_id != (#[trigger] state.messages@[b]).message_id
            && state.messages@[a].timestamp <= state.messages@[b].timestamp by {
            assert(state.messages@[a] == old(state).messages@[a + k]);
            assert(state.messages@[b] == old(state).messages@[b + k]);
        }
        assert forall|a: int|
            0 <= a < state.messages@.len() implies (#[trigger] state.messages@[a]).message_id
            < state.next_id by {
            assert(state.messages@[a] == old(state).messages@[a + k]);
        }
    }
}

/// Prunes chat history down to the retention bound; the administrative
/// entry point for the same sweep.
pub fn cleanup_chat_messages(state: &mut WorldState) -> (r: Result<(), GameError>)
    requires
        old(state).wf(),
    ensures
        final(state).wf(),
        r is Ok,
        final(state).messages@ =~= (if old(state).messages@.len() <= MAX_CHAT_HISTORY {
            old(state).messages@
        } else {
            old(state).messages@.skip(old(state).messages@.len() - MAX_CHAT_HISTORY)
        }),
        final(state).users@ == old(state).users@,
        final(state).sessions@ == old(state).sessions@,
        final(state).players@ == old(state).players@,
        final(state).npcs@ == old(state).npcs@,
        final(state).items@ == old(state).items@,
        final(state).inventory@ == old(state).inventory@,
        final(state).skills@ == old(state).skills@,
        final(state).next_id == old(state).next_id,
{
    cleanup_old_chat_messages(state);
    Ok(())
}

} // verus!
