//! Client-side session state: the connection lifecycle and the locally
//! cached view of the current user, player, and chat.
//!
//! The state is an explicitly owned value with a creation and teardown
//! lifecycle tied to the connection, handed by reference to whoever
//! needs it; nothing here is process-global.

use vstd::prelude::*;
use crate::constants::MAX_CHAT_HISTORY;
use crate::state::{ChatMessage, Player};
use crate::types::ConnectionState;

verus! {

/// Tracks one connection to the server.
#[derive(Debug)]
pub struct ConnectionManager {
    /// Where the connection stands in its lifecycle.
    pub state: ConnectionState,
    /// Host connected to, once known.
    pub host: Option<String>,
    /// Port connected to, once known.
    pub port: Option<u16>,
    /// Database addressed, once known.
    pub database_name: Option<String>,
    /// The most recent error, if any.
    pub last_error: Option<String>,
}

impl ConnectionManager {
    /// Creates a manager with no connection.
    pub fn new() -> (r: ConnectionManager)
        ensures
            r.state is Disconnected,
            r.host is None,
            r.port is None,
            r.database_name is None,
            r.last_error is None,
    {
        ConnectionManager {
            state: ConnectionState::Disconnected,
            host: None,
            port: None,
            database_name: None,
            last_error: None,
        }
    }

    /// Records a connection to the given endpoint. The transport that
    /// actually opens the socket lives outside the core; this tracks the
    /// endpoint and moves the lifecycle to connected.
    pub fn connect(&mut self, host: String, port: u16, database_name: String) -> (r: Result<
        (),
        crate::errors::GameError,
    >)
        ensures
            r is Ok,
            final(self).state is Connected,
            final(self).host matches Some(h) && h@ == host@,
            final(self).port == Some(port),
            final(self).database_name matches Some(d) && d@ == database_name@,
            final(self).last_error is None,
    {
        self.state = ConnectionState::Connecting;
        self.host = Some(host);
        self.port = Some(port);
        self.database_name = Some(database_name);
        self.state = ConnectionState::Connected;
        self.last_error = None;
        Ok(())
    }

    /// Drops the connection.
    pub fn disconnect(&mut self)
        ensures
            final(self).state is Disconnected,
            final(self).last_error is None,
            final(self).host == old(self).host,
            final(self).port == old(self).port,
            final(self).database_name == old(self).database_name,
    {
        self.state = ConnectionState::Disconnected;
        self.last_error = None;
    }

    /// Whether the lifecycle counts as connected: connected,
    /// authenticated, or in game.
    pub fn is_connected(&self) -> (r: bool)
        ensures
            r == (self.state is Connected || self.state is Authenticated
                || self.state is InGame),
    {
        matches!(
            self.state,
            ConnectionState::Connected | ConnectionState::Authenticated | ConnectionState::InGame
        )
    }

    /// The current lifecycle state.
    pub fn get_state(&self) -> (r: &ConnectionState)
        ensures
            r == &self.state,
    {
        &self.state
    }

    /// Records an error: the lifecycle moves to the error state and the
    /// message is kept.
    pub fn set_error(&mut self, error: String)
        ensures
            final(self).state matches ConnectionState::Error(e) && e@ == error@,
            final(self).last_error matches Some(e) && e@ == error@,
            final(self).host == old(self).host,
            final(self).port == old(self).port,
            final(self).database_name == old(self).database_name,
    {
        self.last_error = Some(error.clone());
        self.state = ConnectionState::Error(error);
    }

    /// The most recent error message, if any.
    pub fn get_last_error(&self) -> (r: Option<&String>)
        ensures
            match r {
                Some(e) => self.last_error matches Some(x) && e@ == x@,
                None => self.last_error is None,
            },
    {
        self.last_error.as_ref()
    }
}

/// The client's local session state: who is logged in, which player it
/// controls, and the recent chat it has seen.
#[derive(Debug)]
pub struct ClientState {
    /// The connection this state belongs to.
    pub connection: ConnectionManager,
    /// Username of the logged-in user, if any.
    pub current_user: Option<String>,
    /// The player the client controls, if in game.
    pub current_player: Option<Player>,
    /// Recent chat messages, oldest first, capped.
    pub chat_messages: Vec<ChatMessage>,
}

impl ClientState {
    /// Creates an empty client state with a fresh connection manager.
    pub fn new() -> (r: ClientState)
        ensures
            r.connection.state is Disconnected,
            r.current_user is None,
            r.current_player is None,
            r.chat_messages@.len() == 0,
    {
        ClientState {
            connection: ConnectionManager::new(),
            current_user: None,
            current_player: None,
            chat_messages: Vec::new(),
        }
    }

    /// Records who is logged in.
    pub fn set_current_user(&mut self, username: Option<String>)
        ensures
            final(self).current_user == username,
            final(self).current_player == old(self).current_player,
            final(self).chat_messages == old(self).chat_messages,
            final(self).connection == old(self).connection,
    {
        self.current_user = username;
    }

    /// The logged-in username, if any.
    pub fn get_current_user(&self) -> (r: Option<&String>)
        ensures
            match r {
                Some(u) => self.current_user matches Some(x) && u@ == x@,
                None => self.current_user is None,
            },
    {
        self.current_user.as_ref()
    }

    /// Records the player the client controls.
    pub fn set_current_player(&mut self, player: Option<Player>)
        ensures
            final(self).current_player == player,
            final(self).current_user == old(self).current_user,
            final(self).chat_messages == old(self).chat_messages,
            final(self).connection == old(self).connection,
    {
        self.current_player = player;
    }

    /// The player the client controls, if any.
    pub fn get_current_player(&self) -> (r: Option<&Player>)
        ensures
            match r {
                Some(p) => self.current_player matches Some(x) && p == &x,
                None => self.current_player is None,
            },
    {
        self.current_player.as_ref()
    }

    /// Appends a chat message, dropping the oldest once the cache is
    /// past its cap.
    pub fn add_chat_message(&mut self, message: ChatMessage)
        ensures
            final(self).chat_messages@ == (if old(self).chat_messages@.len() < MAX_CHAT_HISTORY {
                old(self).chat_messages@.push(message)
            } else {
                old(self).chat_messages@.push(message).skip(1)
            }),
            final(self).current_user == old(self).current_user,
            final(self).current_player == old(self).current_player,
            final(self).connection == old(self).connection,
    {
        let ghost before = self.chat_messages@;
        self.chat_messages.push(message);
        if self.chat_messages.len() > MAX_CHAT_HISTORY {
            self.chat_messages.remove(0);
            proof {
                assert(self.chat_messages@ =~= before.push(message).skip(1));
            }
        } else {
            proof {
                assert(before.len() < MAX_CHAT_HISTORY);
            }
        }
    }

    /// The cached chat messages, oldest first.
    pub fn get_chat_messages(&self) -> (r: &Vec<ChatMessage>)
        ensures
            r == &self.chat_messages,
    {
        &self.chat_messages
    }

    /// Clears everything tied to a login, for logout.
    pub fn clear_state(&mut self)
        ensures
            final(self).current_user is None,
            final(self).current_player is None,
            final(self).chat_messages@.len() == 0,
            final(self).connection == old(self).connection,
    {
        self.current_user = None;
        self.current_player = None;
        self.chat_messages.clear();
    }

    /// Whether a user is logged in.
    pub fn is_logged_in(&self) -> (r: bool)
        ensures
            r == (self.current_user is Some),
    {
        self.current_user.is_some()
    }

    /// Whether the client controls a player in the game.
    pub fn is_in_game(&self) -> (r: bool)
        ensures
            r == (self.current_player is Some),
    {
        self.current_player.is_some()
    }
}

/// The client build version string.
pub fn get_client_version() -> (r: &'static str)
    ensures
        r@ == "1.0.0"@,
{
    "1.0.0"
}

} // verus!
