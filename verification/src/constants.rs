//! Fixed limits and timing constants of the world's rules.

use vstd::prelude::*;

verus! {

/// Shortest username the world accepts, in characters.
pub const MIN_USERNAME_LENGTH: usize = 3;

/// Longest username the world accepts, in characters.
pub const MAX_USERNAME_LENGTH: usize = 20;

/// Shortest password the world accepts, in characters.
pub const MIN_PASSWORD_LENGTH: usize = 8;

/// Longest chat message the world accepts, in characters.
pub const MAX_CHAT_MESSAGE_LENGTH: usize = 500;

/// How many chat messages are retained.
pub const MAX_CHAT_HISTORY: usize = 100;

/// Seconds of inactivity after which a session is reaped.
pub const INACTIVITY_TIMEOUT_SECONDS: u64 = 300;

/// Seconds between client heartbeats.
pub const HEARTBEAT_INTERVAL_SECONDS: u64 = 30;

/// Farthest a player may move in one position update.
pub const MAX_MOVEMENT_DISTANCE: i64 = 50;

/// Seconds an NPC stays dead before it may respawn.
pub const NPC_RESPAWN_SECONDS: u64 = 30;

/// Radius within which an NPC perceives players.
pub const NPC_PERCEPTION_RADIUS: i64 = 10;

/// Farthest a player may stand from an NPC and still attack it.
pub const NPC_ATTACK_RANGE: i64 = 5;

/// Horizontal speed of a chasing or attacking NPC, per tick.
pub const NPC_CHASE_SPEED: i64 = 2;

/// Horizontal speed of a fleeing NPC, per tick; faster than the chase.
pub const NPC_FLEE_SPEED: i64 = 3;

/// Highest inventory slot index an owner may use.
pub const MAX_INVENTORY_SLOT: u32 = 100;

} // verus!
