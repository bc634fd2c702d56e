//! Server-authoritative simulation core for a multiplayer world.
//!
//! The library owns the state-transition logic of the world: player and
//! session lifecycle, movement validation, the NPC behavior state machine,
//! the inventory mutation engine, and skill progression. Every operation is
//! a single atomic unit: it either applies all of its writes to the world
//! state or none of them. The durable storage substrate, the network
//! transport and the client bridge are outside collaborators; callers hand
//! every operation the caller identity and the call timestamp explicitly.

pub mod errors;
pub mod ids;
pub mod geometry;
pub mod strutil;
pub mod constants;
pub mod validation;
pub mod auth;
pub mod npc;
pub mod state;
pub mod inventory;
pub mod skills;
pub mod session;
pub mod admin;
pub mod player;
pub mod chat;
pub mod types;
pub mod client;
