//! The error taxonomy shared by every operation of the core.

use vstd::prelude::*;

verus! {

/// Why an operation was refused. Every failure is returned to the caller;
/// none of the core's operations panic.
#[derive(Clone, Copy, Debug, PartialEq, Eq, Structural)]
pub enum GameError {
    /// Malformed or out-of-range input (bad coordinates, oversized movement
    /// delta, invalid text).
    Validation,
    /// A referenced entity does not exist (player, NPC, item, skill, session).
    NotFound,
    /// The caller is not authorized, or is offline for an online-only action.
    Permission,
    /// A capacity bound was reached (inventory full, identifiers exhausted).
    Capacity,
    /// The operation is invalid for the entity's current state.
    State,
}

impl GameError {
    /// A human-readable description of the error kind.
    pub fn message(&self) -> (r: &'static str)
        ensures
            r@.len() > 0,
    {
        proof {
            reveal_strlit("invalid input");
            reveal_strlit("not found");
            reveal_strlit("not permitted");
            reveal_strlit("capacity exceeded");
            reveal_strlit("invalid state");
        }
        match self {
            GameError::Validation => "invalid input",
            GameError::NotFound => "not found",
            GameError::Permission => "not permitted",
            GameError::Capacity => "capacity exceeded",
            GameError::State => "invalid state",
        }
    }
}

} // verus!
