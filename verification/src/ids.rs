//! Caller identities, timestamps, and best-effort identifier derivation.

use vstd::prelude::*;

verus! {

/// An opaque, globally unique, caller-bound identity supplied by the host
/// substrate. The core never fabricates one; every operation receives the
/// identity of its caller as an argument.
#[derive(Clone, Copy, Debug, PartialEq, Eq, Hash, Structural)]
pub struct Identity {
    pub bits: u128,
}

impl Identity {
    /// Wraps the raw identity bits handed over by the substrate.
    pub fn new(bits: u128) -> (r: Identity)
        ensures
            r.bits == bits,
    {
        Identity { bits }
    }
}

/// Timestamps are supplied by the host substrate with every call and are
/// monotonically non-decreasing across calls. They count seconds.
pub type GameTime = u64;

pub const ID_MIX_FACTOR_A: u64 = 0x9e37_79b9_7f4a_7c15;
pub const ID_MIX_FACTOR_B: u64 = 0xbf58_476d_1ce4_e5b9;
pub const ID_MIX_OFFSET: u64 = 0x94d0_49bb_1331_11eb;

/// The value `generate_unique_id` derives from an identity and a timestamp:
/// a multiplicative mix of the identity's halves and the timestamp, reduced
/// modulo 2^64.
pub open spec fn id_hash(identity: Identity, timestamp: GameTime) -> u64 {
    let lo = (identity.bits % 0x1_0000_0000_0000_0000) as u64;
    let hi = (identity.bits / 0x1_0000_0000_0000_0000) as u64;
    let a = (lo * ID_MIX_FACTOR_A) % 0x1_0000_0000_0000_0000;
    let b = (hi * ID_MIX_FACTOR_B) % 0x1_0000_0000_0000_0000;
    let c = (timestamp * ID_MIX_FACTOR_A) % 0x1_0000_0000_0000_0000;
    (((a + b + c) + ID_MIX_OFFSET) % 0x1_0000_0000_0000_0000) as u64
}

/// Derives an identifier from the caller identity and the call timestamp.
/// The derivation is deterministic and collisions are possible; uniqueness
/// is best-effort, as for any 64-bit hash. State tables that need provably
/// fresh keys draw them from the world state's allocation counter instead.
pub fn generate_unique_id(identity: &Identity, timestamp: GameTime) -> (r: u64)
    ensures
        r == id_hash(*identity, timestamp),
{
    let lo: u64 = (identity.bits % 0x1_0000_0000_0000_0000) as u64;
    let hi: u64 = (identity.bits / 0x1_0000_0000_0000_0000) as u64;
    let a: u64 = lo.wrapping_mul(ID_MIX_FACTOR_A);
    let b: u64 = hi.wrapping_mul(ID_MIX_FACTOR_B);
    let c: u64 = timestamp.wrapping_mul(ID_MIX_FACTOR_A);
    a.wrapping_add(b).wrapping_add(c).wrapping_add(ID_MIX_OFFSET)
}

} // verus!
