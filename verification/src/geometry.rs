//! Integer geometry for the world: coordinates, distances, and the
//! movement steps the NPC engine applies.
//!
//! The world is modeled on integer coordinates. Every stored coordinate
//! lies within `[-COORD_LIMIT, COORD_LIMIT]`; a proposed coordinate outside
//! that range is rejected the way a non-finite one is, so the range check
//! stands in for the finiteness check at the validation boundary. Distance
//! comparisons are made on squared distances, which keeps them exact.

use vstd::prelude::*;
use crate::errors::GameError;

verus! {

/// Half-width of the representable coordinate range.
pub const COORD_LIMIT: i64 = 1_000_000_000;

/// Lowest world coordinate an NPC may be spawned at.
pub const WORLD_MIN: i64 = -10_000;

/// Highest world coordinate an NPC may be spawned at.
pub const WORLD_MAX: i64 = 10_000;

/// A coordinate the world can represent.
pub open spec fn coord_ok(v: i64) -> bool {
    -COORD_LIMIT <= v <= COORD_LIMIT
}

/// All three coordinates of a point are representable.
pub open spec fn point_ok(x: i64, y: i64, z: i64) -> bool {
    coord_ok(x) && coord_ok(y) && coord_ok(z)
}

/// Squared Euclidean distance between two points in space.
pub open spec fn dist2_3d(x1: i64, y1: i64, z1: i64, x2: i64, y2: i64, z2: i64) -> int {
    (x2 - x1) * (x2 - x1) + (y2 - y1) * (y2 - y1) + (z2 - z1) * (z2 - z1)
}

/// Squared Euclidean distance between two points in the horizontal plane.
pub open spec fn dist2_2d(x1: i64, y1: i64, x2: i64, y2: i64) -> int {
    (x2 - x1) * (x2 - x1) + (y2 - y1) * (y2 - y1)
}

/// Whether `r` is the floor of the square root of `n`.
pub open spec fn is_sqrt_floor(n: int, r: int) -> bool {
    0 <= r && r * r <= n && (r + 1) * (r + 1) > n
}

/// The floor of the square root of a non-negative integer.
pub open spec fn sqrt_floor(n: int) -> int {
    choose|r: int| is_sqrt_floor(n, r)
}

/// The floor of the square root exists and is unique, so `sqrt_floor`
/// denotes exactly the value `r` with `r * r <= n < (r + 1) * (r + 1)`.
pub proof fn lemma_sqrt_floor_unique(n: int, r: int)
    requires
        0 <= r,
        r * r <= n,
        (r + 1) * (r + 1) > n,
    ensures
        sqrt_floor(n) == r,
{
    assert(is_sqrt_floor(n, r));
    let s = sqrt_floor(n);
    assert(is_sqrt_floor(n, s));
    if s < r {
        assert((s + 1) * (s + 1) <= r * r) by (nonlinear_arith)
            requires 0 <= s, s < r,
        {}
    }
    if r < s {
        assert((r + 1) * (r + 1) <= s * s) by (nonlinear_arith)
            requires 0 <= r, r < s,
        {}
    }
}

/// Integer square root: the floor of the square root of `n`.
pub fn isqrt(n: u64) -> (r: u64)
    ensures
        r == sqrt_floor(n as int),
        r * r <= n,
        (r + 1) * (r + 1) > n,
{
    let mut lo: u64 = 0;
    let mut hi: u64 = 0xFFFF_FFFF;
    proof {
        assert((hi + 1) * (hi + 1) > n) by (nonlinear_arith)
            requires hi == 0xFFFF_FFFFu64, n <= u64::MAX,
        {}
    }
    while lo < hi
        invariant
            lo <= hi <= 0xFFFF_FFFF,
            lo * lo <= n,
            (hi + 1) * (hi + 1) > n,
        decreases hi - lo,
    {
        let mid = lo + (hi - lo + 1) / 2;
        assert(lo < mid <= hi);
        proof {
            assert(mid * mid <= 0xFFFF_FFFFu64 * 0xFFFF_FFFFu64) by (nonlinear_arith)
                requires mid <= 0xFFFF_FFFFu64,
            {}
        }
        let sq = mid * mid;
        if sq <= n {
            lo = mid;
        } else {
            hi = mid - 1;
        }
    }
    proof {
        lemma_sqrt_floor_unique(n as int, lo as int);
    }
    lo
}

/// Computes the squared distance between two representable points.
/// The result fits in a `u64` because each coordinate is bounded.
pub fn distance_squared(x1: i64, y1: i64, z1: i64, x2: i64, y2: i64, z2: i64) -> (r: u64)
    requires
        point_ok(x1, y1, z1),
        point_ok(x2, y2, z2),
    ensures
        r == dist2_3d(x1, y1, z1, x2, y2, z2),
{
    let dx: i64 = x2 - x1;
    let dy: i64 = y2 - y1;
    let dz: i64 = z2 - z1;
    proof {
        assert(dx * dx <= 4_000_000_000_000_000_000 && dx * dx >= 0) by (nonlinear_arith)
            requires -2_000_000_000 <= dx <= 2_000_000_000,
        {}
        assert(dy * dy <= 4_000_000_000_000_000_000 && dy * dy >= 0) by (nonlinear_arith)
            requires -2_000_000_000 <= dy <= 2_000_000_000,
        {}
        assert(dz * dz <= 4_000_000_000_000_000_000 && dz * dz >= 0) by (nonlinear_arith)
            requires -2_000_000_000 <= dz <= 2_000_000_000,
        {}
    }
    let sx: i128 = (dx as i128) * (dx as i128);
    let sy: i128 = (dy as i128) * (dy as i128);
    let sz: i128 = (dz as i128) * (dz as i128);
    (sx + sy + sz) as u64
}

/// Computes the squared distance between two representable points in the
/// horizontal plane.
pub fn distance_squared_2d(x1: i64, y1: i64, x2: i64, y2: i64) -> (r: u64)
    requires
        coord_ok(x1) && coord_ok(y1) && coord_ok(x2) && coord_ok(y2),
    ensures
        r == dist2_2d(x1, y1, x2, y2),
{
    let dx: i64 = x2 - x1;
    let dy: i64 = y2 - y1;
    proof {
        assert(dx * dx <= 4_000_000_000_000_000_000 && dx * dx >= 0) by (nonlinear_arith)
            requires -2_000_000_000 <= dx <= 2_000_000_000,
        {}
        assert(dy * dy <= 4_000_000_000_000_000_000 && dy * dy >= 0) by (nonlinear_arith)
            requires -2_000_000_000 <= dy <= 2_000_000_000,
        {}
    }
    let sx: i128 = (dx as i128) * (dx as i128);
    let sy: i128 = (dy as i128) * (dy as i128);
    (sx + sy) as u64
}

/// Euclidean distance between two points, rounded down to an integer.
pub fn calculate_distance(x1: i64, y1: i64, z1: i64, x2: i64, y2: i64, z2: i64) -> (r: u64)
    requires
        point_ok(x1, y1, z1),
        point_ok(x2, y2, z2),
    ensures
        r == sqrt_floor(dist2_3d(x1, y1, z1, x2, y2, z2)),
{
    let d2 = distance_squared(x1, y1, z1, x2, y2, z2);
    isqrt(d2)
}

/// Whether a proposed move passes the anti-teleport rule: the new point is
/// representable and lies within `max_distance` of the old point.
pub open spec fn movement_valid(
    old_x: i64, old_y: i64, old_z: i64,
    new_x: i64, new_y: i64, new_z: i64,
    max_distance: i64,
) -> bool {
    &&& point_ok(new_x, new_y, new_z)
    &&& dist2_3d(old_x, old_y, old_z, new_x, new_y, new_z) <= max_distance * max_distance
}

/// Checks a proposed move against the anti-teleport ceiling: the move is
/// accepted exactly when the new point is representable and its distance
/// from the old point is at most `max_distance`.
pub fn validate_movement(
    old_x: i64, old_y: i64, old_z: i64,
    new_x: i64, new_y: i64, new_z: i64,
    max_distance: i64,
) -> (r: Result<(), GameError>)
    requires
        point_ok(old_x, old_y, old_z),
        0 <= max_distance <= COORD_LIMIT,
    ensures
        r is Ok <==> movement_valid(old_x, old_y, old_z, new_x, new_y, new_z, max_distance),
        r is Err ==> r->Err_0 == GameError::Validation,
{
    if new_x < -COORD_LIMIT || new_x > COORD_LIMIT
        || new_y < -COORD_LIMIT || new_y > COORD_LIMIT
        || new_z < -COORD_LIMIT || new_z > COORD_LIMIT {
        return Err(GameError::Validation);
    }
    let d2 = distance_squared(old_x, old_y, old_z, new_x, new_y, new_z);
    proof {
        assert(max_distance * max_distance <= COORD_LIMIT * COORD_LIMIT) by (nonlinear_arith)
            requires 0 <= max_distance <= COORD_LIMIT,
        {}
    }
    let limit: u64 = (max_distance as u64) * (max_distance as u64);
    if d2 > limit {
        return Err(GameError::Validation);
    }
    Ok(())
}

/// Whether a point lies inside the spawnable world bounds.
pub open spec fn world_position_valid(x: i64, y: i64, z: i64) -> bool {
    &&& WORLD_MIN <= x <= WORLD_MAX
    &&& WORLD_MIN <= y <= WORLD_MAX
    &&& WORLD_MIN <= z <= WORLD_MAX
}

/// Checks that a point lies inside the spawnable world bounds; a point
/// outside them is rejected the way a malformed one is.
pub fn validate_world_position(x: i64, y: i64, z: i64) -> (r: Result<(), GameError>)
    ensures
        r is Ok <==> world_position_valid(x, y, z),
        r is Err ==> r->Err_0 == GameError::Validation,
{
    if x < WORLD_MIN || x > WORLD_MAX
        || y < WORLD_MIN || y > WORLD_MAX
        || z < WORLD_MIN || z > WORLD_MAX {
        Err(GameError::Validation)
    } else {
        Ok(())
    }
}

/// Clamps a coordinate into the representable range.
pub open spec fn clamp_coord_spec(v: int) -> int {
    if v < -COORD_LIMIT {
        -COORD_LIMIT as int
    } else if v > COORD_LIMIT {
        COORD_LIMIT as int
    } else {
        v
    }
}

/// The horizontal step a chase or attack takes: move `speed` units toward
/// the target, landing exactly on it when it is no farther than `speed`.
pub open spec fn move_towards_spec(cx: i64, cy: i64, tx: i64, ty: i64, speed: i64) -> (int, int) {
    let d2 = dist2_2d(cx, cy, tx, ty);
    if d2 <= speed * speed {
        (tx as int, ty as int)
    } else {
        let d = sqrt_floor(d2);
        let step_x = abs_int(tx - cx) * speed / d;
        let step_y = abs_int(ty - cy) * speed / d;
        let nx = if tx >= cx { cx + step_x } else { cx - step_x };
        let ny = if ty >= cy { cy + step_y } else { cy - step_y };
        (nx, ny)
    }
}

/// The horizontal step a flee takes: move `speed` units directly away from
/// the threat, or due east when standing exactly on it; the result is
/// clamped into the representable range.
pub open spec fn move_away_spec(cx: i64, cy: i64, tx: i64, ty: i64, speed: i64) -> (int, int) {
    let d2 = dist2_2d(cx, cy, tx, ty);
    if d2 == 0 {
        (clamp_coord_spec(cx + speed), cy as int)
    } else {
        let d = sqrt_floor(d2);
        let step_x = abs_int(cx - tx) * speed / d;
        let step_y = abs_int(cy - ty) * speed / d;
        let nx = if cx >= tx { clamp_coord_spec(cx + step_x) } else { clamp_coord_spec(cx - step_x) };
        let ny = if cy >= ty { clamp_coord_spec(cy + step_y) } else { clamp_coord_spec(cy - step_y) };
        (nx, ny)
    }
}

/// Absolute value of an integer.
pub open spec fn abs_int(v: int) -> int {
    if v >= 0 { v } else { -v }
}

/// Bound on a division result: a quotient of a bounded numerator by a
/// divisor at least as large as one factor stays below the other factor.
proof fn lemma_step_bound(a: int, speed: int, d: int)
    requires
        0 <= a,
        0 <= speed <= d,
        1 <= d,
    ensures
        0 <= a * speed / d <= a,
{
    assert(a * speed <= a * d) by (nonlinear_arith)
        requires 0 <= a, speed <= d,
    {}
    assert(a * speed / d <= a * d / d) by (nonlinear_arith)
        requires 1 <= d, a * speed <= a * d,
    {}
    assert(a * d / d == a) by (nonlinear_arith)
        requires 1 <= d,
    {}
    assert(a * speed >= 0) by (nonlinear_arith)
        requires 0 <= a, 0 <= speed,
    {}
    assert(a * speed / d >= 0) by (nonlinear_arith)
        requires 1 <= d, a * speed >= 0,
    {}
}

/// Clamps a coordinate into the representable range.
pub fn clamp_coord(v: i64) -> (r: i64)
    ensures
        r == clamp_coord_spec(v as int),
        coord_ok(r),
{
    if v < -COORD_LIMIT {
        -COORD_LIMIT
    } else if v > COORD_LIMIT {
        COORD_LIMIT
    } else {
        v
    }
}

/// Steps from the current point toward the target at the given speed,
/// never overshooting it: when the target is within `speed`, the result is
/// the target itself; otherwise each axis moves part of the way there.
pub fn move_towards_target(cx: i64, cy: i64, tx: i64, ty: i64, speed: i64) -> (r: (i64, i64))
    requires
        coord_ok(cx) && coord_ok(cy) && coord_ok(tx) && coord_ok(ty),
        0 <= speed <= 100,
    ensures
        (r.0 as int, r.1 as int) == move_towards_spec(cx, cy, tx, ty, speed),
        coord_ok(r.0) && coord_ok(r.1),
{
    let d2 = distance_squared_2d(cx, cy, tx, ty);
    let speed_u: u64 = speed as u64;
    proof {
        assert(speed_u * speed_u <= 10_000) by (nonlinear_arith)
            requires speed_u <= 100,
        {}
    }
    if d2 <= speed_u * speed_u {
        return (tx, ty);
    }
    let d = isqrt(d2);
    assert(d >= 1) by {
        assert(d2 >= 1);
        if d == 0 {
            assert((d + 1) * (d + 1) == 1) by (nonlinear_arith)
                requires d == 0u64,
            {}
        }
    }
    proof {
        if d < speed {
            assert((d + 1) * (d + 1) <= speed * speed) by (nonlinear_arith)
                requires 0 <= d, d < speed,
            {}
        }
    }
    let adx: u64 = if tx >= cx { (tx - cx) as u64 } else { (cx - tx) as u64 };
    let ady: u64 = if ty >= cy { (ty - cy) as u64 } else { (cy - ty) as u64 };
    proof {
        assert(adx * speed_u <= 200_000_000_000 && ady * speed_u <= 200_000_000_000)
            by (nonlinear_arith)
            requires adx <= 2_000_000_000, ady <= 2_000_000_000, speed_u <= 100,
        {}
    }
    let step_x: u64 = adx * speed_u / d;
    let step_y: u64 = ady * speed_u / d;
    proof {
        lemma_step_bound(adx as int, speed as int, d as int);
        lemma_step_bound(ady as int, speed as int, d as int);
    }
    let nx: i64 = if tx >= cx { cx + (step_x as i64) } else { cx - (step_x as i64) };
    let ny: i64 = if ty >= cy { cy + (step_y as i64) } else { cy - (step_y as i64) };
    (nx, ny)
}

/// Steps from the current point directly away from the threat at the given
/// speed; standing exactly on the threat moves due east. The result is
/// clamped into the representable range.
pub fn move_away_from_target(cx: i64, cy: i64, tx: i64, ty: i64, speed: i64) -> (r: (i64, i64))
    requires
        coord_ok(cx) && coord_ok(cy) && coord_ok(tx) && coord_ok(ty),
        0 <= speed <= 100,
    ensures
        (r.0 as int, r.1 as int) == move_away_spec(cx, cy, tx, ty, speed),
        coord_ok(r.0) && coord_ok(r.1),
{
    let d2 = distance_squared_2d(cx, cy, tx, ty);
    if d2 == 0 {
        return (clamp_coord(cx + speed), cy);
    }
    let d = isqrt(d2);
    assert(d >= 1) by {
        assert(1 * 1 <= d2);
    }
    let speed_u: u64 = speed as u64;
    let adx: u64 = if cx >= tx { (cx - tx) as u64 } else { (tx - cx) as u64 };
    let ady: u64 = if cy >= ty { (cy - ty) as u64 } else { (ty - cy) as u64 };
    proof {
        assert(adx * speed_u <= 200_000_000_000 && ady * speed_u <= 200_000_000_000)
            by (nonlinear_arith)
            requires adx <= 2_000_000_000, ady <= 2_000_000_000, speed_u <= 100,
        {}
    }
    let step_x: u64 = adx * speed_u / d;
    let step_y: u64 = ady * speed_u / d;
    proof {
        lemma_div_bound(adx as int, speed as int, d as int);
        lemma_div_bound(ady as int, speed as int, d as int);
    }
    let nx: i64 = if cx >= tx {
        clamp_coord(cx + (step_x as i64))
    } else {
        clamp_coord(cx - (step_x as i64))
    };
    let ny: i64 = if cy >= ty {
        clamp_coord(cy + (step_y as i64))
    } else {
        clamp_coord(cy - (step_y as i64))
    };
    (nx, ny)
}

/// Bound on the flee step: the quotient is at most the numerator factor
/// times the speed, so the unclamped coordinate still fits in an `i64`.
proof fn lemma_div_bound(a: int, speed: int, d: int)
    requires
        0 <= a <= 2_000_000_000,
        0 <= speed <= 100,
        1 <= d,
    ensures
        0 <= a * speed / d <= 200_000_000_000,
{
    assert(a * speed <= 200_000_000_000) by (nonlinear_arith)
        requires 0 <= a <= 2_000_000_000, 0 <= speed <= 100,
    {}
    assert(a * speed >= 0) by (nonlinear_arith)
        requires 0 <= a, 0 <= speed,
    {}
    assert(0 <= a * speed / d <= 200_000_000_000) by (nonlinear_arith)
        requires 1 <= d, 0 <= a * speed <= 200_000_000_000,
    {}
}

/// The deterministic heading a patrol derives from its position: one of
/// eight unit directions, each of length five.
pub open spec fn patrol_heading(x: i64, y: i64) -> int {
    (abs_int(x as int) + abs_int(y as int)) % 8
}

/// The patrol step for a heading: eight directions of length exactly five.
pub open spec fn patrol_offset(h: int) -> (int, int) {
    if h == 0 { (5int, 0int) }
    else if h == 1 { (4int, 3int) }
    else if h == 2 { (0int, 5int) }
    else if h == 3 { (-3int, 4int) }
    else if h == 4 { (-5int, 0int) }
    else if h == 5 { (-4int, -3int) }
    else if h == 6 { (0int, -5int) }
    else { (3int, -4int) }
}

/// The point a patrol moves to from a position: the position offset by the
/// direction its heading selects, clamped into the representable range.
pub open spec fn patrol_position_spec(x: i64, y: i64) -> (int, int) {
    let o = patrol_offset(patrol_heading(x, y));
    (clamp_coord_spec(x + o.0), clamp_coord_spec(y + o.1))
}

/// Picks the pseudo-random nearby point a patrolling NPC wanders to. The
/// point is derived deterministically from the current position: a
/// position-seeded heading and a fixed radius of five units.
pub fn get_patrol_position(x: i64, y: i64) -> (r: (i64, i64))
    requires
        coord_ok(x) && coord_ok(y),
    ensures
        (r.0 as int, r.1 as int) == patrol_position_spec(x, y),
        coord_ok(r.0) && coord_ok(r.1),
{
    let ax: i64 = if x >= 0 { x } else { -x };
    let ay: i64 = if y >= 0 { y } else { -y };
    let h: i64 = (ax + ay) % 8;
    let (ox, oy): (i64, i64) = if h == 0 { (5, 0) }
        else if h == 1 { (4, 3) }
        else if h == 2 { (0, 5) }
        else if h == 3 { (-3, 4) }
        else if h == 4 { (-5, 0) }
        else if h == 5 { (-4, -3) }
        else if h == 6 { (0, -5) }
        else { (3, -4) };
    (clamp_coord(x + ox), clamp_coord(y + oy))
}

} // verus!
