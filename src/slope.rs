//! Walkable-slope classification of surface normals.
use vstd::prelude::*;
use crate::fixed::{Vector3, UNIT, len2, unit_bounded};

verus! {

/// The steepest walkable slope, given as the cosine of its angle to the
/// vertical in thousandths (`UNIT` is a flat-only limit, values near zero
/// admit slopes close to vertical).
#[derive(Clone, Copy, Debug, PartialEq, Eq, Structural)]
pub struct MaxSlopeAngle(pub i64);

impl MaxSlopeAngle {
    /// The limit describes an angle in `[0°, 90°)`.
    pub open spec fn wf(self) -> bool {
        0 < self.0 <= UNIT
    }
}

/// The angle between `n` and the up axis is at most the angle whose cosine is
/// `cos / UNIT`: `n.y / |n| >= cos / UNIT`, squared to stay in integers.
pub open spec fn within_slope(n: Vector3, cos: int) -> bool {
    n.y > 0 && n.y * n.y * (UNIT * UNIT) >= cos * cos * len2(n)
}

/// `n` counts as walkable ground under an optional limit; with no limit every
/// surface does.
pub open spec fn walkable(n: Vector3, limit: Option<MaxSlopeAngle>) -> bool {
    match limit {
        Some(l) => within_slope(n, l.0 as int),
        None => true,
    }
}

/// `n` counts as a climbable slope for contact resolution; with no limit no
/// surface does.
pub open spec fn climbable(n: Vector3, limit: Option<MaxSlopeAngle>) -> bool {
    match limit {
        Some(l) => within_slope(n, l.0 as int),
        None => false,
    }
}

/// Whether the angle between `n` and the up axis is within `limit`.
pub fn is_within_slope(n: &Vector3, limit: &MaxSlopeAngle) -> (r: bool)
    requires
        unit_bounded(*n),
        limit.wf(),
    ensures
        r == within_slope(*n, limit.0 as int),
{
    if n.y <= 0 {
        return false;
    }
    let ny = n.y as i128;
    let c = limit.0 as i128;
    proof {
        assert(0 <= n.x * n.x <= UNIT * UNIT) by (nonlinear_arith)
            requires -UNIT <= n.x <= UNIT;
        assert(0 <= n.y * n.y <= UNIT * UNIT) by (nonlinear_arith)
            requires -UNIT <= n.y <= UNIT;
        assert(0 <= n.z * n.z <= UNIT * UNIT) by (nonlinear_arith)
            requires -UNIT <= n.z <= UNIT;
    }
    let l2 = (n.x as i128) * (n.x as i128) + ny * ny + (n.z as i128) * (n.z as i128);
    proof {
        assert(0 <= c * c <= UNIT * UNIT) by (nonlinear_arith)
            requires 0 < c <= UNIT;
        assert(c * c * l2 <= (UNIT * UNIT) * (3 * UNIT * UNIT)) by (nonlinear_arith)
            requires 0 <= c * c <= UNIT * UNIT, 0 <= l2 <= 3 * UNIT * UNIT;
        assert(c * c * l2 >= 0) by (nonlinear_arith)
            requires 0 <= c * c, 0 <= l2;
    }
    ny * ny * 1_000_000 >= c * c * l2
}

/// Whether `n` counts as walkable ground under an optional limit.
pub fn is_walkable(n: &Vector3, limit: Option<MaxSlopeAngle>) -> (r: bool)
    requires
        unit_bounded(*n),
        limit matches Some(l) ==> l.wf(),
    ensures
        r == walkable(*n, limit),
{
    match limit {
        Some(l) => is_within_slope(n, &l),
        None => true,
    }
}

/// Whether `n` counts as a climbable slope under an optional limit.
pub fn is_climbable(n: &Vector3, limit: Option<MaxSlopeAngle>) -> (r: bool)
    requires
        unit_bounded(*n),
        limit matches Some(l) ==> l.wf(),
    ensures
        r == climbable(*n, limit),
{
    match limit {
        Some(l) => is_within_slope(n, &l),
        None => false,
    }
}

} // verus!
