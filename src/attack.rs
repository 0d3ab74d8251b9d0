//! Punches: which targets a punch reaches, the impulse it gives them, and
//! the knockback it starts on an enemy that survives it.
use vstd::prelude::*;
use crate::fixed::{Vector3, UNIT, bounded, unit_bounded};
use crate::isqrt::{floor_sqrt, floor_sqrt_spec, unit_part, unit_part_exec};
use crate::body::LocomotionBody;
use crate::knockback::start_knockback;

verus! {

/// Reach of a punch, in millimetres.
pub const PUNCH_RANGE: i64 = 2_500;

/// Speed a punch gives, in mm/s.
pub const PUNCH_FORCE: i64 = 7_000;

/// Upward tilt added to the push direction, in thousandths.
pub const PUNCH_LIFT: i64 = 170;

/// A target is hit when the cosine between the punch's forward direction
/// and the push direction exceeds this, in millionths.
pub const PUNCH_MIN_DOT: i64 = 750_000;

/// Health a punch takes from an enemy, in thousandths.
pub const PUNCH_DAMAGE: i64 = 250;

/// How long a punched enemy is knocked back, in microseconds.
pub const PUNCH_KNOCKBACK_TIME: i64 = 300_000;

pub open spec fn sq3(x: int, y: int, z: int) -> int {
    x * x + y * y + z * z
}

/// The push direction toward an offset `(x, y, z)` of squared length
/// within reach: the offset's direction tilted up by `PUNCH_LIFT`, both
/// normalised to thousandths; `None` where it has no length.
pub open spec fn push_direction(x: int, y: int, z: int) -> Option<(int, int, int)> {
    let dist = floor_sqrt_spec(sq3(x, y, z));
    if dist == 0 {
        None
    } else {
        let wx = unit_part(x, dist);
        let wy = unit_part(y, dist) + PUNCH_LIFT;
        let wz = unit_part(z, dist);
        let lw = floor_sqrt_spec(sq3(wx, wy, wz));
        if lw == 0 {
            None
        } else {
            Some((unit_part(wx, lw), unit_part(wy, lw), unit_part(wz, lw)))
        }
    }
}

/// The impulse (mm/s) that a punch thrown from `player` along `forward` (a
/// unit vector in thousandths) gives a target at `target`: none beyond
/// `PUNCH_RANGE`, or where the push direction is not within the forward cone.
pub open spec fn punch_impulse_spec(target: Vector3, player: Vector3, forward: Vector3) -> Option<Vector3> {
    let (x, y, z) = (target.x - player.x, target.y - player.y, target.z - player.z);
    if sq3(x, y, z) > PUNCH_RANGE * PUNCH_RANGE {
        None
    } else {
        match push_direction(x, y, z) {
            None => None,
            Some((px, py, pz)) => {
                if forward.x * px + forward.y * py + forward.z * pz > PUNCH_MIN_DOT {
                    Some(
                        Vector3 {
                            x: (px * PUNCH_FORCE / (UNIT as int)) as i64,
                            y: (py * PUNCH_FORCE / (UNIT as int)) as i64,
                            z: (pz * PUNCH_FORCE / (UNIT as int)) as i64,
                        },
                    )
                } else {
                    None
                }
            },
        }
    }
}

/// The impulse that a punch thrown from `player` along `forward` gives a
/// target at `target`, if it reaches it.
pub fn punch_impulse(target: &Vector3, player: &Vector3, forward: &Vector3) -> (r: Option<Vector3>)
    requires
        bounded(*target),
        bounded(*player),
        unit_bounded(*forward),
    ensures
        r == punch_impulse_spec(*target, *player, *forward),
        r matches Some(v) ==> (-PUNCH_FORCE <= v.x <= PUNCH_FORCE && -PUNCH_FORCE <= v.y <= PUNCH_FORCE
            && -PUNCH_FORCE <= v.z <= PUNCH_FORCE),
{
    let x = target.x as i128 - player.x as i128;
    let y = target.y as i128 - player.y as i128;
    let z = target.z as i128 - player.z as i128;
    let range = PUNCH_RANGE as i128;
    if x > range || x < -range || y > range || y < -range || z > range || z < -range {
        proof {
            assert(sq3(x as int, y as int, z as int) > PUNCH_RANGE * PUNCH_RANGE) by (nonlinear_arith)
                requires
                    x > PUNCH_RANGE || x < -PUNCH_RANGE || y > PUNCH_RANGE || y < -PUNCH_RANGE
                        || z > PUNCH_RANGE || z < -PUNCH_RANGE,
            ;
        }
        return None;
    }
    proof {
        crate::fixed::lemma_mul_bounded(x as int, x as int, PUNCH_RANGE as int, PUNCH_RANGE as int);
        crate::fixed::lemma_mul_bounded(y as int, y as int, PUNCH_RANGE as int, PUNCH_RANGE as int);
        crate::fixed::lemma_mul_bounded(z as int, z as int, PUNCH_RANGE as int, PUNCH_RANGE as int);
    }
    let d2 = x * x + y * y + z * z;
    proof {
        assert(0 <= d2 <= 3 * PUNCH_RANGE * PUNCH_RANGE) by (nonlinear_arith)
            requires
                -PUNCH_RANGE <= x <= PUNCH_RANGE,
                -PUNCH_RANGE <= y <= PUNCH_RANGE,
                -PUNCH_RANGE <= z <= PUNCH_RANGE,
                d2 == x * x + y * y + z * z,
        ;
    }
    if d2 > range * range {
        return None;
    }
    let dist = floor_sqrt(d2 as u64);
    if dist == 0 {
        return None;
    }
    proof {
        assert(x * x <= d2 && y * y <= d2 && z * z <= d2) by (nonlinear_arith)
            requires d2 == x * x + y * y + z * z;
        assert(d2 < (dist + 1) * (dist + 1));
        assert((dist + 1) * (dist + 1) == dist * dist + 2 * dist + 1) by (nonlinear_arith);
        assert(dist <= dist * dist) by (nonlinear_arith)
            requires dist >= 1;
    }
    let di = dist as i64;
    let wx = unit_part_exec(x as i64, di);
    let wy = unit_part_exec(y as i64, di) + PUNCH_LIFT;
    let wz = unit_part_exec(z as i64, di);
    proof {
        crate::fixed::lemma_mul_bounded(wx as int, wx as int, 2000, 2000);
        crate::fixed::lemma_mul_bounded(wy as int, wy as int, 2000, 2000);
        crate::fixed::lemma_mul_bounded(wz as int, wz as int, 2000, 2000);
    }
    let w2 = (wx as i128) * (wx as i128) + (wy as i128) * (wy as i128) + (wz as i128) * (wz as i128);
    proof {
        assert(0 <= w2 <= 5_000_000) by (nonlinear_arith)
            requires
                -UNIT <= wx <= UNIT,
                -UNIT + PUNCH_LIFT <= wy <= UNIT + PUNCH_LIFT,
                -UNIT <= wz <= UNIT,
                w2 == wx * wx + wy * wy + wz * wz,
        ;
    }
    let lw = floor_sqrt(w2 as u64);
    if lw == 0 {
        return None;
    }
    proof {
        assert(wx * wx <= w2 && wy * wy <= w2 && wz * wz <= w2) by (nonlinear_arith)
            requires w2 == wx * wx + wy * wy + wz * wz;
        assert(w2 < (lw + 1) * (lw + 1));
        assert((lw + 1) * (lw + 1) == lw * lw + 2 * lw + 1) by (nonlinear_arith);
        assert(lw <= lw * lw) by (nonlinear_arith)
            requires lw >= 1;
    }
    let li = lw as i64;
    let px = unit_part_exec(wx, li);
    let py = unit_part_exec(wy, li);
    let pz = unit_part_exec(wz, li);
    proof {
        crate::fixed::lemma_mul_bounded(forward.x as int, px as int, UNIT as int, UNIT as int);
        crate::fixed::lemma_mul_bounded(forward.y as int, py as int, UNIT as int, UNIT as int);
        crate::fixed::lemma_mul_bounded(forward.z as int, pz as int, UNIT as int, UNIT as int);
    }
    let cos = forward.x * px + forward.y * py + forward.z * pz;
    if cos > PUNCH_MIN_DOT {
        proof {
            assert forall|c: int| #[trigger] (c * PUNCH_FORCE) / (UNIT as int) == c * 7 by {
                assert(c * PUNCH_FORCE == 1000 * (c * 7));
                vstd::arithmetic::div_mod::lemma_div_multiples_vanish(c * 7, 1000);
            }
        }
        Some(Vector3 { x: px * 7, y: py * 7, z: pz * 7 })
    } else {
        None
    }
}

/// Largest health of an enemy, in thousandths.
pub const HEALTH_LIMIT: i64 = 1_000_000_000;

/// A punch lands on an enemy with the given impulse: it loses
/// `PUNCH_DAMAGE` of health, and if any is left it is knocked back by the
/// impulse for `PUNCH_KNOCKBACK_TIME`. Returns whether it survived; one that
/// did not is left as it was, for the caller to remove.
pub fn strike_enemy(enemy: &mut LocomotionBody, health: &mut i64, impulse: Vector3) -> (alive: bool)
    requires
        old(enemy).wf(),
        bounded(impulse),
        0 <= *old(health) <= HEALTH_LIMIT,
    ensures
        *final(health) == *old(health) - PUNCH_DAMAGE,
        alive == (*final(health) > 0),
        alive ==> *final(enemy) == (LocomotionBody {
            control: crate::body::Control::KnockedBack(
                crate::body::Knockback { velocity: impulse, remaining_time: PUNCH_KNOCKBACK_TIME },
            ),
            ..*old(enemy)
        }),
        !alive ==> *final(enemy) == *old(enemy),
        final(enemy).wf(),
{
    *health = *health - PUNCH_DAMAGE;
    if *health > 0 {
        start_knockback(enemy, impulse, PUNCH_KNOCKBACK_TIME);
        true
    } else {
        false
    }
}

} // verus!
