//! Fixed-point numbers and vectors shared by every part of the locomotion core.
//!
//! Lengths are integers in millimetres, velocities in millimetres per second,
//! times in microseconds. Unit vectors (surface normals, facing directions,
//! stick inputs) and ratios (damping, multipliers, cosines) are stored in
//! thousandths, so that `UNIT` stands for 1.0.
use vstd::prelude::*;

verus! {

/// The fixed-point value of 1.0 for unit vectors and ratios.
pub const UNIT: i64 = 1000;

/// Microseconds in one second.
pub const MICROS_PER_SECOND: i64 = 1_000_000;

/// Largest magnitude of a position or velocity component.
pub const COORD_LIMIT: i64 = 1_000_000_000_000;

/// Largest magnitude of an intermediate speed or impulse, in thousandths
/// of mm/s.
pub const MAGNITUDE_LIMIT: i128 = 1_000_000_000_000_000_000;

/// A vector of three fixed-point components; `y` points up.
#[derive(Clone, Copy, Debug, PartialEq, Eq, Structural)]
pub struct Vector3 {
    pub x: i64,
    pub y: i64,
    pub z: i64,
}

/// A planar input vector (`x` to the right, `y` forward) in thousandths.
#[derive(Clone, Copy, Debug, PartialEq, Eq, Structural)]
pub struct Planar {
    pub x: i64,
    pub y: i64,
}

pub open spec fn dot(a: Vector3, b: Vector3) -> int {
    a.x * b.x + a.y * b.y + a.z * b.z
}

pub open spec fn len2(a: Vector3) -> int {
    dot(a, a)
}

pub open spec fn in_range(v: int) -> bool {
    -COORD_LIMIT <= v <= COORD_LIMIT
}

/// Every component of `v` lies within `COORD_LIMIT`.
pub open spec fn bounded(v: Vector3) -> bool {
    in_range(v.x as int) && in_range(v.y as int) && in_range(v.z as int)
}

/// Every component of `n` lies within `[-UNIT, UNIT]`, as those of a unit vector do.
pub open spec fn unit_bounded(n: Vector3) -> bool {
    -UNIT <= n.x <= UNIT && -UNIT <= n.y <= UNIT && -UNIT <= n.z <= UNIT
}

/// Division rounded toward zero, as the machine divides.
pub open spec fn trunc_div(a: int, d: int) -> int {
    if a >= 0 {
        a / d
    } else {
        -((-a) / d)
    }
}

/// Division rounded up.
pub open spec fn ceil_div(a: int, d: int) -> int {
    -((-a) / d)
}

/// `v` held to `[-COORD_LIMIT, COORD_LIMIT]`.
pub open spec fn saturate(v: int) -> int {
    if v > COORD_LIMIT {
        COORD_LIMIT as int
    } else if v < -COORD_LIMIT {
        -COORD_LIMIT
    } else {
        v
    }
}

pub open spec fn vec_neg(a: Vector3) -> Vector3 {
    Vector3 { x: (-a.x) as i64, y: (-a.y) as i64, z: (-a.z) as i64 }
}

impl Vector3 {
    pub fn zero() -> (r: Vector3)
        ensures
            r == (Vector3 { x: 0, y: 0, z: 0 }),
    {
        Vector3 { x: 0, y: 0, z: 0 }
    }

    pub fn new(x: i64, y: i64, z: i64) -> (r: Vector3)
        ensures
            r == (Vector3 { x, y, z }),
    {
        Vector3 { x, y, z }
    }

    /// The vector pointing the other way.
    pub fn neg(&self) -> (r: Vector3)
        requires
            unit_bounded(*self),
        ensures
            r == vec_neg(*self),
    {
        Vector3 { x: -self.x, y: -self.y, z: -self.z }
    }
}

/// Quotient of `a` by a positive `d`, rounded toward zero.
pub fn div_trunc(a: i128, d: i128) -> (q: i128)
    requires
        d > 0,
    ensures
        q as int == trunc_div(a as int, d as int),
{
    a / d
}

/// Largest magnitude of a dividend handed to the rounding divisions.
pub const DIVIDEND_LIMIT: i128 = 1_000_000_000_000_000_000_000_000_000_000_000_000;

/// A non-negative quotient by a positive divisor is no larger than the dividend.
pub proof fn lemma_div_le(x: int, d: int)
    requires
        x >= 0,
        d >= 1,
    ensures
        0 <= x / d <= x,
{
    vstd::arithmetic::div_mod::lemma_div_pos_is_pos(x, d);
    vstd::arithmetic::div_mod::lemma_div_is_ordered_by_denominator(x, 1, d);
    vstd::arithmetic::div_mod::lemma_div_basics(x);
}

/// Quotient of `a` by a positive `d`, rounded down.
pub fn div_floor(a: i128, d: i128) -> (q: i128)
    requires
        d > 0,
        -DIVIDEND_LIMIT <= a <= DIVIDEND_LIMIT,
    ensures
        q as int == a as int / d as int,
        -DIVIDEND_LIMIT <= q <= DIVIDEND_LIMIT,
{
    if a >= 0 {
        proof {
            lemma_div_le(a as int, d as int);
        }
        a / d
    } else {
        let m = -a;
        let q0 = m / d;
        proof {
            lemma_div_le(m as int, d as int);
            vstd::arithmetic::div_mod::lemma_fundamental_div_mod(m as int, d as int);
        }
        if m % d == 0 {
            proof {
                assert(a as int == (-q0) * d) by (nonlinear_arith)
                    requires
                        m == d * q0 + m % d,
                        m % d == 0,
                        a == -m,
                ;
                vstd::arithmetic::div_mod::lemma_fundamental_div_mod_converse(
                    a as int, d as int, -q0 as int, 0);
            }
            -q0
        } else {
            proof {
                let r = m % d;
                assert(0 < r < d);
                assert(a as int == (-q0 - 1) * d + (d - r)) by (nonlinear_arith)
                    requires
                        m == d * q0 + r,
                        a == -m,
                ;
                vstd::arithmetic::div_mod::lemma_fundamental_div_mod_converse(
                    a as int, d as int, -q0 - 1, d - r);
                if q0 == m {
                    assert(m == d * m + r);
                    assert(d * m >= m) by (nonlinear_arith)
                        requires
                            d >= 1,
                            m >= 0,
                    ;
                }
            }
            -q0 - 1
        }
    }
}

/// Quotient of `a` by a positive `d`, rounded up.
pub fn div_ceil(a: i128, d: i128) -> (q: i128)
    requires
        d > 0,
        -DIVIDEND_LIMIT <= a <= DIVIDEND_LIMIT,
    ensures
        q as int == ceil_div(a as int, d as int),
        -DIVIDEND_LIMIT <= q <= DIVIDEND_LIMIT,
{
    let f = div_floor(-a, d);
    -f
}

/// `v` held to `[-COORD_LIMIT, COORD_LIMIT]`.
pub fn saturate_coord(v: i128) -> (r: i64)
    ensures
        r as int == saturate(v as int),
{
    if v > COORD_LIMIT as i128 {
        COORD_LIMIT
    } else if v < -(COORD_LIMIT as i128) {
        -COORD_LIMIT
    } else {
        v as i64
    }
}


/// Bound on a product from bounds on its factors.
pub proof fn lemma_mul_bounded(a: int, b: int, ba: int, bb: int)
    requires
        -ba <= a <= ba,
        -bb <= b <= bb,
    ensures
        -(ba * bb) <= a * b <= ba * bb,
{
    assert(-(ba * bb) <= a * b <= ba * bb) by (nonlinear_arith)
        requires
            -ba <= a <= ba,
            -bb <= b <= bb,
    ;
}

/// Dot product of a bounded vector with a unit-bounded one, in wide arithmetic.
pub fn dot_wide(a: &Vector3, n: &Vector3) -> (r: i128)
    requires
        bounded(*a),
        unit_bounded(*n),
    ensures
        r as int == dot(*a, *n),
        -3 * COORD_LIMIT * UNIT <= r <= 3 * COORD_LIMIT * UNIT,
{
    proof {
        lemma_mul_bounded(a.x as int, n.x as int, COORD_LIMIT as int, UNIT as int);
        lemma_mul_bounded(a.y as int, n.y as int, COORD_LIMIT as int, UNIT as int);
        lemma_mul_bounded(a.z as int, n.z as int, COORD_LIMIT as int, UNIT as int);
    }
    (a.x as i128) * (n.x as i128) + (a.y as i128) * (n.y as i128) + (a.z as i128) * (n.z as i128)
}

/// Squared length of a unit-bounded vector.
pub fn len2_wide(n: &Vector3) -> (r: i128)
    requires
        unit_bounded(*n),
    ensures
        r as int == len2(*n),
        0 <= r <= 3 * UNIT * UNIT,
{
    proof {
        assert(0 <= n.x * n.x <= UNIT * UNIT) by (nonlinear_arith)
            requires -UNIT <= n.x <= UNIT;
        assert(0 <= n.y * n.y <= UNIT * UNIT) by (nonlinear_arith)
            requires -UNIT <= n.y <= UNIT;
        assert(0 <= n.z * n.z <= UNIT * UNIT) by (nonlinear_arith)
            requires -UNIT <= n.z <= UNIT;
    }
    (n.x as i128) * (n.x as i128) + (n.y as i128) * (n.y as i128) + (n.z as i128) * (n.z as i128)
}


/// A quotient rounded toward zero is no larger in magnitude than the dividend.
pub proof fn lemma_trunc_div_le(a: int, d: int)
    requires
        d >= 1,
    ensures
        -a <= trunc_div(a, d) <= a || a <= trunc_div(a, d) <= -a,
        a >= 0 ==> 0 <= trunc_div(a, d) <= a,
        a < 0 ==> a <= trunc_div(a, d) <= 0,
{
    if a >= 0 {
        lemma_div_le(a, d);
    } else {
        lemma_div_le(-a, d);
    }
}

} // verus!
