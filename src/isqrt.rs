//! Integer square roots, for lengths of fixed-point vectors, and scaling
//! vectors to unit length.
use vstd::prelude::*;
use crate::fixed::{UNIT, trunc_div, div_trunc, lemma_trunc_div_le};

verus! {

/// `r` is the square root of `x` rounded down.
pub open spec fn is_floor_sqrt(x: int, r: int) -> bool {
    0 <= r && r * r <= x < (r + 1) * (r + 1)
}

/// The floor square root is unique.
pub proof fn lemma_floor_sqrt_unique(x: int, r: int, s: int)
    requires
        is_floor_sqrt(x, r),
        is_floor_sqrt(x, s),
    ensures
        r == s,
{
    if r < s {
        assert((r + 1) * (r + 1) <= s * s) by (nonlinear_arith)
            requires 0 <= r + 1 <= s;
    } else if s < r {
        assert((s + 1) * (s + 1) <= r * r) by (nonlinear_arith)
            requires 0 <= s + 1 <= r;
    }
}

/// Largest argument of `floor_sqrt`.
pub const SQRT_ARG_LIMIT: u64 = 4_000_000_000_000_000_000;

/// The square root of `x`, rounded down.
pub fn floor_sqrt(x: u64) -> (r: u64)
    requires
        x <= SQRT_ARG_LIMIT,
    ensures
        is_floor_sqrt(x as int, r as int),
        r as int == floor_sqrt_spec(x as int),
{
    // Invariant: lo * lo <= x < hi * hi.
    let mut lo: u64 = 0;
    let mut hi: u64 = 2_000_000_001;
    assert(2_000_000_001 * 2_000_000_001 > SQRT_ARG_LIMIT) by (nonlinear_arith);
    while hi - lo > 1
        invariant
            lo < hi <= 2_000_000_001,
            lo * lo <= x,
            x < hi * hi,
        decreases hi - lo,
    {
        let mid = lo + (hi - lo) / 2;
        assert(mid * mid <= 2_000_000_001 * 2_000_000_001) by (nonlinear_arith)
            requires mid <= 2_000_000_001;
        if mid * mid <= x {
            lo = mid;
        } else {
            hi = mid;
        }
    }
    assert(hi == lo + 1);
    proof {
        lemma_floor_sqrt_spec(x as int);
        lemma_floor_sqrt_unique(x as int, lo as int, floor_sqrt_spec(x as int));
    }
    lo
}


/// The square root of `x` rounded down, for `x >= 0`.
pub open spec fn floor_sqrt_spec(x: int) -> int
    decreases x,
{
    if x <= 0 {
        0
    } else {
        let r = floor_sqrt_spec(x - 1);
        if (r + 1) * (r + 1) <= x {
            r + 1
        } else {
            r
        }
    }
}

pub proof fn lemma_floor_sqrt_spec(x: int)
    requires
        x >= 0,
    ensures
        is_floor_sqrt(x, floor_sqrt_spec(x)),
    decreases x,
{
    if x > 0 {
        lemma_floor_sqrt_spec(x - 1);
        let r = floor_sqrt_spec(x - 1);
        if (r + 1) * (r + 1) <= x {
            assert(x < (r + 2) * (r + 2)) by (nonlinear_arith)
                requires x - 1 < (r + 1) * (r + 1), r >= 0;
        }
    }
}

/// `c` scaled to thousandths of a length `len`.
pub open spec fn unit_part(c: int, len: int) -> int {
    trunc_div(c * UNIT, len)
}

/// `c` scaled to thousandths of a length `len` that is at least `|c|`.
pub fn unit_part_exec(c: i64, len: i64) -> (r: i64)
    requires
        len >= 1,
        c * c <= len * len + 2 * len,
        -100_000_000 <= c <= 100_000_000,
    ensures
        r as int == unit_part(c as int, len as int),
        -UNIT <= r <= UNIT,
{
    proof {
        // |c| <= len, since c² < (len + 1)².
        assert((len + 1) * (len + 1) == len * len + 2 * len + 1) by (nonlinear_arith);
        if c > len {
            assert(c * c >= (len + 1) * (len + 1)) by (nonlinear_arith)
                requires c >= len + 1, len >= 1;
            assert(false);
        } else if c < -len {
            assert(c * c >= (len + 1) * (len + 1)) by (nonlinear_arith)
                requires -c >= len + 1, len >= 1;
            assert(false);
        }
        let a = c * UNIT;
        lemma_trunc_div_le(a, len as int);
        let b = len * UNIT;
        vstd::arithmetic::div_mod::lemma_div_multiples_vanish(UNIT as int, len as int);
        assert(len * UNIT == UNIT * len) by (nonlinear_arith);
        if a >= 0 {
            assert(a <= b) by (nonlinear_arith)
                requires a == c * UNIT, c <= len, b == len * UNIT;
            vstd::arithmetic::div_mod::lemma_div_is_ordered(a, b, len as int);
        } else {
            assert(-a <= b) by (nonlinear_arith)
                requires a == c * UNIT, -c <= len, b == len * UNIT;
            vstd::arithmetic::div_mod::lemma_div_is_ordered(-a, b, len as int);
        }
    }
    div_trunc((c as i128) * 1000, len as i128) as i64
}

/// Largest magnitude of a component handed to `planar_unit_exec`.
pub const PLANAR_LIMIT: i64 = 100_000;

/// The planar vector `(x, z)` scaled to length `UNIT`, each part rounded
/// toward zero; the zero vector stays zero. The length is taken in
/// thousandths of a unit, so that short vectors keep their direction.
pub open spec fn planar_unit(x: int, z: int) -> (int, int) {
    let len = floor_sqrt_spec((x * x + z * z) * (UNIT * UNIT));
    if len == 0 {
        (0, 0)
    } else {
        (unit_part(x * UNIT, len), unit_part(z * UNIT, len))
    }
}

/// The planar vector `(x, z)` scaled to length `UNIT` (see `planar_unit`).
pub fn planar_unit_exec(x: i64, z: i64) -> (r: (i64, i64))
    requires
        -PLANAR_LIMIT <= x <= PLANAR_LIMIT,
        -PLANAR_LIMIT <= z <= PLANAR_LIMIT,
    ensures
        r.0 as int == planar_unit(x as int, z as int).0,
        r.1 as int == planar_unit(x as int, z as int).1,
        -UNIT <= r.0 <= UNIT,
        -UNIT <= r.1 <= UNIT,
{
    proof {
        crate::fixed::lemma_mul_bounded(x as int, x as int, PLANAR_LIMIT as int, PLANAR_LIMIT as int);
        crate::fixed::lemma_mul_bounded(z as int, z as int, PLANAR_LIMIT as int, PLANAR_LIMIT as int);
        assert(x * x >= 0 && z * z >= 0) by (nonlinear_arith);
    }
    let s = ((x as i128) * (x as i128) + (z as i128) * (z as i128)) * 1_000_000;
    let len = floor_sqrt(s as u64);
    if len == 0 {
        return (0, 0);
    }
    let cx = x * 1000;
    let cz = z * 1000;
    proof {
        assert(cx * cx <= s && cz * cz <= s) by (nonlinear_arith)
            requires
                cx == x * 1000,
                cz == z * 1000,
                s == (x * x + z * z) * 1_000_000,
                x * x >= 0,
                z * z >= 0,
        ;
        assert(s < (len + 1) * (len + 1));
        assert((len + 1) * (len + 1) == len * len + 2 * len + 1) by (nonlinear_arith);
        assert(len <= len * len) by (nonlinear_arith)
            requires len >= 1;
    }
    (unit_part_exec(cx, len as i64), unit_part_exec(cz, len as i64))
}

/// Magnitude of a quotient rounded toward zero, bracketed by the divisor:
/// `|q| * d <= |a| < (|q| + 1) * d`.
proof fn lemma_trunc_bracket(a: int, d: int)
    requires
        d >= 1,
    ensures
        ({
            let q = trunc_div(a, d);
            let qa = if q >= 0 { q } else { -q };
            let aa = if a >= 0 { a } else { -a };
            qa * d <= aa < (qa + 1) * d
        }),
{
    let aa = if a >= 0 { a } else { -a };
    vstd::arithmetic::div_mod::lemma_fundamental_div_mod(aa, d);
    vstd::arithmetic::div_mod::lemma_div_pos_is_pos(aa, d);
    let q0 = aa / d;
    assert(aa == d * q0 + aa % d);
    assert(q0 * d <= aa < (q0 + 1) * d) by (nonlinear_arith)
        requires aa == d * q0 + aa % d, 0 <= aa % d < d;
}

/// Squares keep a bracket of non-negative numbers.
proof fn lemma_square_bracket(u: int, d: int, a: int)
    requires
        u >= 0,
        d >= 1,
        u * d <= a < (u + 1) * d,
    ensures
        u * u * (d * d) <= a * a < (u + 1) * (u + 1) * (d * d),
{
    assert(u * u * (d * d) == (u * d) * (u * d)) by (nonlinear_arith);
    assert((u + 1) * (u + 1) * (d * d) == ((u + 1) * d) * ((u + 1) * d)) by (nonlinear_arith);
    assert((u * d) * (u * d) <= a * a) by (nonlinear_arith)
        requires 0 <= u * d <= a;
    assert(a * a < ((u + 1) * d) * ((u + 1) * d)) by (nonlinear_arith)
        requires 0 <= a < (u + 1) * d;
}

/// A non-zero planar vector scaled by `planar_unit` has unit length up to
/// rounding: its squared length lies within `[UNIT² - 4 UNIT - 1, UNIT² + 2 UNIT]`,
/// that is its length within 0.2% of `UNIT`.
pub proof fn lemma_planar_unit_near_unit(x: int, z: int)
    requires
        -PLANAR_LIMIT <= x <= PLANAR_LIMIT,
        -PLANAR_LIMIT <= z <= PLANAR_LIMIT,
        x != 0 || z != 0,
    ensures
        ({
            let (ux, uz) = planar_unit(x, z);
            UNIT * UNIT - 4 * UNIT - 1 <= ux * ux + uz * uz <= UNIT * UNIT + 2 * UNIT
        }),
{
    let s = (x * x + z * z) * (UNIT * UNIT);
    assert(x * x >= 0 && z * z >= 0) by (nonlinear_arith);
    assert(x * x + z * z >= 1) by (nonlinear_arith)
        requires x != 0 || z != 0, x * x >= 0, z * z >= 0;
    assert(s >= 1_000_000) by (nonlinear_arith)
        requires x * x + z * z >= 1, s == (x * x + z * z) * (UNIT * UNIT);
    lemma_floor_sqrt_spec(s);
    let len = floor_sqrt_spec(s);
    assert(len >= 1000) by (nonlinear_arith)
        requires s >= 1_000_000, s < (len + 1) * (len + 1), len >= 0;
    let ax = x * UNIT * UNIT;
    let az = z * UNIT * UNIT;
    let ux = unit_part(x * UNIT, len);
    let uz = unit_part(z * UNIT, len);
    assert(ux == trunc_div(ax, len)) by {
        assert(x * UNIT * UNIT == (x * UNIT) * UNIT) by (nonlinear_arith);
    }
    assert(uz == trunc_div(az, len)) by {
        assert(z * UNIT * UNIT == (z * UNIT) * UNIT) by (nonlinear_arith);
    }
    lemma_trunc_bracket(ax, len);
    lemma_trunc_bracket(az, len);
    let vx = if ux >= 0 { ux } else { -ux };
    let vz = if uz >= 0 { uz } else { -uz };
    let bx = if ax >= 0 { ax } else { -ax };
    let bz = if az >= 0 { az } else { -az };
    lemma_square_bracket(vx, len, bx);
    lemma_square_bracket(vz, len, bz);
    assert(vx * vx == ux * ux && vz * vz == uz * uz) by (nonlinear_arith)
        requires vx == ux || vx == -ux, vz == uz || vz == -uz;
    assert(bx * bx + bz * bz == (UNIT * UNIT) * s) by (nonlinear_arith)
        requires
            bx == ax || bx == -ax,
            bz == az || bz == -az,
            ax == x * UNIT * UNIT,
            az == z * UNIT * UNIT,
            s == (x * x + z * z) * (UNIT * UNIT),
    ;
    let q = ux * ux + uz * uz;
    let d2 = len * len;
    assert(len * len <= s);
    assert(d2 >= 1) by (nonlinear_arith)
        requires d2 == len * len, len >= 1000;
    // Upper bound: q * len² <= UNIT² s < UNIT² (len + 1)².
    assert(q * d2 <= (UNIT * UNIT) * s) by (nonlinear_arith)
        requires
            vx * vx * d2 <= bx * bx,
            vz * vz * d2 <= bz * bz,
            q == vx * vx + vz * vz,
            bx * bx + bz * bz == (UNIT * UNIT) * s,
    ;
    assert(q <= UNIT * UNIT + 2 * UNIT) by (nonlinear_arith)
        requires
            q * d2 <= (UNIT * UNIT) * s,
            s < (len + 1) * (len + 1),
            d2 == len * len,
            len >= 1000,
    ;
    // Lower bound: UNIT² len² <= UNIT² s < ((vx + 1)² + (vz + 1)²) len².
    assert(vx <= 1000 && vz <= 1000) by (nonlinear_arith)
        requires q == vx * vx + vz * vz, q <= 1_002_000, vx >= 0, vz >= 0;
    assert((UNIT * UNIT) * d2 < ((vx + 1) * (vx + 1) + (vz + 1) * (vz + 1)) * d2) by (nonlinear_arith)
        requires
            bx * bx < (vx + 1) * (vx + 1) * d2,
            bz * bz < (vz + 1) * (vz + 1) * d2,
            bx * bx + bz * bz == (UNIT * UNIT) * s,
            d2 <= s,
    ;
    assert(UNIT * UNIT < (vx + 1) * (vx + 1) + (vz + 1) * (vz + 1)) by (nonlinear_arith)
        requires
            (UNIT * UNIT) * d2 < ((vx + 1) * (vx + 1) + (vz + 1) * (vz + 1)) * d2,
            d2 >= 1,
    ;
    assert(q >= UNIT * UNIT - 4 * UNIT - 1) by (nonlinear_arith)
        requires
            UNIT * UNIT < (vx + 1) * (vx + 1) + (vz + 1) * (vz + 1),
            q == vx * vx + vz * vz,
            0 <= vx <= 1000,
            0 <= vz <= 1000,
    ;
}

} // verus!
