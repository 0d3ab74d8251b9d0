//! Properties of contact resolution, proved over its specification.
use vstd::prelude::*;
use crate::fixed::{Vector3, dot, len2, bounded, in_range, ceil_div};
use crate::slope::{MaxSlopeAngle, climbable};
use crate::contact::{
    ContactManifold, deepest, oriented_normal, slope_floor, resolve_velocity, into_surface,
    slide_raw_x, slide_raw_y, slide_raw_z, max_int,
};

verus! {

/// Against a penetrating climbable slope, the body keeps its horizontal
/// velocity and its vertical speed becomes at least the slope's floor
/// `-(v_h . n_h) / n_y` (the horizontal speed along the fall line times the
/// slope's tangent, rounded up), so that it never moves into the slope. Where
/// it was below that floor it ends exactly on it, within rounding.
pub proof fn lemma_climbable_slope_rides(
    v: Vector3,
    m: ContactManifold,
    body_is_first: bool,
    limit: Option<MaxSlopeAngle>,
    dt: int,
)
    requires
        bounded(v),
        m.penetrations@.len() > 0,
        deepest(m.penetrations@) > 0,
        climbable(oriented_normal(m, body_is_first), limit),
        in_range(slope_floor(v, oriented_normal(m, body_is_first))),
    ensures
        ({
            let n = oriented_normal(m, body_is_first);
            let r = resolve_velocity(v, m, body_is_first, false, limit, dt);
            let h = v.x * n.x + v.z * n.z;
            &&& r.x == v.x
            &&& r.z == v.z
            &&& r.y == max_int(v.y as int, slope_floor(v, n))
            &&& r.y >= v.y
            &&& dot(r, n) >= 0
            &&& v.y < slope_floor(v, n) ==> n.y * (r.y - 1) < -h <= n.y * r.y
        }),
{
    let n = oriented_normal(m, body_is_first);
    let h = v.x * n.x + v.z * n.z;
    let f = slope_floor(v, n);
    let r = resolve_velocity(v, m, body_is_first, false, limit, dt);
    assert(n.y > 0);
    lemma_ceil_div_bounds(-h, n.y as int);
    if v.y >= f {
        assert(r == v);
        assert(v.y * n.y >= f * n.y) by (nonlinear_arith)
            requires v.y >= f, n.y > 0;
    } else {
        assert(r.y == f);
    }
    assert(dot(r, n) == h + r.y * n.y);
}

/// `ceil_div(a, d)` is the least `q` with `q * d >= a`.
pub proof fn lemma_ceil_div_bounds(a: int, d: int)
    requires
        d > 0,
    ensures
        d * (ceil_div(a, d) - 1) < a <= d * ceil_div(a, d),
        ceil_div(a, d) * d >= a,
{
    vstd::arithmetic::div_mod::lemma_fundamental_div_mod(-a, d);
    let q = (-a) / d;
    let r = (-a) % d;
    assert(-a == d * q + r);
    assert(0 <= r < d);
    assert(d * (-q - 1) < a <= d * (-q)) by (nonlinear_arith)
        requires -a == d * q + r, 0 <= r < d;
    assert((-q) * d == d * (-q)) by (nonlinear_arith);
}

/// One component of a wall slide, scaled by `nn`, lies within one unit of the
/// exact rejection `nn * v_c - d * c`, on the side away from the wall, and
/// its contribution to what remains along the normal is at least zero and
/// less than `nn * |c|`.
pub proof fn lemma_slide_component(vc: int, d: int, c: int, nn: int)
    requires
        nn > 0,
    ensures
        ({
            let q = into_surface(d, c, nn);
            let rc = vc - q;
            let exact = nn * vc - d * c;
            &&& c >= 0 ==> 0 <= nn * rc - exact < nn
            &&& c < 0 ==> -nn < nn * rc - exact <= 0
            &&& 0 <= d * c * c - nn * q * c
            &&& c != 0 ==> d * c * c - nn * q * c < nn * (if c >= 0 { c } else { -c })
            &&& c == 0 ==> q == 0
        }),
{
    let q = into_surface(d, c, nn);
    let a = d * c;
    if c >= 0 {
        vstd::arithmetic::div_mod::lemma_fundamental_div_mod(a, nn);
        assert(q == a / nn);
        assert(a == nn * q + a % nn);
        assert(0 <= a - nn * q < nn);
        assert(0 <= d * c * c - nn * q * c) by (nonlinear_arith)
            requires 0 <= a - nn * q, a == d * c, c >= 0;
        if c != 0 {
            assert(d * c * c - nn * q * c < nn * c) by (nonlinear_arith)
                requires a - nn * q < nn, a == d * c, c > 0;
        } else {
            assert(a == 0) by (nonlinear_arith)
                requires a == d * c, c == 0;
            vstd::arithmetic::div_mod::lemma_div_basics(nn);
            assert(q == 0);
        }
        assert(nn * (vc - q) - (nn * vc - d * c) == a - nn * q) by (nonlinear_arith)
            requires a == d * c;
    } else {
        lemma_ceil_div_bounds(a, nn);
        assert(q == ceil_div(a, nn));
        assert(nn * (q - 1) < a <= nn * q);
        assert(nn * (q - 1) == nn * q - nn) by (nonlinear_arith);
        assert(0 <= d * c * c - nn * q * c) by (nonlinear_arith)
            requires a <= nn * q, a == d * c, c < 0;
        assert(d * c * c - nn * q * c < nn * (-c)) by (nonlinear_arith)
            requires nn * (q - 1) < a, a == d * c, c < 0;
        assert(nn * (vc - q) - (nn * vc - d * c) == a - nn * q) by (nonlinear_arith)
            requires a == d * c;
    }
}

pub open spec fn abs_int(a: int) -> int {
    if a >= 0 {
        a
    } else {
        -a
    }
}

/// The exact rejection of `v` from `n`, scaled by `len2(n)`.
pub open spec fn rejection_scaled(v: Vector3, n: Vector3) -> (int, int, int) {
    let d = dot(v, n);
    let nn = len2(n);
    (nn * v.x - d * n.x, nn * v.y - d * n.y, nn * v.z - d * n.z)
}

/// The exact rejection is orthogonal to `n` and keeps the tangential part of
/// `v`: its squared length is `nn * (nn * |v|^2 - d^2)`, that is `nn^2` times
/// `|v|^2 - d^2 / nn`, the squared tangential speed.
pub proof fn lemma_rejection_exact(v: Vector3, n: Vector3)
    ensures
        ({
            let (ex, ey, ez) = rejection_scaled(v, n);
            let d = dot(v, n);
            let nn = len2(n);
            &&& ex * n.x + ey * n.y + ez * n.z == 0
            &&& ex * ex + ey * ey + ez * ez == nn * (nn * len2(v) - d * d)
        }),
{
    let d = dot(v, n);
    let nn = len2(n);
    let (ex, ey, ez) = rejection_scaled(v, n);
    let (a, b, c) = (v.x as int, v.y as int, v.z as int);
    let (p, q, r) = (n.x as int, n.y as int, n.z as int);
    lemma_component_products(ex, nn, a, d, p);
    lemma_component_products(ey, nn, b, d, q);
    lemma_component_products(ez, nn, c, d, r);
    assert(d == a * p + b * q + c * r);
    assert(nn == p * p + q * q + r * r);
    assert(len2(v) == a * a + b * b + c * c);
    assert(nn * (a * p) + nn * (b * q) + nn * (c * r) == nn * d) by (nonlinear_arith)
        requires d == a * p + b * q + c * r;
    assert(d * (p * p) + d * (q * q) + d * (r * r) == d * nn) by (nonlinear_arith)
        requires nn == p * p + q * q + r * r;
    assert(nn * nn * (a * a) + nn * nn * (b * b) + nn * nn * (c * c) == nn * nn * len2(v))
        by (nonlinear_arith)
        requires len2(v) == a * a + b * b + c * c;
    assert(nn * d * (a * p) + nn * d * (b * q) + nn * d * (c * r) == nn * d * d)
        by (nonlinear_arith)
        requires d == a * p + b * q + c * r;
    assert(d * d * (p * p) + d * d * (q * q) + d * d * (r * r) == d * d * nn) by (nonlinear_arith)
        requires nn == p * p + q * q + r * r;
    assert(ex * ex + ey * ey + ez * ez == nn * nn * len2(v) - 2 * (nn * d * d) + d * d * nn);
    assert(nn * nn * len2(v) - 2 * (nn * d * d) + d * d * nn == nn * (nn * len2(v) - d * d))
        by (nonlinear_arith);
}

/// Products of one component `e = nn * vc - d * c` of the scaled rejection.
proof fn lemma_component_products(e: int, nn: int, vc: int, d: int, c: int)
    requires
        e == nn * vc - d * c,
    ensures
        e * c == nn * (vc * c) - d * (c * c),
        e * e == nn * nn * (vc * vc) - 2 * (nn * d * (vc * c)) + d * d * (c * c),
{
    assert(e * c == nn * (vc * c) - d * (c * c)) by (nonlinear_arith)
        requires e == nn * vc - d * c;
    let x = nn * vc;
    let y = d * c;
    assert(e * e == x * x - 2 * (x * y) + y * y) by (nonlinear_arith)
        requires e == x - y;
    assert(x * x == nn * nn * (vc * vc)) by (nonlinear_arith)
        requires x == nn * vc;
    assert(y * y == d * d * (c * c)) by (nonlinear_arith)
        requires y == d * c;
    assert(x * y == nn * d * (vc * c)) by (nonlinear_arith)
        requires x == nn * vc, y == d * c;
}

/// Against a penetrating wall that the body moves into, the slide leaves a
/// velocity whose component along the normal is zero up to rounding: never
/// into the wall, and less than `|n.x| + |n.y| + |n.z|` thousandths of mm/s
/// out of it. Each component lies within one unit of the exact rejection,
/// which is orthogonal to the normal and keeps the tangential speed; where
/// the rejection falls on whole units the slide is exact and the component
/// along the normal is exactly zero.
pub proof fn lemma_wall_slides(
    v: Vector3,
    m: ContactManifold,
    body_is_first: bool,
    limit: Option<MaxSlopeAngle>,
    dt: int,
)
    requires
        bounded(v),
        m.penetrations@.len() > 0,
        deepest(m.penetrations@) > 0,
        !climbable(oriented_normal(m, body_is_first), limit),
        dot(v, oriented_normal(m, body_is_first)) < 0,
        in_range(slide_raw_x(v, oriented_normal(m, body_is_first))),
        in_range(slide_raw_y(v, oriented_normal(m, body_is_first))),
        in_range(slide_raw_z(v, oriented_normal(m, body_is_first))),
    ensures
        ({
            let n = oriented_normal(m, body_is_first);
            let r = resolve_velocity(v, m, body_is_first, false, limit, dt);
            let nn = len2(n);
            let d = dot(v, n);
            let (ex, ey, ez) = rejection_scaled(v, n);
            &&& 0 <= dot(r, n) < abs_int(n.x as int) + abs_int(n.y as int) + abs_int(n.z as int)
            &&& abs_int(nn * r.x - ex) < nn
            &&& abs_int(nn * r.y - ey) < nn
            &&& abs_int(nn * r.z - ez) < nn
            &&& ex * n.x + ey * n.y + ez * n.z == 0
            &&& ex * ex + ey * ey + ez * ez == nn * (nn * len2(v) - d * d)
            &&& ((d * n.x) % nn == 0 && (d * n.y) % nn == 0 && (d * n.z) % nn == 0) ==> (dot(r, n)
                == 0 && nn * r.x == ex && nn * r.y == ey && nn * r.z == ez)
        }),
{
    let n = oriented_normal(m, body_is_first);
    let r = resolve_velocity(v, m, body_is_first, false, limit, dt);
    let nn = len2(n);
    let d = dot(v, n);
    let (p, q, w) = (n.x as int, n.y as int, n.z as int);
    assert(p * p >= 0 && q * q >= 0 && w * w >= 0) by (nonlinear_arith);
    if nn == 0 {
        assert(p == 0 && q == 0 && w == 0) by (nonlinear_arith)
            requires p * p + q * q + w * w == 0, p * p >= 0, q * q >= 0, w * w >= 0;
        assert(d == 0) by (nonlinear_arith)
            requires p == 0, q == 0, w == 0, d == v.x * p + v.y * q + v.z * w;
    }
    assert(nn > 0);
    lemma_rejection_exact(v, n);
    lemma_slide_component(v.x as int, d, p, nn);
    lemma_slide_component(v.y as int, d, q, nn);
    lemma_slide_component(v.z as int, d, w, nn);
    let qx = into_surface(d, p, nn);
    let qy = into_surface(d, q, nn);
    let qz = into_surface(d, w, nn);
    assert(r.x == v.x - qx && r.y == v.y - qy && r.z == v.z - qz);
    let s = d * p * p - nn * qx * p + (d * q * q - nn * qy * q) + (d * w * w - nn * qz * w);
    let (rx, ry, rz) = (r.x as int, r.y as int, r.z as int);
    assert(dot(r, n) == rx * p + ry * q + rz * w);
    assert(rx * p + ry * q + rz * w == d - (qx * p + qy * q + qz * w)) by (nonlinear_arith)
        requires
            rx == v.x - qx,
            ry == v.y - qy,
            rz == v.z - qz,
            d == v.x * p + v.y * q + v.z * w,
    ;
    lemma_scale_difference(nn, d, qx, p, qy, q, qz, w);
    assert(nn * d == d * p * p + d * q * q + d * w * w) by (nonlinear_arith)
        requires nn == p * p + q * q + w * w;
    assert(nn * dot(r, n) == s);
    let bound = abs_int(p) + abs_int(q) + abs_int(w);
    assert(0 <= s < nn * bound) by (nonlinear_arith)
        requires
            s == d * p * p - nn * qx * p + (d * q * q - nn * qy * q) + (d * w * w - nn * qz * w),
            0 <= d * p * p - nn * qx * p,
            0 <= d * q * q - nn * qy * q,
            0 <= d * w * w - nn * qz * w,
            p != 0 ==> d * p * p - nn * qx * p < nn * abs_int(p),
            q != 0 ==> d * q * q - nn * qy * q < nn * abs_int(q),
            w != 0 ==> d * w * w - nn * qz * w < nn * abs_int(w),
            p == 0 ==> qx == 0,
            q == 0 ==> qy == 0,
            w == 0 ==> qz == 0,
            nn > 0,
            p != 0 || q != 0 || w != 0,
            bound == abs_int(p) + abs_int(q) + abs_int(w),
    ;
    assert(0 <= dot(r, n) < bound) by (nonlinear_arith)
        requires nn * dot(r, n) == s, 0 <= s < nn * bound, nn > 0;
    if (d * p) % nn == 0 && (d * q) % nn == 0 && (d * w) % nn == 0 {
        lemma_exact_share(d, p, nn);
        lemma_exact_share(d, q, nn);
        lemma_exact_share(d, w, nn);
        assert(d * p * p - nn * qx * p == 0) by (nonlinear_arith)
            requires nn * qx == d * p;
        assert(d * q * q - nn * qy * q == 0) by (nonlinear_arith)
            requires nn * qy == d * q;
        assert(d * w * w - nn * qz * w == 0) by (nonlinear_arith)
            requires nn * qz == d * w;
        assert(dot(r, n) == 0) by (nonlinear_arith)
            requires nn * dot(r, n) == s, s == 0, nn > 0;
        assert(nn * rx == nn * v.x - d * p) by (nonlinear_arith)
            requires nn * qx == d * p, rx == v.x - qx;
        assert(nn * ry == nn * v.y - d * q) by (nonlinear_arith)
            requires nn * qy == d * q, ry == v.y - qy;
        assert(nn * rz == nn * v.z - d * w) by (nonlinear_arith)
            requires nn * qz == d * w, rz == v.z - qz;
    }
}

/// Where `nn` divides `d * c`, the share along the normal is exact.
proof fn lemma_exact_share(d: int, c: int, nn: int)
    requires
        nn > 0,
        (d * c) % nn == 0,
    ensures
        nn * into_surface(d, c, nn) == d * c,
{
    let a = d * c;
    vstd::arithmetic::div_mod::lemma_fundamental_div_mod(a, nn);
    let k = a / nn;
    assert(a == nn * k);
    if c >= 0 {
        vstd::arithmetic::div_mod::lemma_div_multiples_vanish(k, nn);
    } else {
        assert(-a == nn * (-k)) by (nonlinear_arith)
            requires a == nn * k;
        vstd::arithmetic::div_mod::lemma_div_multiples_vanish(-k, nn);
        assert(into_surface(d, c, nn) == k);
    }
}

proof fn lemma_scale_difference(nn: int, d: int, a: int, p: int, b: int, q: int, c: int, w: int)
    ensures
        nn * (d - (a * p + b * q + c * w)) == nn * d - (nn * a * p + nn * b * q + nn * c * w),
{
    assert(nn * (a * p) == nn * a * p) by (nonlinear_arith);
    assert(nn * (b * q) == nn * b * q) by (nonlinear_arith);
    assert(nn * (c * w) == nn * c * w) by (nonlinear_arith);
    assert(nn * (d - (a * p + b * q + c * w)) == nn * d - (nn * (a * p) + nn * (b * q) + nn * (c * w)))
        by (nonlinear_arith);
}

/// A manifold that is not speculative (it has no points, or at least one of
/// them overlaps) changes nothing more when it is resolved a second time with
/// the same input: the velocity it leaves is a fixed point of its own
/// resolution.
pub proof fn lemma_resolution_idempotent(
    v: Vector3,
    m: ContactManifold,
    body_is_first: bool,
    other_is_dynamic: bool,
    limit: Option<MaxSlopeAngle>,
    dt: int,
)
    requires
        bounded(v),
        m.penetrations@.len() == 0 || deepest(m.penetrations@) > 0,
        ({
            let n = oriented_normal(m, body_is_first);
            (!climbable(n, limit) && dot(v, n) < 0) ==> (in_range(slide_raw_x(v, n)) && in_range(
                slide_raw_y(v, n),
            ) && in_range(slide_raw_z(v, n)))
        }),
    ensures
        ({
            let once = resolve_velocity(v, m, body_is_first, other_is_dynamic, limit, dt);
            resolve_velocity(once, m, body_is_first, other_is_dynamic, limit, dt) == once
        }),
{
    let n = oriented_normal(m, body_is_first);
    let once = resolve_velocity(v, m, body_is_first, other_is_dynamic, limit, dt);
    if other_is_dynamic || m.penetrations@.len() == 0 {
        return;
    }
    if climbable(n, limit) {
        let f = slope_floor(v, n);
        assert(slope_floor(once, n) == f);
        return;
    }
    let nn = len2(n);
    let d = dot(v, n);
    assert(nn >= 0) by (nonlinear_arith)
        requires nn == n.x * n.x + n.y * n.y + n.z * n.z;
    if d > 0 || nn == 0 {
        assert(once == v);
        return;
    }
    if d == 0 {
        lemma_zero_share(n.x as int, nn);
        lemma_zero_share(n.y as int, nn);
        lemma_zero_share(n.z as int, nn);
        assert(once == v);
        return;
    }
    lemma_wall_slides(v, m, body_is_first, limit, dt);
    assert(resolve_velocity(v, m, body_is_first, false, limit, dt) == once);
    assert(bounded(once));
    if dot(once, n) == 0 {
        lemma_zero_share(n.x as int, nn);
        lemma_zero_share(n.y as int, nn);
        lemma_zero_share(n.z as int, nn);
    }
}

/// Nothing of a zero component along the normal is removed.
proof fn lemma_zero_share(c: int, nn: int)
    requires
        nn > 0,
    ensures
        into_surface(0, c, nn) == 0,
{
    assert(0 * c == 0);
    vstd::arithmetic::div_mod::lemma_div_basics(nn);
}

/// Along every direction `t` tangent to the wall, the exact rejection (scaled
/// by `len2(n)`) keeps the velocity's component: nothing is added or lost
/// along the wall.
pub proof fn lemma_rejection_keeps_tangent(v: Vector3, n: Vector3, t: Vector3)
    requires
        dot(t, n) == 0,
    ensures
        ({
            let (ex, ey, ez) = rejection_scaled(v, n);
            ex * t.x + ey * t.y + ez * t.z == len2(n) * dot(v, t)
        }),
{
    let d = dot(v, n);
    let nn = len2(n);
    let (ex, ey, ez) = rejection_scaled(v, n);
    lemma_component_times(ex, nn, v.x as int, d, n.x as int, t.x as int);
    lemma_component_times(ey, nn, v.y as int, d, n.y as int, t.y as int);
    lemma_component_times(ez, nn, v.z as int, d, n.z as int, t.z as int);
    lemma_sum_scaled(nn, v.x * t.x, v.y * t.y, v.z * t.z);
    lemma_sum_scaled(d, n.x * t.x, n.y * t.y, n.z * t.z);
    assert(dot(v, t) == v.x * t.x + v.y * t.y + v.z * t.z);
    assert(n.x * t.x + n.y * t.y + n.z * t.z == dot(t, n)) by (nonlinear_arith);
}

proof fn lemma_component_times(e: int, nn: int, vc: int, d: int, nc: int, tc: int)
    requires
        e == nn * vc - d * nc,
    ensures
        e * tc == nn * (vc * tc) - d * (nc * tc),
{
    assert(e * tc == nn * (vc * tc) - d * (nc * tc)) by (nonlinear_arith)
        requires e == nn * vc - d * nc;
}

proof fn lemma_sum_scaled(k: int, a: int, b: int, c: int)
    ensures
        k * a + k * b + k * c == k * (a + b + c),
{
    assert(k * a + k * b + k * c == k * (a + b + c)) by (nonlinear_arith);
}

} // verus!
