//! Collide-and-slide resolution of contact manifolds for kinematic bodies.
//!
//! Each manifold's normal is turned according to the side of the pair the
//! body is on, so that it points out of the surface toward the body.
//! Overlapping contact points push the body out along it. The velocity is then corrected:
//! against a penetrating climbable slope the vertical speed is raised to ride
//! along the surface, against a penetrating wall the component into the wall
//! is removed, and against a speculative (not yet touching) contact an impulse
//! removes the part of the approach that would end inside the surface within
//! the step.
use vstd::prelude::*;
use crate::fixed::{
    Vector3, UNIT, MICROS_PER_SECOND, COORD_LIMIT, dot, len2, bounded, unit_bounded, in_range,
    trunc_div, ceil_div, saturate, vec_neg, div_trunc, div_floor, div_ceil, saturate_coord,
    dot_wide, len2_wide, lemma_mul_bounded,
};
use crate::slope::{MaxSlopeAngle, climbable, is_climbable};

verus! {

/// Largest magnitude of a penetration depth, in millimetres.
pub const PENETRATION_LIMIT: i64 = 1_000_000_000;

/// Longest physics step, in microseconds.
pub const STEP_LIMIT: i64 = 1_000_000_000;

/// The contact points that the narrow phase found between two colliders for
/// one step, sharing one normal (a unit vector in thousandths). Seen from the
/// second collider, the normal points out of the first one toward it. Each point carries its penetration
/// depth in millimetres: positive where the shapes overlap, zero or negative
/// for a speculative point that is still apart.
#[derive(Clone, Debug)]
pub struct ContactManifold {
    pub normal: Vector3,
    pub penetrations: Vec<i64>,
}

/// The manifolds between a body and one other collider.
#[derive(Clone, Debug)]
pub struct ContactPair {
    /// The body is the first collider of the pair.
    pub body_is_first: bool,
    /// The other collider belongs to a dynamic body.
    pub other_is_dynamic: bool,
    pub manifolds: Vec<ContactManifold>,
}

/// Position and velocity of a body, as contact resolution reads and writes them.
#[derive(Clone, Copy, Debug, PartialEq, Eq, Structural)]
pub struct KinematicState {
    pub position: Vector3,
    pub velocity: Vector3,
}

impl ContactManifold {
    pub open spec fn wf(&self) -> bool {
        &&& unit_bounded(self.normal)
        &&& forall|i: int|
            0 <= i < self.penetrations@.len() ==> -PENETRATION_LIMIT <= #[trigger] self.penetrations@[i]
                <= PENETRATION_LIMIT
    }
}

impl ContactPair {
    pub open spec fn wf(&self) -> bool {
        forall|i: int| 0 <= i < self.manifolds@.len() ==> (#[trigger] self.manifolds@[i]).wf()
    }
}

impl KinematicState {
    pub open spec fn wf(&self) -> bool {
        bounded(self.position) && bounded(self.velocity)
    }
}

pub open spec fn max_int(a: int, b: int) -> int {
    if a >= b {
        a
    } else {
        b
    }
}

pub open spec fn min_int(a: int, b: int) -> int {
    if a <= b {
        a
    } else {
        b
    }
}

/// The deepest penetration among the points (`i64::MIN` for none).
pub open spec fn deepest(ps: Seq<i64>) -> int
    decreases ps.len(),
{
    if ps.len() == 0 {
        i64::MIN as int
    } else {
        max_int(deepest(ps.drop_last()), ps.last() as int)
    }
}

/// The manifold's normal, turned so that it points out of the other collider
/// toward the body: the direction in which the body is pushed out.
pub open spec fn oriented_normal(m: ContactManifold, body_is_first: bool) -> Vector3 {
    if body_is_first {
        vec_neg(m.normal)
    } else {
        m.normal
    }
}

/// `pos` moved out along `n` by one point's penetration, where it overlaps.
pub open spec fn push_point(pos: Vector3, n: Vector3, p: int) -> Vector3 {
    if p > 0 {
        Vector3 {
            x: saturate(pos.x + trunc_div(n.x * p, UNIT as int)) as i64,
            y: saturate(pos.y + trunc_div(n.y * p, UNIT as int)) as i64,
            z: saturate(pos.z + trunc_div(n.z * p, UNIT as int)) as i64,
        }
    } else {
        pos
    }
}

/// `pos` moved out along `n` by every overlapping point, in order.
pub open spec fn pushed(pos: Vector3, n: Vector3, ps: Seq<i64>) -> Vector3
    decreases ps.len(),
{
    if ps.len() == 0 {
        pos
    } else {
        push_point(pushed(pos, n, ps.drop_last()), n, ps.last() as int)
    }
}

/// The least vertical speed that does not sink into a climbable surface of
/// normal `n`: the horizontal speed along the slope's fall line times the
/// slope's tangent, `-(v_h . n_h) / n_y`, rounded up.
pub open spec fn slope_floor(v: Vector3, n: Vector3) -> int {
    ceil_div(-(v.x * n.x + v.z * n.z), n.y as int)
}

/// Velocity after riding a penetrating climbable surface.
pub open spec fn ride_slope(v: Vector3, n: Vector3) -> Vector3 {
    if v.y >= slope_floor(v, n) {
        v
    } else {
        Vector3 { y: saturate(slope_floor(v, n)) as i64, ..v }
    }
}

/// One component of the share of `v` along `n`, `d * c / nn`, rounded away
/// from the outside of the surface, so that what remains never points into it.
pub open spec fn into_surface(d: int, c: int, nn: int) -> int {
    if c >= 0 {
        (d * c) / nn
    } else {
        ceil_div(d * c, nn)
    }
}

/// Velocity after sliding along a penetrating wall, before it is held to
/// the coordinate range: `v` less its component into the wall.
pub open spec fn slide_raw_x(v: Vector3, n: Vector3) -> int {
    v.x - into_surface(dot(v, n), n.x as int, len2(n))
}

pub open spec fn slide_raw_y(v: Vector3, n: Vector3) -> int {
    v.y - into_surface(dot(v, n), n.y as int, len2(n))
}

pub open spec fn slide_raw_z(v: Vector3, n: Vector3) -> int {
    v.z - into_surface(dot(v, n), n.z as int, len2(n))
}

/// The wall rejection applies: the body moves into the wall (or along it)
/// and the normal is not degenerate.
pub open spec fn slides(v: Vector3, n: Vector3) -> bool {
    dot(v, n) <= 0 && len2(n) > 0
}

/// Velocity after a penetrating wall contact.
pub open spec fn slide_along(v: Vector3, n: Vector3) -> Vector3 {
    if slides(v, n) {
        Vector3 {
            x: saturate(slide_raw_x(v, n)) as i64,
            y: saturate(slide_raw_y(v, n)) as i64,
            z: saturate(slide_raw_z(v, n)) as i64,
        }
    } else {
        v
    }
}

/// The speculative impulse's magnitude, in thousandths of mm/s: the closing
/// speed along the normal less the speed that would just close the gap
/// within the step (`deep <= 0` is the gap, negated).
pub open spec fn impulse_magnitude(v: Vector3, n: Vector3, deep: int, dt: int) -> int {
    dot(v, n) + (-deep * (UNIT * MICROS_PER_SECOND)) / dt
}

/// One component of the speculative impulse, in mm/s.
pub open spec fn impulse_part(mag: int, c: int) -> int {
    trunc_div(mag * c, UNIT * UNIT)
}

/// Velocity after a speculative contact.
pub open spec fn speculative_response(
    v: Vector3,
    n: Vector3,
    deep: int,
    dt: int,
    climb: bool,
) -> Vector3 {
    if dot(v, n) > 0 {
        v
    } else {
        let mag = impulse_magnitude(v, n, deep, dt);
        if climb {
            Vector3 {
                y: saturate(v.y - min_int(impulse_part(mag, n.y as int), 0)) as i64,
                ..v
            }
        } else {
            Vector3 {
                x: saturate(v.x - impulse_part(mag, n.x as int)) as i64,
                y: saturate(v.y - max_int(impulse_part(mag, n.y as int), 0)) as i64,
                z: saturate(v.z - impulse_part(mag, n.z as int)) as i64,
            }
        }
    }
}

/// The velocity that one manifold leaves.
pub open spec fn resolve_velocity(
    v: Vector3,
    m: ContactManifold,
    body_is_first: bool,
    other_is_dynamic: bool,
    limit: Option<MaxSlopeAngle>,
    dt: int,
) -> Vector3 {
    let n = oriented_normal(m, body_is_first);
    let ps = m.penetrations@;
    let deep = deepest(ps);
    let climb = climbable(n, limit);
    if other_is_dynamic || ps.len() == 0 {
        v
    } else if deep > 0 {
        if climb {
            ride_slope(v, n)
        } else {
            slide_along(v, n)
        }
    } else {
        speculative_response(v, n, deep, dt, climb)
    }
}

/// The state that one manifold leaves.
pub open spec fn resolve_manifold_spec(
    s: KinematicState,
    m: ContactManifold,
    body_is_first: bool,
    other_is_dynamic: bool,
    limit: Option<MaxSlopeAngle>,
    dt: int,
) -> KinematicState {
    KinematicState {
        position: pushed(s.position, oriented_normal(m, body_is_first), m.penetrations@),
        velocity: resolve_velocity(s.velocity, m, body_is_first, other_is_dynamic, limit, dt),
    }
}


/// The deepest penetration among the points (`i64::MIN` for none).
pub fn deepest_penetration(ps: &Vec<i64>) -> (r: i64)
    ensures
        r as int == deepest(ps@),
{
    let mut best: i64 = i64::MIN;
    let mut i: usize = 0;
    while i < ps.len()
        invariant
            i <= ps@.len(),
            best as int == deepest(ps@.subrange(0, i as int)),
        decreases ps@.len() - i,
    {
        proof {
            assert(ps@.subrange(0, i as int + 1).drop_last() =~= ps@.subrange(0, i as int));
        }
        if ps[i] > best {
            best = ps[i];
        }
        i += 1;
    }
    proof {
        assert(ps@.subrange(0, ps@.len() as int) =~= ps@);
    }
    best
}

fn push_component(c: i64, nc: i64, p: i64) -> (r: i64)
    requires
        in_range(c as int),
        -UNIT <= nc <= UNIT,
        0 < p <= PENETRATION_LIMIT,
    ensures
        r as int == saturate(c + trunc_div(nc * p, UNIT as int)),
{
    proof {
        lemma_mul_bounded(nc as int, p as int, UNIT as int, PENETRATION_LIMIT as int);
    }
    let q = div_trunc((nc as i128) * (p as i128), UNIT as i128);
    proof {
        assert(-PENETRATION_LIMIT <= q <= PENETRATION_LIMIT) by (nonlinear_arith)
            requires
                q == trunc_div(nc * p, UNIT as int),
                -(UNIT * PENETRATION_LIMIT) <= nc * p <= UNIT * PENETRATION_LIMIT,
        {
            let a = nc * p;
            if a >= 0 {
                vstd::arithmetic::div_mod::lemma_div_is_ordered(a, UNIT * PENETRATION_LIMIT, UNIT as int);
                vstd::arithmetic::div_mod::lemma_div_pos_is_pos(a, UNIT as int);
                vstd::arithmetic::div_mod::lemma_div_multiples_vanish(PENETRATION_LIMIT as int, UNIT as int);
            } else {
                vstd::arithmetic::div_mod::lemma_div_is_ordered(-a, UNIT * PENETRATION_LIMIT, UNIT as int);
                vstd::arithmetic::div_mod::lemma_div_pos_is_pos(-a, UNIT as int);
                vstd::arithmetic::div_mod::lemma_div_multiples_vanish(PENETRATION_LIMIT as int, UNIT as int);
            }
        }
    }
    saturate_coord(c as i128 + q)
}

/// Moves `pos` out along `n` by every overlapping point's depth, in order.
pub fn push_out(pos: &mut Vector3, n: &Vector3, ps: &Vec<i64>)
    requires
        bounded(*old(pos)),
        unit_bounded(*n),
        forall|i: int| 0 <= i < ps@.len() ==> -PENETRATION_LIMIT <= #[trigger] ps@[i] <= PENETRATION_LIMIT,
    ensures
        *final(pos) == pushed(*old(pos), *n, ps@),
        bounded(*final(pos)),
{
    let ghost start = *pos;
    let mut i: usize = 0;
    while i < ps.len()
        invariant
            i <= ps@.len(),
            unit_bounded(*n),
            forall|k: int| 0 <= k < ps@.len() ==> -PENETRATION_LIMIT <= #[trigger] ps@[k] <= PENETRATION_LIMIT,
            *pos == pushed(start, *n, ps@.subrange(0, i as int)),
            bounded(*pos),
        decreases ps@.len() - i,
    {
        proof {
            assert(ps@.subrange(0, i as int + 1).drop_last() =~= ps@.subrange(0, i as int));
        }
        let p = ps[i];
        if p > 0 {
            let x = push_component(pos.x, n.x, p);
            let y = push_component(pos.y, n.y, p);
            let z = push_component(pos.z, n.z, p);
            *pos = Vector3 { x, y, z };
        }
        i += 1;
    }
    proof {
        assert(ps@.subrange(0, ps@.len() as int) =~= ps@);
    }
}


/// Velocity after riding a penetrating climbable surface of normal `n`.
pub fn ride_slope_velocity(v: &Vector3, n: &Vector3) -> (r: Vector3)
    requires
        bounded(*v),
        unit_bounded(*n),
        n.y > 0,
    ensures
        r == ride_slope(*v, *n),
        bounded(r),
{
    proof {
        lemma_mul_bounded(v.x as int, n.x as int, COORD_LIMIT as int, UNIT as int);
        lemma_mul_bounded(v.z as int, n.z as int, COORD_LIMIT as int, UNIT as int);
    }
    let h = -((v.x as i128) * (n.x as i128) + (v.z as i128) * (n.z as i128));
    let f = div_ceil(h, n.y as i128);
    if (v.y as i128) >= f {
        *v
    } else {
        Vector3 { x: v.x, y: saturate_coord(f), z: v.z }
    }
}

fn into_surface_exec(d: i128, c: i64, nn: i128) -> (r: i128)
    requires
        -3 * COORD_LIMIT * UNIT <= d <= 3 * COORD_LIMIT * UNIT,
        -UNIT <= c <= UNIT,
        nn >= 1,
    ensures
        r as int == into_surface(d as int, c as int, nn as int),
        -crate::fixed::DIVIDEND_LIMIT <= r <= crate::fixed::DIVIDEND_LIMIT,
{
    proof {
        lemma_mul_bounded(d as int, c as int, 3 * COORD_LIMIT * UNIT, UNIT as int);
    }
    let a = d * (c as i128);
    if c >= 0 {
        div_floor(a, nn)
    } else {
        div_ceil(a, nn)
    }
}

/// Velocity after a penetrating wall contact of normal `n`.
pub fn slide_along_velocity(v: &Vector3, n: &Vector3) -> (r: Vector3)
    requires
        bounded(*v),
        unit_bounded(*n),
    ensures
        r == slide_along(*v, *n),
        bounded(r),
{
    let d = dot_wide(v, n);
    let nn = len2_wide(n);
    if d > 0 || nn == 0 {
        return *v;
    }
    let qx = into_surface_exec(d, n.x, nn);
    let qy = into_surface_exec(d, n.y, nn);
    let qz = into_surface_exec(d, n.z, nn);
    Vector3 {
        x: saturate_coord(v.x as i128 - qx),
        y: saturate_coord(v.y as i128 - qy),
        z: saturate_coord(v.z as i128 - qz),
    }
}

fn impulse_part_exec(mag: i128, c: i64) -> (r: i128)
    requires
        -2 * crate::fixed::MAGNITUDE_LIMIT <= mag <= 2 * crate::fixed::MAGNITUDE_LIMIT,
        -UNIT <= c <= UNIT,
    ensures
        r as int == impulse_part(mag as int, c as int),
        -2 * crate::fixed::MAGNITUDE_LIMIT * UNIT <= r <= 2 * crate::fixed::MAGNITUDE_LIMIT * UNIT,
{
    proof {
        lemma_mul_bounded(mag as int, c as int, 2 * crate::fixed::MAGNITUDE_LIMIT, UNIT as int);
        crate::fixed::lemma_trunc_div_le(mag * c, UNIT * UNIT);
    }
    div_trunc(mag * (c as i128), 1_000_000)
}

/// Velocity after a speculative contact of normal `n` whose deepest point is
/// `deep <= 0`, over a step of `dt` microseconds.
pub fn speculative_velocity(v: &Vector3, n: &Vector3, deep: i64, dt: i64, climb: bool) -> (r: Vector3)
    requires
        bounded(*v),
        unit_bounded(*n),
        -PENETRATION_LIMIT <= deep <= 0,
        1 <= dt <= STEP_LIMIT,
    ensures
        r == speculative_response(*v, *n, deep as int, dt as int, climb),
        bounded(r),
{
    let d = dot_wide(v, n);
    if d > 0 {
        return *v;
    }
    proof {
        crate::fixed::lemma_div_le(-deep * (UNIT * MICROS_PER_SECOND), dt as int);
    }
    let gap = div_floor(-(deep as i128) * 1_000_000_000, dt as i128);
    let mag = d + gap;
    if climb {
        let iy = impulse_part_exec(mag, n.y);
        let low = if iy <= 0 { iy } else { 0 };
        Vector3 { x: v.x, y: saturate_coord(v.y as i128 - low), z: v.z }
    } else {
        let ix = impulse_part_exec(mag, n.x);
        let iy0 = impulse_part_exec(mag, n.y);
        let iy = if iy0 >= 0 { iy0 } else { 0 };
        let iz = impulse_part_exec(mag, n.z);
        Vector3 {
            x: saturate_coord(v.x as i128 - ix),
            y: saturate_coord(v.y as i128 - iy),
            z: saturate_coord(v.z as i128 - iz),
        }
    }
}


/// Resolves one manifold between a kinematic body and another collider:
/// pushes the body out of every overlapping point, then corrects its
/// velocity, unless the other body is dynamic or the manifold has no points.
pub fn resolve_manifold(
    state: &mut KinematicState,
    m: &ContactManifold,
    body_is_first: bool,
    other_is_dynamic: bool,
    limit: Option<MaxSlopeAngle>,
    dt: i64,
)
    requires
        old(state).wf(),
        m.wf(),
        limit matches Some(l) ==> l.wf(),
        1 <= dt <= STEP_LIMIT,
    ensures
        *final(state) == resolve_manifold_spec(
            *old(state),
            *m,
            body_is_first,
            other_is_dynamic,
            limit,
            dt as int,
        ),
        final(state).wf(),
{
    let n = if body_is_first {
        m.normal.neg()
    } else {
        m.normal
    };
    push_out(&mut state.position, &n, &m.penetrations);
    let deep = deepest_penetration(&m.penetrations);
    if other_is_dynamic || m.penetrations.len() == 0 {
        return;
    }
    let climb = is_climbable(&n, limit);
    let v = state.velocity;
    if deep > 0 {
        if climb {
            state.velocity = ride_slope_velocity(&v, &n);
        } else {
            state.velocity = slide_along_velocity(&v, &n);
        }
    } else {
        proof {
            lemma_deepest_bounded(m.penetrations@);
        }
        state.velocity = speculative_velocity(&v, &n, deep, dt, climb);
    }
}

/// The deepest point of a non-empty manifold is one of its points.
pub proof fn lemma_deepest_bounded(ps: Seq<i64>)
    requires
        ps.len() > 0,
        forall|i: int| 0 <= i < ps.len() ==> -PENETRATION_LIMIT <= #[trigger] ps[i] <= PENETRATION_LIMIT,
    ensures
        -PENETRATION_LIMIT <= deepest(ps) <= PENETRATION_LIMIT,
    decreases ps.len(),
{
    let init = ps.drop_last();
    assert(ps.last() == ps[ps.len() - 1]);
    if ps.len() > 1 {
        assert forall|i: int| 0 <= i < init.len() implies -PENETRATION_LIMIT <= #[trigger] init[i]
            <= PENETRATION_LIMIT by {
            assert(init[i] == ps[i]);
        }
        lemma_deepest_bounded(init);
    } else {
        assert(init.len() == 0);
        assert(deepest(init) == i64::MIN as int);
    }
}

/// The state that the manifolds of one pair leave, in order.
pub open spec fn resolve_pair_spec(
    s: KinematicState,
    ms: Seq<ContactManifold>,
    body_is_first: bool,
    other_is_dynamic: bool,
    limit: Option<MaxSlopeAngle>,
    dt: int,
) -> KinematicState
    decreases ms.len(),
{
    if ms.len() == 0 {
        s
    } else {
        resolve_manifold_spec(
            resolve_pair_spec(s, ms.drop_last(), body_is_first, other_is_dynamic, limit, dt),
            ms.last(),
            body_is_first,
            other_is_dynamic,
            limit,
            dt,
        )
    }
}

/// The state that all pairs leave, in order.
pub open spec fn resolve_contacts_spec(
    s: KinematicState,
    pairs: Seq<ContactPair>,
    limit: Option<MaxSlopeAngle>,
    dt: int,
) -> KinematicState
    decreases pairs.len(),
{
    if pairs.len() == 0 {
        s
    } else {
        let p = pairs.last();
        resolve_pair_spec(
            resolve_contacts_spec(s, pairs.drop_last(), limit, dt),
            p.manifolds@,
            p.body_is_first,
            p.other_is_dynamic,
            limit,
            dt,
        )
    }
}

/// Resolves every manifold of one pair, in order.
pub fn resolve_pair(
    state: &mut KinematicState,
    pair: &ContactPair,
    limit: Option<MaxSlopeAngle>,
    dt: i64,
)
    requires
        old(state).wf(),
        pair.wf(),
        limit matches Some(l) ==> l.wf(),
        1 <= dt <= STEP_LIMIT,
    ensures
        *final(state) == resolve_pair_spec(
            *old(state),
            pair.manifolds@,
            pair.body_is_first,
            pair.other_is_dynamic,
            limit,
            dt as int,
        ),
        final(state).wf(),
{
    let ghost start = *state;
    let mut i: usize = 0;
    while i < pair.manifolds.len()
        invariant
            i <= pair.manifolds@.len(),
            pair.wf(),
            limit matches Some(l) ==> l.wf(),
            1 <= dt <= STEP_LIMIT,
            state.wf(),
            *state == resolve_pair_spec(
                start,
                pair.manifolds@.subrange(0, i as int),
                pair.body_is_first,
                pair.other_is_dynamic,
                limit,
                dt as int,
            ),
        decreases pair.manifolds@.len() - i,
    {
        proof {
            assert(pair.manifolds@.subrange(0, i as int + 1).drop_last() =~= pair.manifolds@.subrange(
                0,
                i as int,
            ));
            assert(pair.manifolds@[i as int].wf());
        }
        resolve_manifold(
            state,
            &pair.manifolds[i],
            pair.body_is_first,
            pair.other_is_dynamic,
            limit,
            dt,
        );
        i += 1;
    }
    proof {
        assert(pair.manifolds@.subrange(0, pair.manifolds@.len() as int) =~= pair.manifolds@);
    }
}

/// Resolves every contact of a body for one physics step. Only a kinematic
/// body is resolved here; any other body is left to the physics engine.
pub fn resolve_contacts(
    state: &mut KinematicState,
    is_kinematic: bool,
    pairs: &Vec<ContactPair>,
    limit: Option<MaxSlopeAngle>,
    dt: i64,
)
    requires
        old(state).wf(),
        forall|i: int| 0 <= i < pairs@.len() ==> (#[trigger] pairs@[i]).wf(),
        limit matches Some(l) ==> l.wf(),
        1 <= dt <= STEP_LIMIT,
    ensures
        is_kinematic ==> *final(state) == resolve_contacts_spec(*old(state), pairs@, limit, dt as int),
        !is_kinematic ==> *final(state) == *old(state),
        final(state).wf(),
{
    if !is_kinematic {
        return;
    }
    let ghost start = *state;
    let mut i: usize = 0;
    while i < pairs.len()
        invariant
            i <= pairs@.len(),
            forall|k: int| 0 <= k < pairs@.len() ==> (#[trigger] pairs@[k]).wf(),
            limit matches Some(l) ==> l.wf(),
            1 <= dt <= STEP_LIMIT,
            state.wf(),
            *state == resolve_contacts_spec(start, pairs@.subrange(0, i as int), limit, dt as int),
        decreases pairs@.len() - i,
    {
        proof {
            assert(pairs@.subrange(0, i as int + 1).drop_last() =~= pairs@.subrange(0, i as int));
            assert(pairs@[i as int].wf());
        }
        resolve_pair(state, &pairs[i], limit, dt);
        i += 1;
    }
    proof {
        assert(pairs@.subrange(0, pairs@.len() as int) =~= pairs@);
    }
}

} // verus!
