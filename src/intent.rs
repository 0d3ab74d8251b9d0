//! Turning movement intents into velocity and orientation changes.
//!
//! Intents are applied one at a time, in the order they arrived, each at
//! once: two moves in one frame add up. A look turns the body's yaw; the
//! caller then refreshes the body's heading from the new yaw before the next
//! intent.
use vstd::prelude::*;
use crate::fixed::{
    Planar, UNIT, MICROS_PER_SECOND, COORD_LIMIT, trunc_div, saturate, div_trunc, div_floor,
    saturate_coord, lemma_mul_bounded, lemma_trunc_div_le,
};
use crate::body::{LocomotionBody, Heading, CameraRotation, HALF_TURN, FULL_TURN, ACCELERATION_LIMIT};
use crate::contact::{STEP_LIMIT, KinematicState};
use crate::isqrt::{planar_unit, planar_unit_exec};

verus! {

/// Time before another dash is accepted, in microseconds.
pub const DASH_COOLDOWN: i64 = 1_500_000;

/// Largest magnitude of a planar input component, in thousandths.
pub const INPUT_LIMIT: i64 = 1_000_000;

/// Largest speed multiplier of a move, in thousandths.
pub const MULTIPLIER_LIMIT: i64 = 1_000_000;

/// Largest window side, in pixels.
pub const WINDOW_LIMIT: i64 = 100_000;

/// The camera pitch is held within this many microradians of level.
pub const PITCH_LIMIT: i64 = 1_540_000;

/// Microradians turned per thousandth of a pixel of look input, per pixel
/// of window size, times `LOOK_DIVISOR`: a sensitivity of 1.2 degrees per
/// 10 000 pixel-pixels, at 17 453.293 microradians per degree.
pub const LOOK_GAIN: i128 = 209_439_516;

pub const LOOK_DIVISOR: i128 = 100_000_000_000;

/// A movement intent of one frame. Planar values are in thousandths.
#[derive(Clone, Copy, Debug, PartialEq, Eq, Structural)]
pub enum MovementAction {
    /// Accelerate along a direction (at most unit length) with a speed
    /// multiplier.
    Move(Planar, i64),
    /// Turn by a pointer delta, in thousandths of a pixel.
    Look(Planar),
    /// Burst along a direction, with an upward boost.
    Dash(Planar),
    Jump,
}

pub open spec fn planar_ok(d: Planar) -> bool {
    -INPUT_LIMIT <= d.x <= INPUT_LIMIT && -INPUT_LIMIT <= d.y <= INPUT_LIMIT
}

impl MovementAction {
    pub open spec fn wf(&self) -> bool {
        match *self {
            MovementAction::Move(d, m) => planar_ok(d) && 0 <= m <= MULTIPLIER_LIMIT,
            MovementAction::Look(d) => planar_ok(d),
            MovementAction::Dash(d) => planar_ok(d),
            MovementAction::Jump => true,
        }
    }
}

impl CameraRotation {
    pub open spec fn wf(&self) -> bool {
        -PITCH_LIMIT <= self.0 <= PITCH_LIMIT
    }
}

/// The body's horizontal facing scaled to unit length, as forward and right
/// are normalised before use; a zero heading gives zero.
pub open spec fn facing(h: Heading) -> Heading {
    Heading { x: planar_unit(h.x as int, h.z as int).0 as i64, z: planar_unit(h.x as int, h.z as int).1 as i64 }
}

/// World x of an input direction: forward (-Z of the body, flattened) times
/// `d.y` plus right times `d.x`, in millionths.
pub open spec fn travel_x(h: Heading, d: Planar) -> int {
    -(h.x * d.y) + h.z * d.x
}

/// World z of an input direction, in millionths.
pub open spec fn travel_z(h: Heading, d: Planar) -> int {
    -(h.z * d.y) - h.x * d.x
}

/// Velocity change of a move along travel `t` (millionths), in mm/s.
pub open spec fn move_delta(t: int, accel: int, mult: int, dt: int) -> int {
    trunc_div(t * accel * mult * dt, UNIT * UNIT * UNIT * MICROS_PER_SECOND)
}

/// Velocity change of a dash along travel `t` (millionths), in mm/s: a
/// tenth of the acceleration per unit of direction.
pub open spec fn dash_delta(t: int, accel: int) -> int {
    trunc_div(t * accel, 10 * UNIT * UNIT)
}

/// Angle turned by a look input `d` in a window whose larger side is `ws`.
pub open spec fn look_angle(d: int, ws: int) -> int {
    trunc_div(d * ws * LOOK_GAIN, LOOK_DIVISOR as int)
}

/// `a` brought into `[-HALF_TURN, HALF_TURN)` by whole turns.
pub open spec fn wrap_angle(a: int) -> int {
    (a + HALF_TURN) % (FULL_TURN as int) - HALF_TURN
}

pub open spec fn clamp_pitch(p: int) -> int {
    if p > PITCH_LIMIT {
        PITCH_LIMIT as int
    } else if p < -PITCH_LIMIT {
        -PITCH_LIMIT
    } else {
        p
    }
}

pub open spec fn larger_side(width: int, height: int) -> int {
    if height >= width {
        height
    } else {
        width
    }
}

/// The body and camera after one intent.
pub open spec fn apply_action_spec(
    b: LocomotionBody,
    cam: CameraRotation,
    a: MovementAction,
    ws: int,
    dt: int,
) -> (LocomotionBody, CameraRotation) {
    let v = b.state.velocity;
    let accel = b.movement.acceleration.0 as int;
    match a {
        MovementAction::Move(d, mult) => {
            let nv = crate::fixed::Vector3 {
                x: saturate(v.x + move_delta(travel_x(facing(b.heading), d), accel, mult as int, dt)) as i64,
                z: saturate(v.z + move_delta(travel_z(facing(b.heading), d), accel, mult as int, dt)) as i64,
                ..v
            };
            (LocomotionBody { state: crate::contact::KinematicState { velocity: nv, ..b.state }, ..b }, cam)
        },
        MovementAction::Dash(d) => {
            if b.dash_cooldown > 0 {
                (b, cam)
            } else {
                let nv = crate::fixed::Vector3 {
                    x: saturate(v.x + dash_delta(travel_x(facing(b.heading), d), accel)) as i64,
                    y: accel as i64,
                    z: saturate(v.z + dash_delta(travel_z(facing(b.heading), d), accel)) as i64,
                };
                (
                    LocomotionBody {
                        state: crate::contact::KinematicState { velocity: nv, ..b.state },
                        dash_cooldown: DASH_COOLDOWN,
                        ..b
                    },
                    cam,
                )
            }
        },
        MovementAction::Jump => {
            if b.grounded {
                let nv = crate::fixed::Vector3 { y: b.movement.jump_impulse.0, ..v };
                (LocomotionBody { state: crate::contact::KinematicState { velocity: nv, ..b.state }, ..b }, cam)
            } else {
                (b, cam)
            }
        },
        MovementAction::Look(d) => {
            (
                LocomotionBody { yaw: wrap_angle(b.yaw - look_angle(d.x as int, ws)) as i64, ..b },
                CameraRotation(clamp_pitch(cam.0 - look_angle(d.y as int, ws)) as i64),
            )
        },
    }
}


fn unit_heading(h: &Heading) -> (r: Heading)
    requires
        -UNIT <= h.x <= UNIT,
        -UNIT <= h.z <= UNIT,
    ensures
        r == facing(*h),
        -UNIT <= r.x <= UNIT,
        -UNIT <= r.z <= UNIT,
{
    let (x, z) = planar_unit_exec(h.x, h.z);
    Heading { x, z }
}

fn travel(h: &Heading, d: &Planar) -> (r: (i128, i128))
    requires
        -UNIT <= h.x <= UNIT,
        -UNIT <= h.z <= UNIT,
        planar_ok(*d),
    ensures
        r.0 as int == travel_x(*h, *d),
        r.1 as int == travel_z(*h, *d),
        -2 * UNIT * INPUT_LIMIT <= r.0 <= 2 * UNIT * INPUT_LIMIT,
        -2 * UNIT * INPUT_LIMIT <= r.1 <= 2 * UNIT * INPUT_LIMIT,
{
    proof {
        lemma_mul_bounded(h.x as int, d.y as int, UNIT as int, INPUT_LIMIT as int);
        lemma_mul_bounded(h.z as int, d.x as int, UNIT as int, INPUT_LIMIT as int);
        lemma_mul_bounded(h.z as int, d.y as int, UNIT as int, INPUT_LIMIT as int);
        lemma_mul_bounded(h.x as int, d.x as int, UNIT as int, INPUT_LIMIT as int);
    }
    let hx = h.x as i128;
    let hz = h.z as i128;
    let dx = d.x as i128;
    let dy = d.y as i128;
    (-(hx * dy) + hz * dx, -(hz * dy) - hx * dx)
}

fn move_delta_exec(t: i128, accel: i64, mult: i64, dt: i64) -> (r: i128)
    requires
        -2 * UNIT * INPUT_LIMIT <= t <= 2 * UNIT * INPUT_LIMIT,
        0 <= accel <= ACCELERATION_LIMIT,
        0 <= mult <= MULTIPLIER_LIMIT,
        1 <= dt <= STEP_LIMIT,
    ensures
        r as int == move_delta(t as int, accel as int, mult as int, dt as int),
        -2 * UNIT * INPUT_LIMIT * ACCELERATION_LIMIT * MULTIPLIER_LIMIT * STEP_LIMIT <= r <= 2 * UNIT
            * INPUT_LIMIT * ACCELERATION_LIMIT * MULTIPLIER_LIMIT * STEP_LIMIT,
{
    let ghost b1: int = 2 * UNIT * INPUT_LIMIT;
    let ghost b2: int = b1 * ACCELERATION_LIMIT;
    let ghost b3: int = b2 * MULTIPLIER_LIMIT;
    proof {
        lemma_mul_bounded(t as int, accel as int, b1, ACCELERATION_LIMIT as int);
    }
    let with_accel = t * (accel as i128);
    proof {
        lemma_mul_bounded(with_accel as int, mult as int, b2, MULTIPLIER_LIMIT as int);
    }
    let with_mult = with_accel * (mult as i128);
    proof {
        lemma_mul_bounded(with_mult as int, dt as int, b3, STEP_LIMIT as int);
    }
    let over_step = with_mult * (dt as i128);
    proof {
        lemma_trunc_div_le(over_step as int, UNIT * UNIT * UNIT * MICROS_PER_SECOND);
    }
    div_trunc(over_step, 1_000_000_000_000_000)
}

fn dash_delta_exec(t: i128, accel: i64) -> (r: i128)
    requires
        -2 * UNIT * INPUT_LIMIT <= t <= 2 * UNIT * INPUT_LIMIT,
        0 <= accel <= ACCELERATION_LIMIT,
    ensures
        r as int == dash_delta(t as int, accel as int),
        -2 * UNIT * INPUT_LIMIT * ACCELERATION_LIMIT <= r <= 2 * UNIT * INPUT_LIMIT * ACCELERATION_LIMIT,
{
    proof {
        lemma_mul_bounded(t as int, accel as int, 2 * UNIT * INPUT_LIMIT, ACCELERATION_LIMIT as int);
        lemma_trunc_div_le(t * accel, 10 * UNIT * UNIT);
    }
    div_trunc(t * (accel as i128), 10_000_000)
}

fn look_angle_exec(d: i64, ws: i64) -> (r: i128)
    requires
        -INPUT_LIMIT <= d <= INPUT_LIMIT,
        1 <= ws <= WINDOW_LIMIT,
    ensures
        r as int == look_angle(d as int, ws as int),
        -LOOK_GAIN <= r <= LOOK_GAIN,
{
    proof {
        lemma_mul_bounded(d as int, ws as int, INPUT_LIMIT as int, WINDOW_LIMIT as int);
        lemma_mul_bounded(d * ws, LOOK_GAIN as int, INPUT_LIMIT * WINDOW_LIMIT, LOOK_GAIN as int);
        let x = d * ws * LOOK_GAIN;
        let b = INPUT_LIMIT * WINDOW_LIMIT * LOOK_GAIN;
        assert(b == LOOK_DIVISOR * LOOK_GAIN);
        vstd::arithmetic::div_mod::lemma_div_multiples_vanish(LOOK_GAIN as int, LOOK_DIVISOR as int);
        if x >= 0 {
            vstd::arithmetic::div_mod::lemma_div_is_ordered(x, b, LOOK_DIVISOR as int);
            vstd::arithmetic::div_mod::lemma_div_pos_is_pos(x, LOOK_DIVISOR as int);
        } else {
            vstd::arithmetic::div_mod::lemma_div_is_ordered(-x, b, LOOK_DIVISOR as int);
            vstd::arithmetic::div_mod::lemma_div_pos_is_pos(-x, LOOK_DIVISOR as int);
        }
    }
    div_trunc((d as i128) * (ws as i128) * LOOK_GAIN, LOOK_DIVISOR)
}

/// `a` brought into `[-HALF_TURN, HALF_TURN)` by whole turns.
pub fn wrap_angle_exec(a: i128) -> (r: i64)
    requires
        -COORD_LIMIT <= a <= COORD_LIMIT,
    ensures
        r as int == wrap_angle(a as int),
        -HALF_TURN <= r < HALF_TURN,
{
    let s = a + HALF_TURN as i128;
    let q = div_floor(s, FULL_TURN as i128);
    proof {
        vstd::arithmetic::div_mod::lemma_fundamental_div_mod(s as int, FULL_TURN as int);
        assert(s as int == FULL_TURN * q + (s as int) % (FULL_TURN as int));
        assert(q * FULL_TURN == FULL_TURN * q) by (nonlinear_arith);
    }
    let m = s - q * (FULL_TURN as i128);
    assert(m as int == (s as int) % (FULL_TURN as int));
    (m - HALF_TURN as i128) as i64
}

/// The camera pitch `p`, held within `PITCH_LIMIT`.
pub fn clamp_pitch_exec(p: i128) -> (r: i64)
    ensures
        r as int == clamp_pitch(p as int),
{
    if p > PITCH_LIMIT as i128 {
        PITCH_LIMIT
    } else if p < -(PITCH_LIMIT as i128) {
        -PITCH_LIMIT
    } else {
        p as i64
    }
}

/// Applies one movement intent to a body and its camera. `window_width` and
/// `window_height` are the view's size in pixels; `dt` is the frame's
/// length in microseconds.
pub fn apply_action(
    body: &mut LocomotionBody,
    camera: &mut CameraRotation,
    action: MovementAction,
    window_width: i64,
    window_height: i64,
    dt: i64,
)
    requires
        old(body).wf(),
        old(camera).wf(),
        action.wf(),
        1 <= window_width <= WINDOW_LIMIT,
        1 <= window_height <= WINDOW_LIMIT,
        1 <= dt <= STEP_LIMIT,
    ensures
        (*final(body), *final(camera)) == apply_action_spec(
            *old(body),
            *old(camera),
            action,
            larger_side(window_width as int, window_height as int),
            dt as int,
        ),
        final(body).wf(),
        final(camera).wf(),
{
    let accel = body.movement.acceleration.0;
    match action {
        MovementAction::Move(d, mult) => {
            let (tx, tz) = travel(&unit_heading(&body.heading), &d);
            let dx = move_delta_exec(tx, accel, mult, dt);
            let dz = move_delta_exec(tz, accel, mult, dt);
            let v = body.state.velocity;
            body.state.velocity.x = saturate_coord(v.x as i128 + dx);
            body.state.velocity.z = saturate_coord(v.z as i128 + dz);
        },
        MovementAction::Dash(d) => {
            if body.dash_cooldown > 0 {
                return;
            }
            let (tx, tz) = travel(&unit_heading(&body.heading), &d);
            let dx = dash_delta_exec(tx, accel);
            let dz = dash_delta_exec(tz, accel);
            let v = body.state.velocity;
            body.state.velocity.x = saturate_coord(v.x as i128 + dx);
            body.state.velocity.y = accel;
            body.state.velocity.z = saturate_coord(v.z as i128 + dz);
            body.dash_cooldown = DASH_COOLDOWN;
        },
        MovementAction::Jump => {
            if body.grounded {
                body.state.velocity.y = body.movement.jump_impulse.0;
            }
        },
        MovementAction::Look(d) => {
            let ws = if window_height >= window_width {
                window_height
            } else {
                window_width
            };
            let turn = look_angle_exec(d.x, ws);
            body.yaw = wrap_angle_exec(body.yaw as i128 - turn);
            let tilt = look_angle_exec(d.y, ws);
            camera.0 = clamp_pitch_exec(camera.0 as i128 - tilt);
        },
    }
}


/// The body after the per-frame damping of its horizontal velocity.
pub open spec fn damping_step(b: LocomotionBody) -> LocomotionBody {
    let v = b.state.velocity;
    let f = b.movement.damping.0 as int;
    LocomotionBody {
        state: crate::contact::KinematicState {
            velocity: crate::fixed::Vector3 {
                x: trunc_div(v.x * f, UNIT as int) as i64,
                z: trunc_div(v.z * f, UNIT as int) as i64,
                ..v
            },
            ..b.state
        },
        ..b
    }
}

fn damp_component(c: i64, f: i64) -> (r: i64)
    requires
        -COORD_LIMIT <= c <= COORD_LIMIT,
        0 < f < UNIT,
    ensures
        r as int == trunc_div(c * f, UNIT as int),
        -COORD_LIMIT <= r <= COORD_LIMIT,
{
    proof {
        lemma_mul_bounded(c as int, f as int, COORD_LIMIT as int, UNIT as int);
        lemma_trunc_div_le(c * f, UNIT as int);
        let a = c * f;
        let b = COORD_LIMIT * UNIT;
        vstd::arithmetic::div_mod::lemma_div_multiples_vanish(COORD_LIMIT as int, UNIT as int);
        if a >= 0 {
            vstd::arithmetic::div_mod::lemma_div_is_ordered(a, b, UNIT as int);
        } else {
            vstd::arithmetic::div_mod::lemma_div_is_ordered(-a, b, UNIT as int);
        }
    }
    div_trunc((c as i128) * (f as i128), UNIT as i128) as i64
}

/// Multiplies the horizontal velocity by the damping factor; the only
/// deceleration a body gets when no move is applied.
pub fn apply_movement_damping(body: &mut LocomotionBody)
    requires
        old(body).wf(),
    ensures
        *final(body) == damping_step(*old(body)),
        final(body).wf(),
{
    let f = body.movement.damping.0;
    let v = body.state.velocity;
    body.state.velocity.x = damp_component(v.x, f);
    body.state.velocity.z = damp_component(v.z, f);
}

/// A cooldown after `dt` microseconds: it counts down by `dt` past zero,
/// held only at the least value an `i64` holds.
pub open spec fn cooldown_after(c: int, dt: int) -> int {
    if c - dt >= i64::MIN {
        c - dt
    } else {
        i64::MIN as int
    }
}

/// A cooldown after `dt` microseconds (see `cooldown_after`).
pub fn count_down(c: i64, dt: i64) -> (r: i64)
    requires
        1 <= dt <= STEP_LIMIT,
    ensures
        r as int == cooldown_after(c as int, dt as int),
        r <= c,
{
    if c >= i64::MIN + dt {
        c - dt
    } else {
        i64::MIN
    }
}

/// Runs the dash cooldown down by the frame's length.
pub fn tick_cooldowns(body: &mut LocomotionBody, dt: i64)
    requires
        old(body).wf(),
        1 <= dt <= STEP_LIMIT,
    ensures
        *final(body) == (LocomotionBody {
            dash_cooldown: cooldown_after(old(body).dash_cooldown as int, dt as int) as i64,
            ..*old(body)
        }),
        final(body).wf(),
{
    body.dash_cooldown = count_down(body.dash_cooldown, dt);
}

/// The intent that a frame's directional input makes: a dash when one was
/// asked for and is allowed (its direction scaled by `dash_scale`), else a
/// move at `speed_multiplier`; nothing for a zero direction.
pub open spec fn input_intent_spec(
    direction: Planar,
    dash_pressed: bool,
    dash_ready: bool,
    dash_scale: int,
    speed_multiplier: i64,
) -> Option<MovementAction> {
    if direction.x == 0 && direction.y == 0 {
        None
    } else if dash_pressed && dash_ready {
        Some(
            MovementAction::Dash(
                Planar { x: (direction.x * dash_scale) as i64, y: (direction.y * dash_scale) as i64 },
            ),
        )
    } else {
        Some(MovementAction::Move(direction, speed_multiplier))
    }
}

/// The intent that a frame's directional input makes (see
/// `input_intent_spec`). `direction` is at most unit length.
pub fn input_intent(
    direction: Planar,
    dash_pressed: bool,
    dash_ready: bool,
    dash_scale: i64,
    speed_multiplier: i64,
) -> (r: Option<MovementAction>)
    requires
        -UNIT <= direction.x <= UNIT,
        -UNIT <= direction.y <= UNIT,
        0 <= dash_scale <= UNIT,
    ensures
        r == input_intent_spec(direction, dash_pressed, dash_ready, dash_scale as int, speed_multiplier),
{
    if direction.x == 0 && direction.y == 0 {
        return None;
    }
    if dash_pressed && dash_ready {
        proof {
            lemma_mul_bounded(direction.x as int, dash_scale as int, UNIT as int, UNIT as int);
            lemma_mul_bounded(direction.y as int, dash_scale as int, UNIT as int, UNIT as int);
        }
        Some(MovementAction::Dash(Planar { x: direction.x * dash_scale, y: direction.y * dash_scale }))
    } else {
        Some(MovementAction::Move(direction, speed_multiplier))
    }
}


/// The dash cooldown after a run of frames of the given lengths.
pub open spec fn cooldown_frames(c: int, dts: Seq<i64>) -> int
    decreases dts.len(),
{
    if dts.len() == 0 {
        c
    } else {
        cooldown_after(cooldown_frames(c, dts.drop_last()), dts.last() as int)
    }
}

/// A dash accepted from a ready body starts the cooldown; while frames
/// adding up to less than the cooldown have passed since, a second dash
/// changes neither the body (no dash velocity is applied) nor the camera,
/// whatever else happened to the body in between.
pub proof fn lemma_dash_cooldown(
    b: LocomotionBody,
    cam: CameraRotation,
    first: Planar,
    dts: Seq<i64>,
    later: LocomotionBody,
    later_cam: CameraRotation,
    second: Planar,
    ws: int,
    dt: int,
)
    requires
        b.dash_cooldown <= 0,
        forall|i: int| 0 <= i < dts.len() ==> #[trigger] dts[i] >= 1,
        crate::knockback::elapsed(dts) < DASH_COOLDOWN,
        later.dash_cooldown == cooldown_frames(DASH_COOLDOWN as int, dts),
    ensures
        apply_action_spec(b, cam, MovementAction::Dash(first), ws, dt).0.dash_cooldown == DASH_COOLDOWN,
        later.dash_cooldown > 0,
        apply_action_spec(later, later_cam, MovementAction::Dash(second), ws, dt) == (later, later_cam),
{
    lemma_cooldown_runs_down(dts);
}

/// Frames adding up to less than the cooldown leave exactly the rest of it.
proof fn lemma_cooldown_runs_down(dts: Seq<i64>)
    requires
        forall|i: int| 0 <= i < dts.len() ==> #[trigger] dts[i] >= 1,
        crate::knockback::elapsed(dts) < DASH_COOLDOWN,
    ensures
        cooldown_frames(DASH_COOLDOWN as int, dts) == DASH_COOLDOWN - crate::knockback::elapsed(dts),
    decreases dts.len(),
{
    if dts.len() > 0 {
        let init = dts.drop_last();
        assert forall|i: int| 0 <= i < init.len() implies #[trigger] init[i] >= 1 by {
            assert(init[i] == dts[i]);
        }
        assert(dts.last() == dts[dts.len() - 1]);
        lemma_cooldown_runs_down(init);
    }
}

/// A move acts along the body's facing scaled to unit length: the travel
/// vector's squared length is exactly `|facing|² * |d|²`, and for a non-zero
/// heading `|facing|²` is `UNIT²` up to rounding, so a move adds horizontal
/// speed `|d| * acceleration * multiplier * dt` (up to rounding) whatever
/// the heading's length. It leaves the vertical speed, the position and
/// everything but the horizontal velocity as they were.
pub proof fn lemma_move_speed(
    b: LocomotionBody,
    cam: CameraRotation,
    d: Planar,
    mult: i64,
    ws: int,
    dt: int,
)
    requires
        b.wf(),
        b.heading.x != 0 || b.heading.z != 0,
    ensures
        ({
            let f = facing(b.heading);
            let tx = travel_x(f, d);
            let tz = travel_z(f, d);
            let (nb, nc) = apply_action_spec(b, cam, MovementAction::Move(d, mult), ws, dt);
            &&& tx * tx + tz * tz == (f.x * f.x + f.z * f.z) * (d.x * d.x + d.y * d.y)
            &&& UNIT * UNIT - 4 * UNIT - 1 <= f.x * f.x + f.z * f.z <= UNIT * UNIT + 2 * UNIT
            &&& nb.state.velocity.y == b.state.velocity.y
            &&& nb.state.position == b.state.position
            &&& nc == cam
            &&& nb == (LocomotionBody { state: KinematicState { velocity: nb.state.velocity, ..b.state }, ..b })
        }),
{
    crate::isqrt::lemma_planar_unit_near_unit(b.heading.x as int, b.heading.z as int);
    let (ux, uz) = crate::isqrt::planar_unit(b.heading.x as int, b.heading.z as int);
    assert(-2000 <= ux <= 2000 && -2000 <= uz <= 2000) by (nonlinear_arith)
        requires ux * ux + uz * uz <= 1_002_000;
    let f = facing(b.heading);
    assert(f.x == ux && f.z == uz);
    lemma_rotation_keeps_length(f.x as int, f.z as int, d.x as int, d.y as int);
}

/// Forward and right are orthonormal: turning an input by them keeps its
/// length, scaled by the facing's.
proof fn lemma_rotation_keeps_length(fx: int, fz: int, dx: int, dy: int)
    ensures
        (-(fx * dy) + fz * dx) * (-(fx * dy) + fz * dx) + (-(fz * dy) - fx * dx) * (-(fz * dy) - fx * dx)
            == (fx * fx + fz * fz) * (dx * dx + dy * dy),
{
    let a = fx * dy;
    let b = fz * dx;
    let c = fz * dy;
    let e = fx * dx;
    assert((-a + b) * (-a + b) == a * a - 2 * (a * b) + b * b) by (nonlinear_arith);
    assert((-c - e) * (-c - e) == c * c + 2 * (c * e) + e * e) by (nonlinear_arith);
    assert(a * b == c * e) by (nonlinear_arith)
        requires a == fx * dy, b == fz * dx, c == fz * dy, e == fx * dx;
    assert(a * a == fx * fx * (dy * dy)) by (nonlinear_arith)
        requires a == fx * dy;
    assert(b * b == fz * fz * (dx * dx)) by (nonlinear_arith)
        requires b == fz * dx;
    assert(c * c == fz * fz * (dy * dy)) by (nonlinear_arith)
        requires c == fz * dy;
    assert(e * e == fx * fx * (dx * dx)) by (nonlinear_arith)
        requires e == fx * dx;
    assert((fx * fx + fz * fz) * (dx * dx + dy * dy) == fx * fx * (dx * dx) + fx * fx * (dy * dy)
        + fz * fz * (dx * dx) + fz * fz * (dy * dy)) by (nonlinear_arith);
}

} // verus!
