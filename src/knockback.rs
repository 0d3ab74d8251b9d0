//! Knockback: a timed override of a body's velocity by an impulse under
//! gravity, and gravity on airborne bodies.
use vstd::prelude::*;
use crate::fixed::{
    Vector3, MICROS_PER_SECOND, bounded, in_range, trunc_div, saturate, div_trunc,
    saturate_coord, lemma_trunc_div_le, lemma_mul_bounded,
};
use crate::body::{LocomotionBody, Knockback, Control};
use crate::contact::{KinematicState, STEP_LIMIT};

verus! {

/// Gravity on bodies that the physics engine does not move, in mm/s².
pub const GRAVITY: i64 = -9_810;

/// The speed that gravity adds over `dt` microseconds, in mm/s.
pub open spec fn gravity_delta(dt: int) -> int {
    trunc_div(GRAVITY * dt, MICROS_PER_SECOND as int)
}

/// The body after one frame of knockback.
pub open spec fn knockback_step(b: LocomotionBody, dt: int) -> LocomotionBody {
    match b.control {
        Control::Normal => b,
        Control::KnockedBack(k) => {
            let kv = Vector3 { y: saturate(k.velocity.y + gravity_delta(dt)) as i64, ..k.velocity };
            let rem = k.remaining_time - dt;
            LocomotionBody {
                state: KinematicState { velocity: kv, ..b.state },
                control: if rem > 0 {
                    Control::KnockedBack(Knockback { velocity: kv, remaining_time: rem as i64 })
                } else {
                    Control::Normal
                },
                ..b
            }
        },
    }
}

/// The body after one frame of gravity.
pub open spec fn gravity_step(b: LocomotionBody, dt: int) -> LocomotionBody {
    if b.control == Control::Normal && !b.grounded {
        let v = b.state.velocity;
        LocomotionBody {
            state: KinematicState {
                velocity: Vector3 { y: saturate(v.y + gravity_delta(dt)) as i64, ..v },
                ..b.state
            },
            ..b
        }
    } else {
        b
    }
}

fn gravity_delta_exec(dt: i64) -> (r: i64)
    requires
        1 <= dt <= STEP_LIMIT,
    ensures
        r as int == gravity_delta(dt as int),
        -(9_810 * STEP_LIMIT) <= r <= 0,
{
    proof {
        lemma_mul_bounded(GRAVITY as int, dt as int, 9_810, STEP_LIMIT as int);
        assert(GRAVITY * dt <= 0) by (nonlinear_arith)
            requires dt >= 1;
        lemma_trunc_div_le(GRAVITY * dt, MICROS_PER_SECOND as int);
    }
    div_trunc((GRAVITY as i128) * (dt as i128), MICROS_PER_SECOND as i128) as i64
}

/// Hands the body over to a knockback of initial `velocity` (mm/s) lasting
/// `duration` microseconds.
pub fn start_knockback(body: &mut LocomotionBody, velocity: Vector3, duration: i64)
    requires
        old(body).wf(),
        bounded(velocity),
        duration > 0,
    ensures
        *final(body) == (LocomotionBody {
            control: Control::KnockedBack(Knockback { velocity, remaining_time: duration }),
            ..*old(body)
        }),
        final(body).wf(),
{
    body.control = Control::KnockedBack(Knockback { velocity, remaining_time: duration });
}

/// One frame of knockback: gravity is added to the knockback's velocity,
/// which then replaces the body's velocity outright; its time runs down by
/// `dt`, and it ends on the frame where no time is left.
pub fn apply_knockback(body: &mut LocomotionBody, dt: i64)
    requires
        old(body).wf(),
        1 <= dt <= STEP_LIMIT,
    ensures
        *final(body) == knockback_step(*old(body), dt as int),
        final(body).wf(),
{
    match body.control {
        Control::Normal => {},
        Control::KnockedBack(k) => {
            let g = gravity_delta_exec(dt);
            let kv = Vector3 { x: k.velocity.x, y: saturate_coord(k.velocity.y as i128 + g as i128), z: k.velocity.z };
            body.state.velocity = kv;
            let rem = k.remaining_time - dt;
            if rem > 0 {
                body.control = Control::KnockedBack(Knockback { velocity: kv, remaining_time: rem });
            } else {
                body.control = Control::Normal;
            }
        },
    }
}

/// One frame of gravity on a body that is airborne and under normal control.
pub fn apply_gravity(body: &mut LocomotionBody, dt: i64)
    requires
        old(body).wf(),
        1 <= dt <= STEP_LIMIT,
    ensures
        *final(body) == gravity_step(*old(body), dt as int),
        final(body).wf(),
{
    if body.grounded {
        return;
    }
    match body.control {
        Control::Normal => {
            let g = gravity_delta_exec(dt);
            let v = body.state.velocity;
            body.state.velocity.y = saturate_coord(v.y as i128 + g as i128);
        },
        Control::KnockedBack(_) => {},
    }
}


/// The body after a run of knockback frames of the given lengths.
pub open spec fn knockback_frames(b: LocomotionBody, dts: Seq<i64>) -> LocomotionBody
    decreases dts.len(),
{
    if dts.len() == 0 {
        b
    } else {
        knockback_step(knockback_frames(b, dts.drop_last()), dts.last() as int)
    }
}

/// Total length of a run of frames.
pub open spec fn elapsed(dts: Seq<i64>) -> int
    decreases dts.len(),
{
    if dts.len() == 0 {
        0
    } else {
        elapsed(dts.drop_last()) + dts.last()
    }
}

/// Total speed that gravity adds over a run of frames.
pub open spec fn gravity_total(dts: Seq<i64>) -> int
    decreases dts.len(),
{
    if dts.len() == 0 {
        0
    } else {
        gravity_total(dts.drop_last()) + gravity_delta(dts.last() as int)
    }
}

/// Over a run of frames during which the knockback was still running at the
/// start of each, the body's velocity is the initial impulse plus the
/// gravity accumulated so far, whatever the body's own velocity was; the time
/// left has gone down by exactly the time elapsed, and the knockback is gone
/// exactly when that reaches zero or below.
pub proof fn lemma_knockback_frames(b: LocomotionBody, k: Knockback, dts: Seq<i64>)
    requires
        b.control == Control::KnockedBack(k),
        dts.len() > 0,
        forall|i: int| 0 <= i < dts.len() ==> #[trigger] dts[i] >= 1,
        forall|j: int|
            0 <= j < dts.len() ==> k.remaining_time - elapsed(#[trigger] dts.subrange(0, j)) > 0,
        forall|j: int|
            0 <= j <= dts.len() ==> in_range(k.velocity.y + gravity_total(#[trigger] dts.subrange(0, j))),
    ensures
        ({
            let a = knockback_frames(b, dts);
            let v = Vector3 { y: (k.velocity.y + gravity_total(dts)) as i64, ..k.velocity };
            &&& a.state.velocity == v
            &&& a.control == (if k.remaining_time - elapsed(dts) > 0 {
                Control::KnockedBack(
                    Knockback { velocity: v, remaining_time: (k.remaining_time - elapsed(dts)) as i64 },
                )
            } else {
                Control::Normal
            })
        }),
    decreases dts.len(),
{
    let init = dts.drop_last();
    let n = dts.len() as int;
    assert(dts.subrange(0, n) =~= dts);
    assert(dts.subrange(0, n - 1) =~= init);
    assert(k.remaining_time - elapsed(init) > 0);
    assert(in_range(k.velocity.y + gravity_total(dts)));
    assert(in_range(k.velocity.y + gravity_total(init)));
    if n == 1 {
        assert(init.len() == 0);
        assert(knockback_frames(b, init) == b);
        assert(elapsed(init) == 0);
        assert(gravity_total(init) == 0);
    } else {
        assert forall|i: int| 0 <= i < init.len() implies #[trigger] init[i] >= 1 by {
            assert(init[i] == dts[i]);
        }
        assert forall|j: int| 0 <= j < init.len() implies k.remaining_time - elapsed(
            #[trigger] init.subrange(0, j),
        ) > 0 by {
            assert(init.subrange(0, j) =~= dts.subrange(0, j));
        }
        assert forall|j: int| 0 <= j <= init.len() implies in_range(
            k.velocity.y + gravity_total(#[trigger] init.subrange(0, j)),
        ) by {
            assert(init.subrange(0, j) =~= dts.subrange(0, j));
        }
        lemma_knockback_frames(b, k, init);
    }
    lemma_elapsed_nonneg(init);
    let prev = knockback_frames(b, init);
    let pv = Vector3 { y: (k.velocity.y + gravity_total(init)) as i64, ..k.velocity };
    assert(prev.control == Control::KnockedBack(
        Knockback { velocity: pv, remaining_time: (k.remaining_time - elapsed(init)) as i64 },
    ));
}

/// A run of frames of positive length takes non-negative time.
proof fn lemma_elapsed_nonneg(dts: Seq<i64>)
    requires
        forall|i: int| 0 <= i < dts.len() ==> #[trigger] dts[i] >= 1,
    ensures
        elapsed(dts) >= 0,
    decreases dts.len(),
{
    if dts.len() > 0 {
        let init = dts.drop_last();
        assert forall|i: int| 0 <= i < init.len() implies #[trigger] init[i] >= 1 by {
            assert(init[i] == dts[i]);
        }
        lemma_elapsed_nonneg(init);
        assert(dts.last() == dts[dts.len() - 1]);
    }
}

} // verus!
