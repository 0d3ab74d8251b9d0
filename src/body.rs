//! The locomotion body: tuning, kinematic state, orientation and control mode.
use vstd::prelude::*;
use crate::fixed::{Vector3, UNIT, COORD_LIMIT, bounded};
use crate::slope::MaxSlopeAngle;
use crate::contact::KinematicState;

verus! {

/// Largest movement acceleration, in mm/s².
pub const ACCELERATION_LIMIT: i64 = 1_000_000_000;

/// Half a turn in microradians (π rounded).
pub const HALF_TURN: i64 = 3_141_593;

/// A full turn in microradians.
pub const FULL_TURN: i64 = 6_283_186;

/// Acceleration of movement intents, in mm/s².
#[derive(Clone, Copy, Debug, PartialEq, Eq, Structural)]
pub struct MovementAcceleration(pub i64);

/// Share of horizontal velocity kept each frame, in thousandths.
#[derive(Clone, Copy, Debug, PartialEq, Eq, Structural)]
pub struct MovementDampingFactor(pub i64);

/// Vertical speed set by a jump, in mm/s.
#[derive(Clone, Copy, Debug, PartialEq, Eq, Structural)]
pub struct JumpImpulse(pub i64);

/// Movement tuning of a body.
#[derive(Clone, Copy, Debug, PartialEq, Eq, Structural)]
pub struct MovementBundle {
    pub acceleration: MovementAcceleration,
    pub damping: MovementDampingFactor,
    pub jump_impulse: JumpImpulse,
    pub max_slope_angle: Option<MaxSlopeAngle>,
}

impl MovementBundle {
    pub open spec fn wf(&self) -> bool {
        &&& 0 <= self.acceleration.0 <= ACCELERATION_LIMIT
        &&& 0 < self.damping.0 < UNIT
        &&& 0 <= self.jump_impulse.0 <= COORD_LIMIT
        &&& self.max_slope_angle matches Some(l) ==> l.wf()
    }

    /// Tuning with a slope limit given as the cosine of the steepest walkable
    /// angle, in thousandths.
    pub fn new(acceleration: i64, damping: i64, jump_impulse: i64, max_slope_angle: i64) -> (r: Self)
        ensures
            r.acceleration.0 == acceleration,
            r.damping.0 == damping,
            r.jump_impulse.0 == jump_impulse,
            r.max_slope_angle == Some(MaxSlopeAngle(max_slope_angle)),
    {
        MovementBundle {
            acceleration: MovementAcceleration(acceleration),
            damping: MovementDampingFactor(damping),
            jump_impulse: JumpImpulse(jump_impulse),
            max_slope_angle: Some(MaxSlopeAngle(max_slope_angle)),
        }
    }
}

impl Default for MovementBundle {
    /// 30 m/s² of acceleration, 0.9 of the horizontal velocity kept per frame,
    /// 7 m/s of jump and slopes up to 81° (cosine 0.156).
    fn default() -> (r: Self)
        ensures
            r.acceleration.0 == 30_000,
            r.damping.0 == 900,
            r.jump_impulse.0 == 7_000,
            r.max_slope_angle == Some(MaxSlopeAngle(156)),
            r.wf(),
    {
        MovementBundle::new(30_000, 900, 7_000, 156)
    }
}

/// A knockback in progress: the velocity it imposes, in mm/s, and the time it
/// has left, in microseconds.
#[derive(Clone, Copy, Debug, PartialEq, Eq, Structural)]
pub struct Knockback {
    pub velocity: Vector3,
    pub remaining_time: i64,
}

/// Who drives the body's velocity: the intents, or a knockback.
#[derive(Clone, Copy, Debug, PartialEq, Eq, Structural)]
pub enum Control {
    Normal,
    KnockedBack(Knockback),
}

/// The horizontal components of the body's local +Z axis (it faces along
/// -Z), in thousandths: `(sin yaw, cos yaw)` for a body turned by `yaw`.
/// Movement scales it to unit length before use, so only its direction
/// counts.
#[derive(Clone, Copy, Debug, PartialEq, Eq, Structural)]
pub struct Heading {
    pub x: i64,
    pub z: i64,
}

/// A character moved by its own computed velocity.
#[derive(Clone, Copy, Debug, PartialEq, Eq, Structural)]
pub struct LocomotionBody {
    pub state: KinematicState,
    /// Rotation about the up axis, in microradians, within `[-HALF_TURN, HALF_TURN)`.
    pub yaw: i64,
    pub heading: Heading,
    pub movement: MovementBundle,
    pub grounded: bool,
    pub control: Control,
    /// Time before another dash is accepted, in microseconds; it keeps
    /// counting down past zero.
    pub dash_cooldown: i64,
}

impl LocomotionBody {
    pub open spec fn wf(&self) -> bool {
        &&& self.state.wf()
        &&& -HALF_TURN <= self.yaw < HALF_TURN
        &&& -UNIT <= self.heading.x <= UNIT
        &&& -UNIT <= self.heading.z <= UNIT
        &&& self.movement.wf()
        &&& self.dash_cooldown <= crate::intent::DASH_COOLDOWN
        &&& self.control matches Control::KnockedBack(k) ==> bounded(k.velocity) && k.remaining_time > 0
    }

    /// A body at rest at `position`, facing -Z, airborne, under normal control.
    pub fn new(position: Vector3, movement: MovementBundle) -> (r: Self)
        requires
            bounded(position),
            movement.wf(),
        ensures
            r.state.position == position,
            r.state.velocity == (Vector3 { x: 0, y: 0, z: 0 }),
            r.yaw == 0,
            r.heading == (Heading { x: 0, z: UNIT as i64 }),
            r.movement == movement,
            !r.grounded,
            r.control == Control::Normal,
            r.dash_cooldown == 0,
            r.wf(),
    {
        LocomotionBody {
            state: KinematicState { position, velocity: Vector3 { x: 0, y: 0, z: 0 } },
            yaw: 0,
            heading: Heading { x: 0, z: UNIT },
            movement,
            grounded: false,
            control: Control::Normal,
            dash_cooldown: 0,
        }
    }

    /// Whether a knockback currently drives the body.
    pub fn is_knocked_back(&self) -> (r: bool)
        ensures
            r == (self.control matches Control::KnockedBack(_)),
    {
        match self.control {
            Control::KnockedBack(_) => true,
            Control::Normal => false,
        }
    }

    /// Whether a dash would be accepted now.
    pub fn dash_ready(&self) -> (r: bool)
        ensures
            r == (self.dash_cooldown <= 0),
    {
        self.dash_cooldown <= 0
    }
}

/// Camera pitch in microradians, kept apart from the body's yaw.
#[derive(Clone, Copy, Debug, PartialEq, Eq, Structural)]
pub struct CameraRotation(pub i64);

} // verus!
