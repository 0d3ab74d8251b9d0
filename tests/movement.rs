use locomotion::body::{CameraRotation, Heading, LocomotionBody, MovementBundle};
use locomotion::fixed::{Planar, Vector3};
use locomotion::intent::{
    apply_action, apply_movement_damping, input_intent, tick_cooldowns, wrap_angle_exec,
    MovementAction, DASH_COOLDOWN, PITCH_LIMIT,
};

fn v3(x: i64, y: i64, z: i64) -> Vector3 {
    Vector3 { x, y, z }
}

fn body(acceleration: i64) -> LocomotionBody {
    LocomotionBody::new(v3(0, 0, 0), MovementBundle::new(acceleration, 900, 7_000, 707))
}

#[test]
fn move_then_damp_on_flat_ground() {
    // 30 m/s², damping 0.9, a 20 ms frame: 30 * 0.02 * 0.9 = 0.54 m/s.
    let mut b = body(30_000);
    b.grounded = true;
    let mut cam = CameraRotation(0);
    apply_action(&mut b, &mut cam, MovementAction::Move(Planar { x: 0, y: 1000 }, 1000), 1920, 1080, 20_000);
    assert_eq!(b.state.velocity, v3(0, 0, -600));
    apply_movement_damping(&mut b);
    assert_eq!(b.state.velocity, v3(0, 0, -540));
}

#[test]
fn moves_in_one_frame_add_up() {
    let mut b = body(30_000);
    let mut cam = CameraRotation(0);
    let step = MovementAction::Move(Planar { x: 1000, y: 0 }, 1000);
    apply_action(&mut b, &mut cam, step, 800, 600, 20_000);
    apply_action(&mut b, &mut cam, step, 800, 600, 20_000);
    // Right of a body facing -Z is +X.
    assert_eq!(b.state.velocity, v3(1200, 0, 0));
}

#[test]
fn move_follows_heading_and_multiplier() {
    let mut b = body(30_000);
    // Turned a quarter turn: local +Z is world +X, so forward is -X.
    b.heading = Heading { x: 1000, z: 0 };
    let mut cam = CameraRotation(0);
    apply_action(&mut b, &mut cam, MovementAction::Move(Planar { x: 0, y: 1000 }, 1500), 800, 600, 20_000);
    assert_eq!(b.state.velocity, v3(-900, 0, 0));
}

#[test]
fn heading_length_does_not_change_move_speed() {
    let step = MovementAction::Move(Planar { x: 0, y: 1000 }, 1000);
    let mut cam = CameraRotation(0);
    let mut short = body(30_000);
    short.heading = Heading { x: 1, z: 1 };
    apply_action(&mut short, &mut cam, step, 800, 600, 20_000);
    let mut long = body(30_000);
    long.heading = Heading { x: 500, z: 500 };
    apply_action(&mut long, &mut cam, step, 800, 600, 20_000);
    // Facing (0.707, 0.707) after scaling; 0.6 m/s split over -x and -z.
    assert_eq!(short.state.velocity, v3(-424, 0, -424));
    assert_eq!(long.state.velocity, v3(-424, 0, -424));
}

#[test]
fn zero_heading_gives_no_move() {
    let mut b = body(30_000);
    b.heading = Heading { x: 0, z: 0 };
    let mut cam = CameraRotation(0);
    apply_action(&mut b, &mut cam, MovementAction::Move(Planar { x: 0, y: 1000 }, 1000), 800, 600, 20_000);
    assert_eq!(b.state.velocity, v3(0, 0, 0));
}

#[test]
fn zero_direction_move_is_no_op() {
    let mut b = body(30_000);
    b.state.velocity = v3(5, 6, 7);
    let mut cam = CameraRotation(0);
    apply_action(&mut b, &mut cam, MovementAction::Move(Planar { x: 0, y: 0 }, 1000), 800, 600, 20_000);
    assert_eq!(b.state.velocity, v3(5, 6, 7));
}

#[test]
fn damping_keeps_vertical_speed_and_decays_to_zero() {
    let mut b = body(30_000);
    b.state.velocity = v3(-5, -3000, 9);
    for _ in 0..40 {
        apply_movement_damping(&mut b);
    }
    assert_eq!(b.state.velocity, v3(0, -3000, 0));
}

#[test]
fn jump_only_when_grounded() {
    let mut b = body(30_000);
    b.state.velocity = v3(0, -2000, 0);
    let mut cam = CameraRotation(0);
    apply_action(&mut b, &mut cam, MovementAction::Jump, 800, 600, 20_000);
    assert_eq!(b.state.velocity, v3(0, -2000, 0));
    b.grounded = true;
    apply_action(&mut b, &mut cam, MovementAction::Jump, 800, 600, 20_000);
    assert_eq!(b.state.velocity, v3(0, 7_000, 0));
}

#[test]
fn dash_resets_fall_and_boosts() {
    let mut b = body(1_000);
    b.state.velocity = v3(200, -3000, 100);
    let mut cam = CameraRotation(0);
    apply_action(&mut b, &mut cam, MovementAction::Dash(Planar { x: 0, y: 500_000 }), 800, 600, 20_000);
    assert_eq!(b.state.velocity, v3(200, 1000, -49_900));
    assert_eq!(b.dash_cooldown, DASH_COOLDOWN);
}

#[test]
fn second_dash_within_cooldown_is_ignored() {
    let mut b = body(1_000);
    let mut cam = CameraRotation(0);
    let dash = MovementAction::Dash(Planar { x: 500_000, y: 0 });
    apply_action(&mut b, &mut cam, dash, 800, 600, 20_000);
    let after_first = b;
    assert_eq!(after_first.state.velocity, v3(50_000, 1000, 0));
    tick_cooldowns(&mut b, 1_000_000);
    assert_eq!(b.dash_cooldown, 500_000);
    assert!(!b.dash_ready());
    let before_second = b;
    apply_action(&mut b, &mut cam, dash, 800, 600, 20_000);
    assert_eq!(b, before_second);
    tick_cooldowns(&mut b, 499_999);
    apply_action(&mut b, &mut cam, dash, 800, 600, 20_000);
    let mut expected = before_second;
    expected.dash_cooldown = 1;
    assert_eq!(b, expected);
    tick_cooldowns(&mut b, 1);
    assert_eq!(b.dash_cooldown, 0);
    assert!(b.dash_ready());
    apply_action(&mut b, &mut cam, dash, 800, 600, 20_000);
    assert_eq!(b.state.velocity, v3(100_000, 1000, 0));
    assert_eq!(b.dash_cooldown, DASH_COOLDOWN);
}

#[test]
fn cooldown_counts_down_past_zero() {
    let mut b = body(1_000);
    tick_cooldowns(&mut b, 20_000);
    assert_eq!(b.dash_cooldown, -20_000);
    tick_cooldowns(&mut b, 20_000);
    assert_eq!(b.dash_cooldown, -40_000);
    assert!(b.dash_ready());
}

#[test]
fn dash_cooldown_runs_out_after_its_time() {
    let mut b = body(1_000);
    let mut cam = CameraRotation(0);
    apply_action(&mut b, &mut cam, MovementAction::Dash(Planar { x: 0, y: 500_000 }), 800, 600, 20_000);
    for _ in 0..74 {
        tick_cooldowns(&mut b, 20_000);
    }
    assert_eq!(b.dash_cooldown, 20_000);
    assert!(!b.dash_ready());
    tick_cooldowns(&mut b, 20_000);
    assert_eq!(b.dash_cooldown, 0);
    assert!(b.dash_ready());
    tick_cooldowns(&mut b, 20_000);
    assert_eq!(b.dash_cooldown, -20_000);
}

#[test]
fn input_intent_picks_dash_or_move() {
    let dir = Planar { x: 0, y: 1000 };
    assert_eq!(input_intent(Planar { x: 0, y: 0 }, true, true, 500, 1000), None);
    assert_eq!(
        input_intent(dir, true, true, 500, 1000),
        Some(MovementAction::Dash(Planar { x: 0, y: 500_000 }))
    );
    assert_eq!(input_intent(dir, true, false, 500, 1000), Some(MovementAction::Move(dir, 1000)));
    assert_eq!(input_intent(dir, false, true, 200, 1250), Some(MovementAction::Move(dir, 1250)));
}

#[test]
fn look_turns_yaw_by_window_scaled_angle() {
    // 10 px at a 1920 px window: 1.2 * 10 * 1920 / 10 000 = 2.304° = 40 212 µrad.
    let mut b = body(30_000);
    let mut cam = CameraRotation(0);
    apply_action(&mut b, &mut cam, MovementAction::Look(Planar { x: 10_000, y: 0 }), 1920, 1080, 20_000);
    assert_eq!(b.yaw, -40_212);
    assert_eq!(cam.0, 0);
    apply_action(&mut b, &mut cam, MovementAction::Look(Planar { x: 0, y: -10_000 }), 1080, 1920, 20_000);
    assert_eq!(cam.0, 40_212);
    assert_eq!(b.yaw, -40_212);
}

#[test]
fn look_clamps_pitch() {
    let mut b = body(30_000);
    let mut cam = CameraRotation(0);
    apply_action(&mut b, &mut cam, MovementAction::Look(Planar { x: 0, y: 1_000_000 }), 1920, 1080, 20_000);
    assert_eq!(cam.0, -PITCH_LIMIT);
    apply_action(&mut b, &mut cam, MovementAction::Look(Planar { x: 0, y: -1_000_000 }), 1920, 1080, 20_000);
    assert_eq!(cam.0, PITCH_LIMIT);
}

#[test]
fn look_wraps_yaw_past_half_turn() {
    let mut b = body(30_000);
    b.yaw = 3_100_000;
    let mut cam = CameraRotation(0);
    apply_action(&mut b, &mut cam, MovementAction::Look(Planar { x: -20_000, y: 0 }), 1920, 1080, 20_000);
    assert_eq!(b.yaw, -3_102_762);
    assert_eq!(wrap_angle_exec(3_141_593), -3_141_593);
    assert_eq!(wrap_angle_exec(-3_141_593), -3_141_593);
}

#[test]
fn default_tuning() {
    let m = MovementBundle::default();
    assert_eq!(m, MovementBundle::new(30_000, 900, 7_000, 156));
}
