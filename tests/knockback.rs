use locomotion::body::{Control, Knockback, LocomotionBody, MovementBundle};
use locomotion::fixed::Vector3;
use locomotion::knockback::{apply_gravity, apply_knockback, start_knockback};

fn v3(x: i64, y: i64, z: i64) -> Vector3 {
    Vector3 { x, y, z }
}

fn body() -> LocomotionBody {
    LocomotionBody::new(v3(0, 0, 0), MovementBundle::new(30_000, 900, 7_000, 707))
}

#[test]
fn knockback_runs_down_and_ends() {
    let mut b = body();
    b.state.velocity = v3(7, 7, 7);
    start_knockback(&mut b, v3(1000, 5000, 0), 300_000);
    assert!(b.is_knocked_back());
    apply_knockback(&mut b, 100_000);
    assert_eq!(b.state.velocity, v3(1000, 4019, 0));
    assert_eq!(
        b.control,
        Control::KnockedBack(Knockback { velocity: v3(1000, 4019, 0), remaining_time: 200_000 })
    );
    apply_knockback(&mut b, 100_000);
    assert_eq!(b.state.velocity, v3(1000, 3038, 0));
    assert!(b.is_knocked_back());
    apply_knockback(&mut b, 100_000);
    assert_eq!(b.state.velocity, v3(1000, 2057, 0));
    assert_eq!(b.control, Control::Normal);
    let done = b;
    apply_knockback(&mut b, 100_000);
    assert_eq!(b, done);
}

#[test]
fn knockback_overrides_intent_velocity() {
    let mut b = body();
    start_knockback(&mut b, v3(-300, 0, 400), 50_000);
    b.state.velocity = v3(9_999, 9_999, 9_999);
    apply_knockback(&mut b, 20_000);
    assert_eq!(b.state.velocity, v3(-300, -196, 400));
    assert!(b.is_knocked_back());
    apply_knockback(&mut b, 40_000);
    assert_eq!(b.state.velocity, v3(-300, -588, 400));
    assert!(!b.is_knocked_back());
}

#[test]
fn gravity_only_when_airborne_and_free() {
    let mut b = body();
    apply_gravity(&mut b, 20_000);
    assert_eq!(b.state.velocity, v3(0, -196, 0));
    b.grounded = true;
    apply_gravity(&mut b, 20_000);
    assert_eq!(b.state.velocity, v3(0, -196, 0));
    b.grounded = false;
    start_knockback(&mut b, v3(0, 0, 0), 10_000);
    apply_gravity(&mut b, 20_000);
    assert_eq!(b.state.velocity, v3(0, -196, 0));
}
