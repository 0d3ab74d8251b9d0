use locomotion::attack::{punch_impulse, strike_enemy, PUNCH_KNOCKBACK_TIME};
use locomotion::body::{Control, Knockback, LocomotionBody, MovementBundle};
use locomotion::fixed::Vector3;
use locomotion::isqrt::floor_sqrt;

fn v3(x: i64, y: i64, z: i64) -> Vector3 {
    Vector3 { x, y, z }
}

const FORWARD: Vector3 = Vector3 { x: 0, y: 0, z: -1000 };

#[test]
fn punch_ahead_pushes_away_and_up() {
    // Push direction normalise((0, 0.17, -1)) = (0, 0.1676, -0.9858), times 7 m/s.
    let r = punch_impulse(&v3(0, 0, -2000), &v3(0, 0, 0), &FORWARD);
    assert_eq!(r, Some(v3(0, 1169, -6902)));
}

#[test]
fn punch_measures_from_player() {
    let r = punch_impulse(&v3(10_000, 500, -2000), &v3(10_000, 500, 0), &FORWARD);
    assert_eq!(r, Some(v3(0, 1169, -6902)));
}

#[test]
fn punch_range_is_inclusive() {
    assert!(punch_impulse(&v3(0, 0, -2500), &v3(0, 0, 0), &FORWARD).is_some());
    assert_eq!(punch_impulse(&v3(0, 0, -2501), &v3(0, 0, 0), &FORWARD), None);
    assert_eq!(punch_impulse(&v3(0, 0, -2_000_000), &v3(0, 0, 0), &FORWARD), None);
}

#[test]
fn punch_misses_outside_forward_cone() {
    assert_eq!(punch_impulse(&v3(0, 0, 2000), &v3(0, 0, 0), &FORWARD), None);
    assert_eq!(punch_impulse(&v3(2000, 0, 0), &v3(0, 0, 0), &FORWARD), None);
    assert_eq!(punch_impulse(&v3(0, 0, 0), &v3(0, 0, 0), &FORWARD), None);
}

#[test]
fn strike_knocks_back_until_health_runs_out() {
    let mut enemy = LocomotionBody::new(v3(0, 0, 0), MovementBundle::new(3_000, 900, 0, 819));
    let mut health: i64 = 500;
    let impulse = v3(0, 1169, -6902);
    assert!(strike_enemy(&mut enemy, &mut health, impulse));
    assert_eq!(health, 250);
    assert_eq!(
        enemy.control,
        Control::KnockedBack(Knockback { velocity: impulse, remaining_time: PUNCH_KNOCKBACK_TIME })
    );
    let before = enemy;
    assert!(!strike_enemy(&mut enemy, &mut health, impulse));
    assert_eq!(health, 0);
    assert_eq!(enemy, before);
}

#[test]
fn floor_sqrt_values() {
    assert_eq!(floor_sqrt(0), 0);
    assert_eq!(floor_sqrt(1), 1);
    assert_eq!(floor_sqrt(15), 3);
    assert_eq!(floor_sqrt(16), 4);
    assert_eq!(floor_sqrt(1_028_900), 1014);
    assert_eq!(floor_sqrt(4_000_000_000_000_000_000), 2_000_000_000);
}
