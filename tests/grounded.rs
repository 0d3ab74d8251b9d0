use locomotion::body::{LocomotionBody, MovementBundle};
use locomotion::fixed::Vector3;
use locomotion::grounded::{is_grounded, update_grounded};
use locomotion::slope::MaxSlopeAngle;

fn slope_normal(degrees: f64) -> Vector3 {
    let r = degrees.to_radians();
    Vector3 { x: (r.sin() * 1000.0).round() as i64, y: (r.cos() * 1000.0).round() as i64, z: 0 }
}

fn cos_milli(degrees: f64) -> i64 {
    (degrees.to_radians().cos() * 1000.0).round() as i64
}

#[test]
fn forty_degrees_grounded_fifty_not_under_forty_five() {
    let mut b = LocomotionBody::new(
        Vector3 { x: 0, y: 0, z: 0 },
        MovementBundle::new(30_000, 900, 7_000, cos_milli(45.0)),
    );
    update_grounded(&mut b, &vec![slope_normal(40.0)]);
    assert!(b.grounded);
    update_grounded(&mut b, &vec![slope_normal(50.0)]);
    assert!(!b.grounded);
}

#[test]
fn removing_all_hits_removes_grounded() {
    let mut b = LocomotionBody::new(Vector3 { x: 0, y: 0, z: 0 }, MovementBundle::new(30_000, 900, 7_000, 707));
    update_grounded(&mut b, &vec![Vector3 { x: 0, y: 1000, z: 0 }]);
    assert!(b.grounded);
    update_grounded(&mut b, &vec![]);
    assert!(!b.grounded);
}

#[test]
fn any_walkable_hit_grounds() {
    let limit = Some(MaxSlopeAngle(cos_milli(35.0)));
    let steep = slope_normal(60.0);
    let gentle = slope_normal(20.0);
    assert!(!is_grounded(&vec![steep, steep], limit));
    assert!(is_grounded(&vec![steep, gentle, steep], limit));
    // A ceiling's normal points down: never ground.
    assert!(!is_grounded(&vec![Vector3 { x: 0, y: -1000, z: 0 }], limit));
}

#[test]
fn without_limit_every_hit_grounds() {
    assert!(is_grounded(&vec![slope_normal(89.0)], None));
    assert!(!is_grounded(&vec![], None));
}

#[test]
fn limit_boundary_is_walkable() {
    // A 45° slope against a 45° limit.
    assert!(is_grounded(&vec![Vector3 { x: 707, y: 707, z: 0 }], Some(MaxSlopeAngle(707))));
    assert!(!is_grounded(&vec![Vector3 { x: 708, y: 706, z: 0 }], Some(MaxSlopeAngle(707))));
}
