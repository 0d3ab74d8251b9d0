use locomotion::contact::{
    resolve_contacts, resolve_manifold, ContactManifold, ContactPair, KinematicState,
};
use locomotion::fixed::Vector3;
use locomotion::slope::MaxSlopeAngle;

fn v3(x: i64, y: i64, z: i64) -> Vector3 {
    Vector3 { x, y, z }
}

fn state(position: Vector3, velocity: Vector3) -> KinematicState {
    KinematicState { position, velocity }
}

fn manifold(normal: Vector3, penetrations: Vec<i64>) -> ContactManifold {
    ContactManifold { normal, penetrations }
}

fn cos_milli(degrees: f64) -> i64 {
    (degrees.to_radians().cos() * 1000.0).round() as i64
}

fn slope_normal(degrees: f64) -> Vector3 {
    let r = degrees.to_radians();
    v3((r.sin() * 1000.0).round() as i64, (r.cos() * 1000.0).round() as i64, 0)
}

#[test]
fn climbable_slope_sets_vertical_speed_from_tangent() {
    // 30° slope rising toward -x; walking uphill at 2 m/s.
    let n = slope_normal(30.0);
    assert_eq!(n, v3(500, 866, 0));
    let mut s = state(v3(0, 0, 0), v3(-2000, 0, 0));
    let m = manifold(n, vec![5]);
    resolve_manifold(&mut s, &m, false, false, Some(MaxSlopeAngle(cos_milli(45.0))), 20_000);
    // 2000 * tan 30° = 1154.7, rounded up.
    assert_eq!(s.velocity, v3(-2000, 1155, 0));
    // Pushed out along the normal by 5 mm.
    assert_eq!(s.position, v3(2, 4, 0));
    let along_normal = s.velocity.x * n.x + s.velocity.y * n.y + s.velocity.z * n.z;
    assert!(along_normal >= 0);
}

#[test]
fn climbable_slope_keeps_faster_rise() {
    let n = slope_normal(30.0);
    let mut s = state(v3(0, 0, 0), v3(-2000, 3000, 0));
    let m = manifold(n, vec![5]);
    resolve_manifold(&mut s, &m, false, false, Some(MaxSlopeAngle(707)), 20_000);
    assert_eq!(s.velocity, v3(-2000, 3000, 0));
}

#[test]
fn flat_ground_stops_sinking() {
    let mut s = state(v3(0, 0, 0), v3(300, -4000, 100));
    let m = manifold(v3(0, 1000, 0), vec![3, 7]);
    resolve_manifold(&mut s, &m, false, false, Some(MaxSlopeAngle(707)), 20_000);
    assert_eq!(s.velocity, v3(300, 0, 100));
    assert_eq!(s.position, v3(0, 10, 0));
}

#[test]
fn wall_slide_removes_normal_component() {
    let n = v3(1000, 0, 0);
    let mut s = state(v3(0, 0, 0), v3(-3000, 0, 2000));
    resolve_manifold(&mut s, &manifold(n, vec![4]), false, false, Some(MaxSlopeAngle(707)), 20_000);
    assert_eq!(s.velocity, v3(0, 0, 2000));
    assert_eq!(s.position, v3(4, 0, 0));
}

#[test]
fn wall_slide_diagonal_stays_out_of_wall() {
    let n = v3(707, 0, 707);
    let mut s = state(v3(0, 0, 0), v3(-3000, 500, 1000));
    resolve_manifold(&mut s, &manifold(n, vec![1]), false, false, None, 20_000);
    // v . n = -1 414 000 and |n|² = 999 698 divides it times 707: exact.
    assert_eq!(s.velocity, v3(-2000, 500, 2000));
    let d = s.velocity.x * n.x + s.velocity.y * n.y + s.velocity.z * n.z;
    assert_eq!(d, 0);
}

#[test]
fn wall_slide_rounds_away_from_wall() {
    let n = v3(600, 0, 800);
    let mut s = state(v3(0, 0, 0), v3(-1001, 250, 3));
    resolve_manifold(&mut s, &manifold(n, vec![1]), false, false, None, 20_000);
    // v . n = -598 200; the exact rejection is (-642.08, 250, 481.56),
    // rounded so that nothing points into the wall.
    let d = s.velocity.x * n.x + s.velocity.y * n.y + s.velocity.z * n.z;
    assert_eq!(d, 400);
    assert!(d >= 0 && d < 600 + 800);
    assert_eq!(s.velocity, v3(-642, 250, 482));
}

#[test]
fn wall_moving_away_is_untouched() {
    let mut s = state(v3(0, 0, 0), v3(1500, 0, 0));
    resolve_manifold(&mut s, &manifold(v3(1000, 0, 0), vec![2]), false, false, None, 20_000);
    assert_eq!(s.velocity, v3(1500, 0, 0));
    assert_eq!(s.position, v3(2, 0, 0));
}

#[test]
fn body_first_flips_normal() {
    // Normal points from the body (first) to the wall; flipped, it points
    // out of the wall toward the body.
    let mut s = state(v3(0, 0, 0), v3(-3000, 0, 0));
    resolve_manifold(&mut s, &manifold(v3(-1000, 0, 0), vec![6]), true, false, None, 20_000);
    assert_eq!(s.position, v3(6, 0, 0));
    assert_eq!(s.velocity, v3(0, 0, 0));
}

#[test]
fn dynamic_other_only_pushes_out() {
    let mut s = state(v3(0, 0, 0), v3(-3000, 0, 0));
    resolve_manifold(&mut s, &manifold(v3(1000, 0, 0), vec![6]), false, true, None, 20_000);
    assert_eq!(s.position, v3(6, 0, 0));
    assert_eq!(s.velocity, v3(-3000, 0, 0));
}

#[test]
fn speculative_climbable_removes_downward_part() {
    let mut s = state(v3(0, 0, 0), v3(0, -5000, 0));
    let m = manifold(v3(0, 1000, 0), vec![-10]);
    resolve_manifold(&mut s, &m, false, false, Some(MaxSlopeAngle(707)), 20_000);
    // Falls at exactly the speed that closes 10 mm in 20 ms.
    assert_eq!(s.velocity, v3(0, -500, 0));
    assert_eq!(s.position, v3(0, 0, 0));
}

#[test]
fn speculative_wall_impulse() {
    let mut s = state(v3(0, 0, 0), v3(-5000, 0, 800));
    let m = manifold(v3(1000, 0, 0), vec![-10, -30]);
    resolve_manifold(&mut s, &m, false, false, None, 20_000);
    assert_eq!(s.velocity, v3(-500, 0, 800));
}

#[test]
fn speculative_wall_never_pushes_up() {
    // A non-climbable floor: the upward part of the impulse is dropped.
    let mut s = state(v3(0, 0, 0), v3(0, -5000, 0));
    let m = manifold(v3(0, 1000, 0), vec![-10]);
    resolve_manifold(&mut s, &m, false, false, None, 20_000);
    assert_eq!(s.velocity, v3(0, -5000, 0));
}

#[test]
fn speculative_separating_is_untouched() {
    let mut s = state(v3(0, 0, 0), v3(0, 200, 0));
    let m = manifold(v3(0, 1000, 0), vec![-10]);
    resolve_manifold(&mut s, &m, false, false, Some(MaxSlopeAngle(707)), 20_000);
    assert_eq!(s.velocity, v3(0, 200, 0));
}

#[test]
fn empty_manifold_changes_nothing_twice() {
    let mut s = state(v3(1, 2, 3), v3(-100, -200, 300));
    let m = manifold(v3(0, 1000, 0), vec![]);
    resolve_manifold(&mut s, &m, false, false, Some(MaxSlopeAngle(707)), 20_000);
    assert_eq!(s, state(v3(1, 2, 3), v3(-100, -200, 300)));
    resolve_manifold(&mut s, &m, false, false, Some(MaxSlopeAngle(707)), 20_000);
    assert_eq!(s, state(v3(1, 2, 3), v3(-100, -200, 300)));
}

#[test]
fn penetrating_resolution_is_idempotent_on_velocity() {
    let cases = vec![
        (v3(707, 0, 707), None),
        (v3(600, 0, -800), None),
        (slope_normal(30.0), Some(MaxSlopeAngle(707))),
    ];
    for (n, limit) in cases {
        let m = manifold(n, vec![3]);
        let mut s = state(v3(0, 0, 0), v3(-3001, -77, 1234));
        resolve_manifold(&mut s, &m, false, false, limit, 20_000);
        let once = s.velocity;
        resolve_manifold(&mut s, &m, false, false, limit, 20_000);
        assert_eq!(s.velocity, once);
    }
}

#[test]
fn resolve_contacts_runs_pairs_in_order() {
    let floor = ContactPair {
        body_is_first: false,
        other_is_dynamic: false,
        manifolds: vec![manifold(v3(0, 1000, 0), vec![2])],
    };
    let wall = ContactPair {
        body_is_first: true,
        other_is_dynamic: false,
        manifolds: vec![manifold(v3(0, 0, 1000), vec![1])],
    };
    let mut s = state(v3(0, 0, 0), v3(100, -900, 700));
    resolve_contacts(&mut s, true, &vec![floor.clone(), wall.clone()], Some(MaxSlopeAngle(707)), 20_000);
    assert_eq!(s.position, v3(0, 2, -1));
    assert_eq!(s.velocity, v3(100, 0, 0));

    let mut d = state(v3(0, 0, 0), v3(100, -900, 700));
    resolve_contacts(&mut d, false, &vec![floor, wall], Some(MaxSlopeAngle(707)), 20_000);
    assert_eq!(d, state(v3(0, 0, 0), v3(100, -900, 700)));
}
