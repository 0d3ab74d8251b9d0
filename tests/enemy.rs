use locomotion::body::{Heading, LocomotionBody, MovementBundle};
use locomotion::enemy::{enemy_chase_and_attack, Behaviour, Enemy, Player, ATTACK_COOLDOWN};
use locomotion::fixed::Vector3;

fn v3(x: i64, y: i64, z: i64) -> Vector3 {
    Vector3 { x, y, z }
}

fn enemy_body() -> LocomotionBody {
    let mut b = LocomotionBody::new(v3(0, 0, 0), MovementBundle::new(3_000, 900, 0, 819));
    b.state.velocity = v3(500, -700, 500);
    b
}

#[test]
fn idle_out_of_sight() {
    let mut b = enemy_body();
    let mut e = Enemy { id: 1, health: 3000, attack_cooldown: 100_000 };
    let mut p = Player::default();
    let act = enemy_chase_and_attack(&mut b, &mut e, &v3(25_000, 0, 0), &mut p, 20_000);
    assert_eq!(act, Behaviour::Idle);
    assert_eq!(b.state.velocity, v3(0, -700, 0));
    assert_eq!(e.attack_cooldown, 80_000);
    assert_eq!(p.health, 1000);
}

#[test]
fn attack_cooldown_counts_down_past_zero() {
    let mut b = enemy_body();
    let mut e = Enemy { id: 1, health: 3000, attack_cooldown: 0 };
    let mut p = Player::default();
    let act = enemy_chase_and_attack(&mut b, &mut e, &v3(25_000, 0, 0), &mut p, 20_000);
    assert_eq!(act, Behaviour::Idle);
    assert_eq!(e.attack_cooldown, -20_000);
    enemy_chase_and_attack(&mut b, &mut e, &v3(25_000, 0, 0), &mut p, 20_000);
    assert_eq!(e.attack_cooldown, -40_000);
    // Coming close with the cooldown long over: strikes at once.
    assert_eq!(enemy_chase_and_attack(&mut b, &mut e, &v3(1000, 0, 0), &mut p, 20_000), Behaviour::Strike);
    assert_eq!(e.attack_cooldown, ATTACK_COOLDOWN);
}

#[test]
fn chase_runs_at_player() {
    let mut b = enemy_body();
    let mut e = Enemy { id: 1, health: 3000, attack_cooldown: 0 };
    let mut p = Player::default();
    let act = enemy_chase_and_attack(&mut b, &mut e, &v3(3000, 900, 4000), &mut p, 20_000);
    assert_eq!(act, Behaviour::Chase);
    assert_eq!(b.state.velocity, v3(1800, -700, 2400));
    // Faces the player: local -Z points along the running direction.
    assert_eq!(b.heading, Heading { x: -600, z: -800 });
}

#[test]
fn chase_toward_close_offset_keeps_speed() {
    let mut b = enemy_body();
    b.state.position = v3(0, 0, 0);
    let mut e = Enemy { id: 2, health: 3000, attack_cooldown: 0 };
    let mut p = Player::default();
    // Player almost straight above: horizontal offset of 1 mm each way.
    let act = enemy_chase_and_attack(&mut b, &mut e, &v3(1, 5000, 1), &mut p, 20_000);
    assert_eq!(act, Behaviour::Chase);
    assert_eq!(b.state.velocity, v3(2121, -700, 2121));
    assert_eq!(b.heading, Heading { x: -707, z: -707 });
}

#[test]
fn chase_straight_above_keeps_heading() {
    let mut b = enemy_body();
    let before = b.heading;
    let mut e = Enemy { id: 3, health: 3000, attack_cooldown: 0 };
    let mut p = Player::default();
    let act = enemy_chase_and_attack(&mut b, &mut e, &v3(0, 5000, 0), &mut p, 20_000);
    assert_eq!(act, Behaviour::Chase);
    assert_eq!(b.state.velocity, v3(0, -700, 0));
    assert_eq!(b.heading, before);
}

#[test]
fn strike_then_recover() {
    let mut b = enemy_body();
    let mut e = Enemy { id: 1, health: 3000, attack_cooldown: 20_000 };
    let mut p = Player::default();
    let target = v3(1000, 0, 1000);
    assert_eq!(enemy_chase_and_attack(&mut b, &mut e, &target, &mut p, 20_000), Behaviour::Strike);
    assert_eq!(p.health, 750);
    assert_eq!(e.attack_cooldown, ATTACK_COOLDOWN);
    assert_eq!(b.state.velocity, v3(0, -700, 0));
    assert_eq!(enemy_chase_and_attack(&mut b, &mut e, &target, &mut p, 20_000), Behaviour::Recover);
    assert_eq!(p.health, 750);
    assert_eq!(e.attack_cooldown, ATTACK_COOLDOWN - 20_000);
}

#[test]
fn strike_never_takes_health_below_zero() {
    let mut b = enemy_body();
    let mut e = Enemy { id: 1, health: 3000, attack_cooldown: 0 };
    let mut p = Player { health: 100, hallucination_severity: 0 };
    assert!(p.is_alive());
    enemy_chase_and_attack(&mut b, &mut e, &v3(0, 0, 2200), &mut p, 20_000);
    assert_eq!(p.health, 0);
    assert!(!p.is_alive());
}
