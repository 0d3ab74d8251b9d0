//! Enemy behaviour toward the player: stand idle out of sight, run at the
//! player when in sight, stop and strike when close.
use vstd::prelude::*;
use crate::fixed::{Vector3, UNIT, bounded, lemma_mul_bounded};
use crate::isqrt::{planar_unit, planar_unit_exec};
use crate::body::{LocomotionBody, Heading};
use crate::attack::sq3;
use crate::intent::{cooldown_after, count_down};
use crate::contact::{KinematicState, STEP_LIMIT};

verus! {

/// Distance within which an enemy notices the player, in millimetres.
pub const DETECTION_RANGE: i64 = 20_000;

/// Distance within which an enemy strikes, in millimetres.
pub const ATTACK_RANGE: i64 = 2_200;

/// Running speed of an enemy, in mm/s.
pub const ENEMY_SPEED: i64 = 3_000;

/// Time between two strikes of one enemy, in microseconds.
pub const ATTACK_COOLDOWN: i64 = 5_000_000;

/// Health a strike takes from the player, in thousandths.
pub const ATTACK_DAMAGE: i64 = 250;

/// The player's standing, in thousandths.
#[derive(Clone, Copy, Debug, PartialEq, Eq, Structural)]
pub struct Player {
    /// 1000 is full health.
    pub health: i64,
    pub hallucination_severity: i64,
}

impl Player {
    pub fn is_alive(&self) -> (r: bool)
        ensures
            r == (self.health > 0),
    {
        self.health > 0
    }
}

impl Default for Player {
    fn default() -> (r: Self)
        ensures
            r == (Player { health: 1000, hallucination_severity: 0 }),
    {
        Player { health: 1000, hallucination_severity: 0 }
    }
}

/// An enemy's own standing.
#[derive(Clone, Copy, Debug, PartialEq, Eq, Structural)]
pub struct Enemy {
    pub id: u32,
    /// In thousandths.
    pub health: i64,
    /// Time before the next strike, in microseconds; it keeps counting down
    /// past zero.
    pub attack_cooldown: i64,
}

/// What an enemy did this frame, for its animation.
#[derive(Clone, Copy, Debug, PartialEq, Eq, Structural)]
pub enum Behaviour {
    /// Out of sight: standing still.
    Idle,
    /// Close and ready: struck the player.
    Strike,
    /// Close but still recovering from the last strike.
    Recover,
    /// In sight: running at the player.
    Chase,
}

pub open spec fn behaviour_spec(d2: int, cooldown: int) -> Behaviour {
    if d2 > DETECTION_RANGE * DETECTION_RANGE {
        Behaviour::Idle
    } else if d2 <= ATTACK_RANGE * ATTACK_RANGE {
        if cooldown <= 0 {
            Behaviour::Strike
        } else {
            Behaviour::Recover
        }
    } else {
        Behaviour::Chase
    }
}

pub open spec fn clamp_health(h: int) -> int {
    if h > 0 {
        h
    } else {
        0
    }
}


/// The enemy's body, its standing and the player's after one frame, and
/// what the enemy did.
pub open spec fn enemy_step_spec(
    b: LocomotionBody,
    e: Enemy,
    player_pos: Vector3,
    p: Player,
    dt: int,
) -> (LocomotionBody, Enemy, Player, Behaviour) {
    let cd = cooldown_after(e.attack_cooldown as int, dt);
    let pos = b.state.position;
    let (x, y, z) = (player_pos.x - pos.x, player_pos.y - pos.y, player_pos.z - pos.z);
    let act = behaviour_spec(sq3(x, y, z), cd);
    let v = b.state.velocity;
    let (ux, uz) = planar_unit(x, z);
    let nv = match act {
        Behaviour::Chase => Vector3 { x: (ux * (ENEMY_SPEED / UNIT)) as i64, z: (uz * (ENEMY_SPEED / UNIT)) as i64, ..v },
        _ => Vector3 { x: 0, z: 0, ..v },
    };
    let heading = if act == Behaviour::Chase && (x != 0 || z != 0) {
        Heading { x: (-ux) as i64, z: (-uz) as i64 }
    } else {
        b.heading
    };
    let nb = LocomotionBody { state: KinematicState { velocity: nv, ..b.state }, heading, ..b };
    match act {
        Behaviour::Strike => (
            nb,
            Enemy { attack_cooldown: ATTACK_COOLDOWN, ..e },
            Player { health: clamp_health(p.health - ATTACK_DAMAGE) as i64, ..p },
            act,
        ),
        _ => (nb, Enemy { attack_cooldown: cd as i64, ..e }, p, act),
    }
}

/// One frame of an enemy's behaviour toward the player: its strike
/// cooldown runs down by `dt`; out of `DETECTION_RANGE` it stands still;
/// within `ATTACK_RANGE` it stands still and, when the cooldown is over,
/// strikes (the player loses `ATTACK_DAMAGE`, never below zero, and the
/// cooldown restarts); in between it runs at the player horizontally at
/// `ENEMY_SPEED`, and turns to face the player (its heading becomes the
/// opposite of the running direction, as a body faces along its local -Z;
/// its yaw angle is left for the caller to derive from the heading). Its
/// vertical velocity is left alone.
pub fn enemy_chase_and_attack(
    body: &mut LocomotionBody,
    enemy: &mut Enemy,
    player_pos: &Vector3,
    player: &mut Player,
    dt: i64,
) -> (act: Behaviour)
    requires
        old(body).wf(),
        bounded(*player_pos),
        old(enemy).attack_cooldown <= ATTACK_COOLDOWN,
        0 <= old(player).health <= crate::attack::HEALTH_LIMIT,
        1 <= dt <= STEP_LIMIT,
    ensures
        (*final(body), *final(enemy), *final(player), act) == enemy_step_spec(
            *old(body),
            *old(enemy),
            *player_pos,
            *old(player),
            dt as int,
        ),
        final(body).wf(),
        final(enemy).attack_cooldown <= ATTACK_COOLDOWN,
        0 <= final(player).health <= crate::attack::HEALTH_LIMIT,
{
    let cd = count_down(enemy.attack_cooldown, dt);
    let pos = body.state.position;
    let x = player_pos.x as i128 - pos.x as i128;
    let y = player_pos.y as i128 - pos.y as i128;
    let z = player_pos.z as i128 - pos.z as i128;
    proof {
        lemma_mul_bounded(x as int, x as int, 2_000_000_000_000, 2_000_000_000_000);
        lemma_mul_bounded(y as int, y as int, 2_000_000_000_000, 2_000_000_000_000);
        lemma_mul_bounded(z as int, z as int, 2_000_000_000_000, 2_000_000_000_000);
        assert(x * x >= 0 && y * y >= 0 && z * z >= 0) by (nonlinear_arith);
    }
    let d2 = x * x + y * y + z * z;
    let detect = DETECTION_RANGE as i128;
    let strike = ATTACK_RANGE as i128;
    if d2 > detect * detect {
        body.state.velocity.x = 0;
        body.state.velocity.z = 0;
        enemy.attack_cooldown = cd;
        return Behaviour::Idle;
    }
    if d2 <= strike * strike {
        body.state.velocity.x = 0;
        body.state.velocity.z = 0;
        if cd <= 0 {
            enemy.attack_cooldown = ATTACK_COOLDOWN;
            let h = player.health - ATTACK_DAMAGE;
            player.health = if h > 0 {
                h
            } else {
                0
            };
            return Behaviour::Strike;
        }
        enemy.attack_cooldown = cd;
        return Behaviour::Recover;
    }
    proof {
        assert(x * x <= d2 && z * z <= d2);
        if x > DETECTION_RANGE || x < -DETECTION_RANGE {
            assert(x * x > DETECTION_RANGE * DETECTION_RANGE) by (nonlinear_arith)
                requires x > DETECTION_RANGE || x < -DETECTION_RANGE;
        }
        if z > DETECTION_RANGE || z < -DETECTION_RANGE {
            assert(z * z > DETECTION_RANGE * DETECTION_RANGE) by (nonlinear_arith)
                requires z > DETECTION_RANGE || z < -DETECTION_RANGE;
        }
    }
    let (ux, uz) = planar_unit_exec(x as i64, z as i64);
    proof {
        assert(ENEMY_SPEED / UNIT == 3);
    }
    body.state.velocity.x = ux * 3;
    body.state.velocity.z = uz * 3;
    if x != 0 || z != 0 {
        body.heading = Heading { x: -ux, z: -uz };
    }
    enemy.attack_cooldown = cd;
    Behaviour::Chase
}

} // verus!
