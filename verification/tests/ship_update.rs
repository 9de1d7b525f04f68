use retrorocket::entity::Entity;
use retrorocket::fixed::{ONE, WALL_MARGIN, WORLD_H, WORLD_W};
use retrorocket::gun::{Gun, Polar};
use retrorocket::particle::Particle;
use retrorocket::rng::Rng;
use retrorocket::ship::{Ship, EXHAUST_FADE, EXHAUST_LIFE, LIN_ACC, ROT_RATE};
use retrorocket::vec2::Vec2;

fn plain_gun() -> Gun {
    Gun {
        cooldown: 0,
        period: 50,
        muzzle_vel: 400 * ONE,
        spread: Polar { radius: 0, azimuth: 0 },
        shots: 1,
        bullets: Vec::new(),
    }
}

fn ship_at(px: i64, py: i64, vx: i64, vy: i64) -> Ship {
    Ship {
        pos: Vec2 { x: px, y: py },
        dir: Vec2 { x: 0, y: -ONE },
        vel: Vec2 { x: vx, y: vy },
        acc: Vec2 { x: 0, y: 0 },
        rot: 0,
        guns: vec![plain_gun()],
        thrust: false,
        exhaust: Vec::new(),
        rng: Rng::new(3),
    }
}

#[test]
fn left_wall_bounce_flips_only_x() {
    // Integration carries the ship to x = 8, past the ten-unit margin:
    // the position clamps to the margin and the x velocity flips at a
    // quarter of its magnitude, while the y velocity is untouched.
    let mut s = ship_at(12 * ONE, 100 * ONE, -40 * ONE, 3 * ONE);
    s.update(100);
    assert_eq!(s.pos.x, WALL_MARGIN);
    assert_eq!(s.vel.x, 10 * ONE);
    assert_eq!(s.vel.y, 3 * ONE);
    assert_eq!(s.pos.y, 100 * ONE + 300);
}

#[test]
fn far_wall_clamps_inside_margin() {
    let mut s = ship_at(635 * ONE, 355 * ONE, 900 * ONE, 900 * ONE);
    s.update(1000);
    assert_eq!(s.pos.x, WORLD_W - WALL_MARGIN);
    assert_eq!(s.pos.y, WORLD_H - WALL_MARGIN);
    assert_eq!(s.vel.x, -225 * ONE);
    assert_eq!(s.vel.y, -225 * ONE);
}

#[test]
fn no_crossing_keeps_velocity() {
    let mut s = ship_at(100 * ONE, 100 * ONE, 5 * ONE, -4 * ONE);
    s.update(100);
    assert_eq!(s.pos.x, 100 * ONE + 500);
    assert_eq!(s.pos.y, 100 * ONE - 400);
    assert_eq!(s.vel.x, 5 * ONE);
    assert_eq!(s.vel.y, -4 * ONE);
}

#[test]
fn quarter_turn_rotates_facing_exactly() {
    let mut s = ship_at(100 * ONE, 100 * ONE, 0, 0);
    s.dir = Vec2 { x: ONE, y: 0 };
    s.rot = 250;
    s.update(1000);
    assert_eq!(s.dir.x, 0);
    assert_eq!(s.dir.y, ONE);
}

#[test]
fn thrust_accumulates_acceleration_along_facing() {
    let mut s = ship_at(100 * ONE, 100 * ONE, 0, 0);
    s.thrust();
    assert!(s.thrust);
    assert_eq!(s.acc.x, 0);
    assert_eq!(s.acc.y, -LIN_ACC);
    s.thrust();
    assert_eq!(s.acc.y, -2 * LIN_ACC);
}

#[test]
fn thrusting_frame_emits_ten_puffs() {
    let mut s = ship_at(100 * ONE, 100 * ONE, 0, 0);
    s.thrust();
    s.update(50);
    assert_eq!(s.exhaust.len(), 10);
    for p in &s.exhaust {
        assert_eq!(p.life, EXHAUST_LIFE - 50);
        assert_eq!(p.fade, EXHAUST_FADE);
        // The sideways draw is bounded, so one frame of drift stays
        // within half a unit of the spawn point.
        assert!((p.pos.x - 100 * ONE).abs() <= 500);
    }
    // Without the flag no puffs come.
    s.thrust = false;
    s.update(50);
    assert_eq!(s.exhaust.len(), 10);
}

#[test]
fn rotate_blends_toward_target_rate() {
    let mut s = ship_at(100 * ONE, 100 * ONE, 0, 0);
    s.rotate(ROT_RATE, 10);
    // The gain is twenty per second: a hundredth of a second blends a
    // fifth of the way toward the commanded turn rate.
    assert_eq!(s.rot, 200);
    s.rotate(ROT_RATE, 10);
    assert_eq!(s.rot, 200 + 160);
}

#[test]
fn cycle_weapon_rotates_inventory() {
    let mut s = ship_at(100 * ONE, 100 * ONE, 0, 0);
    s.guns = Vec::new();
    for period in [50, 500, 1000] {
        let mut g = plain_gun();
        g.period = period;
        s.guns.push(g);
    }
    s.cycle_weapon();
    assert_eq!(s.guns[0].period, 500);
    assert_eq!(s.guns[1].period, 1000);
    assert_eq!(s.guns[2].period, 50);
    // Cycling as many times as the inventory holds guns comes back
    // around to the starting order.
    s.cycle_weapon();
    s.cycle_weapon();
    assert_eq!(s.guns[0].period, 50);
    assert_eq!(s.guns[1].period, 500);
    assert_eq!(s.guns[2].period, 1000);
}

#[test]
fn pool_updates_through_entity_trait() {
    let mut pool: Vec<Particle> = vec![Particle {
        pos: Vec2 { x: 5 * ONE, y: 5 * ONE },
        vel: Vec2 { x: -100 * ONE, y: 0 },
        life: 9 * ONE,
        fade: 200,
    }];
    Entity::update(&mut pool, 100);
    assert_eq!(pool.len(), 0);
}
