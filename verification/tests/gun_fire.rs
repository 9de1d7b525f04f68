use retrorocket::fixed::ONE;
use retrorocket::gun::{Gun, Polar, BULLET_FADE, BULLET_LIFE};
use retrorocket::rng::Rng;
use retrorocket::ship::Ship;
use retrorocket::vec2::Vec2;

fn gun(period: i64, muzzle: i64, radius: i64, azimuth: i64, shots: u32) -> Gun {
    Gun {
        cooldown: 0,
        period,
        muzzle_vel: muzzle,
        spread: Polar { radius, azimuth },
        shots,
        bullets: Vec::new(),
    }
}

fn ship_with(g: Gun) -> Ship {
    Ship {
        pos: Vec2 { x: 320 * ONE, y: 180 * ONE },
        dir: Vec2 { x: 0, y: -ONE },
        vel: Vec2 { x: 0, y: 0 },
        acc: Vec2 { x: 0, y: 0 },
        rot: 0,
        guns: vec![g],
        thrust: false,
        exhaust: Vec::new(),
        rng: Rng::new(7),
    }
}

#[test]
fn zero_spread_single_shot_is_exact() {
    // Ship at (320, 180) facing straight up, at rest, gun off cooldown:
    // one shot with no spread lands ten units ahead with the full
    // muzzle velocity and fresh bullet life.
    let mut s = ship_with(gun(50, 400 * ONE, 0, 0, 1));
    s.fire();
    assert_eq!(s.guns[0].bullets.len(), 1);
    let b = s.guns[0].bullets[0];
    assert_eq!(b.pos.x, 320 * ONE);
    assert_eq!(b.pos.y, 170 * ONE);
    assert_eq!(b.vel.x, 0);
    assert_eq!(b.vel.y, -400 * ONE);
    assert_eq!(b.life, BULLET_LIFE);
    assert_eq!(b.fade, BULLET_FADE);
    assert_eq!(s.guns[0].cooldown, 50);
}

#[test]
fn cooldown_blocks_second_volley() {
    let mut s = ship_with(gun(500, 300 * ONE, 0, 0, 2));
    s.fire();
    assert_eq!(s.guns[0].bullets.len(), 2);
    assert_eq!(s.guns[0].cooldown, 500);
    // Still cooling down: the second pull does nothing at all.
    s.fire();
    assert_eq!(s.guns[0].bullets.len(), 2);
    assert_eq!(s.guns[0].cooldown, 500);
    // Less than the period has elapsed: still nothing.
    s.update(400);
    s.fire();
    assert_eq!(s.guns[0].bullets.len(), 2);
    // The period has fully elapsed: a second volley comes.
    s.update(100);
    s.fire();
    assert_eq!(s.guns[0].bullets.len(), 4);
}

#[test]
fn shots_count_is_exact() {
    let mut s = ship_with(gun(500, 300 * ONE, 200, 14, 20));
    s.fire();
    assert_eq!(s.guns[0].bullets.len(), 20);
    for b in &s.guns[0].bullets {
        assert_eq!(b.life, BULLET_LIFE);
        assert_eq!(b.fade, BULLET_FADE);
        assert_eq!(b.pos.x, 320 * ONE);
        assert_eq!(b.pos.y, 170 * ONE);
    }
}

#[test]
fn zero_shots_still_resets_cooldown() {
    let mut s = ship_with(gun(750, 300 * ONE, 0, 0, 0));
    s.fire();
    assert_eq!(s.guns[0].bullets.len(), 0);
    assert_eq!(s.guns[0].cooldown, 750);
}

#[test]
fn fire_uses_selected_gun_only() {
    let mut s = ship_with(gun(50, 400 * ONE, 0, 0, 1));
    s.guns.push(gun(900, 300 * ONE, 0, 0, 5));
    s.fire();
    assert_eq!(s.guns[0].bullets.len(), 1);
    assert_eq!(s.guns[1].bullets.len(), 0);
    assert_eq!(s.guns[1].cooldown, 0);
}

#[test]
fn spread_volley_actually_disperses() {
    // With a wide angular spread the twenty bullets of one volley must
    // not all share a velocity: the draws are threaded through the
    // ship's generator shot by shot.
    let mut s = ship_with(gun(500, 300 * ONE, 200, 100, 20));
    s.fire();
    let first = s.guns[0].bullets[0].vel;
    assert!(s.guns[0].bullets.iter().any(|b| b.vel != first));
}

#[test]
fn cycling_an_empty_inventory_is_a_noop() {
    let mut s = ship_with(gun(50, 400 * ONE, 0, 0, 1));
    s.guns = Vec::new();
    s.cycle_weapon();
    assert_eq!(s.guns.len(), 0);
}
