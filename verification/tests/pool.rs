use retrorocket::fixed::{ONE, WORLD_H, WORLD_W};
use retrorocket::particle::{pool_update, spawn, Particle};
use retrorocket::vec2::Vec2;

fn part(px: i64, py: i64, vx: i64, vy: i64, life: i64, fade: i64) -> Particle {
    Particle {
        pos: Vec2 { x: px, y: py },
        vel: Vec2 { x: vx, y: vy },
        life,
        fade,
    }
}

#[test]
fn spawn_appends() {
    let mut pool: Vec<Particle> = Vec::new();
    spawn(&mut pool, part(ONE, ONE, 0, 0, 2 * ONE, 200));
    spawn(&mut pool, part(2 * ONE, ONE, 0, 0, 2 * ONE, 200));
    assert_eq!(pool.len(), 2);
    assert_eq!(pool[0].pos.x, ONE);
    assert_eq!(pool[1].pos.x, 2 * ONE);
}

#[test]
fn update_integrates_and_decrements() {
    let mut pool = vec![part(10 * ONE, 10 * ONE, 20 * ONE, 0, 2 * ONE, 200)];
    pool_update(&mut pool, 500);
    assert_eq!(pool.len(), 1);
    assert_eq!(pool[0].pos.x, 20 * ONE);
    assert_eq!(pool[0].pos.y, 10 * ONE);
    assert_eq!(pool[0].life, 2 * ONE - 500);
    assert_eq!(pool[0].vel.x, 20 * ONE);
}

#[test]
fn left_exit_removed_same_update() {
    // A particle at (5, 5) moving at (-100, 0): one tenth of a second
    // later it sits at (-5, 5), outside the world, so it is gone this
    // very update, whatever life it had left.
    let mut pool = vec![part(5 * ONE, 5 * ONE, -100 * ONE, 0, 9 * ONE, 200)];
    pool_update(&mut pool, 100);
    assert_eq!(pool.len(), 0);
}

#[test]
fn boundary_is_half_open() {
    // Landing exactly on the width coordinate counts as out of bounds.
    let mut pool = vec![
        part(WORLD_W - ONE, 5 * ONE, ONE, 0, 9 * ONE, 200),
        part(WORLD_W - ONE - 1, 5 * ONE, ONE, 0, 9 * ONE, 200),
        part(5 * ONE, WORLD_H - ONE, 0, ONE, 9 * ONE, 200),
    ];
    pool_update(&mut pool, ONE);
    assert_eq!(pool.len(), 1);
    assert_eq!(pool[0].pos.x, WORLD_W - 1);
}

#[test]
fn life_zero_removed() {
    let mut pool = vec![part(5 * ONE, 5 * ONE, 0, 0, 100, 50)];
    pool_update(&mut pool, 100);
    assert_eq!(pool.len(), 0);
}

#[test]
fn adjacent_deaths_do_not_skip() {
    // Two dead particles standing next to each other must both leave,
    // and the survivors behind them must still be stepped.
    let mut pool = vec![
        part(5 * ONE, 5 * ONE, 0, 0, 50, 50),
        part(6 * ONE, 5 * ONE, 0, 0, 50, 50),
        part(7 * ONE, 5 * ONE, ONE, 0, 2 * ONE, 200),
        part(8 * ONE, 5 * ONE, 0, 0, 50, 50),
        part(9 * ONE, 5 * ONE, 0, 0, 2 * ONE, 200),
    ];
    pool_update(&mut pool, 100);
    assert_eq!(pool.len(), 2);
    assert_eq!(pool[0].pos.x, 7 * ONE + 100);
    assert_eq!(pool[0].life, 2 * ONE - 100);
    assert_eq!(pool[1].pos.x, 9 * ONE);
}

#[test]
fn empty_pool_is_noop() {
    let mut pool: Vec<Particle> = Vec::new();
    pool_update(&mut pool, 100);
    assert_eq!(pool.len(), 0);
}
