use retrorocket::entity::Emitter;
use retrorocket::fixed::ONE;
use retrorocket::framebuf::{particle_color, pool_render, Framebuf};
use retrorocket::gun::{Gun, Polar};
use retrorocket::level::Level;
use retrorocket::particle::Particle;
use retrorocket::rng::Rng;
use retrorocket::rock::Rock;
use retrorocket::ship::Ship;
use retrorocket::vec2::Vec2;

fn ship() -> Ship {
    Ship {
        pos: Vec2 { x: 320 * ONE, y: 180 * ONE },
        dir: Vec2 { x: 0, y: -ONE },
        vel: Vec2 { x: 0, y: 0 },
        acc: Vec2 { x: 0, y: 0 },
        rot: 0,
        guns: vec![Gun {
            cooldown: 0,
            period: 50,
            muzzle_vel: 400 * ONE,
            spread: Polar { radius: 0, azimuth: 0 },
            shots: 1,
            bullets: Vec::new(),
        }],
        thrust: false,
        exhaust: Vec::new(),
        rng: Rng::new(1),
    }
}

fn rock() -> Rock {
    Rock {
        pos: Vec2 { x: 200 * ONE, y: 100 * ONE },
        azimuth: 0,
        altitude: 0,
        vel: Vec2 { x: 20 * ONE, y: 7 * ONE },
    }
}

#[test]
fn rock_drifts_at_fixed_rates() {
    let mut r = rock();
    r.update(1000);
    assert_eq!(r.pos.x, 220 * ONE);
    assert_eq!(r.pos.y, 107 * ONE);
    assert_eq!(r.azimuth, 100);
    assert_eq!(r.altitude, 120);
    assert_eq!(r.vel.x, 20 * ONE);
    r.update(500);
    assert_eq!(r.azimuth, 150);
    assert_eq!(r.altitude, 180);
}

#[test]
fn level_fans_out_one_tick() {
    let mut level = Level { player: ship(), rock: rock() };
    level.update(100);
    assert_eq!(level.rock.pos.x, 202 * ONE);
    assert_eq!(level.player.pos.x, 320 * ONE);
    assert_eq!(level.player.guns[0].cooldown, -100);
}

#[test]
fn hull_vertices_sit_around_the_ship() {
    let s = ship();
    let (a, b, c) = s.hull_points();
    assert_eq!(a, Vec2 { x: 320 * ONE, y: 170 * ONE });
    assert_eq!(b, Vec2 { x: 323 * ONE, y: 180 * ONE });
    assert_eq!(c, Vec2 { x: 317 * ONE, y: 180 * ONE });
}

#[test]
fn particle_pixel_is_yellow_with_linear_fade() {
    assert_eq!(particle_color(2 * ONE, 200), 0x00FF_FF00);
    assert_eq!(particle_color(100, 200), 0x007F_7F00);
    assert_eq!(particle_color(0, 200), 0);
    assert_eq!(particle_color(-5, 200), 0);
}

#[test]
fn render_paints_single_pixels_inside_the_grid() {
    let mut buf = Framebuf::new(640, 360);
    let pool = vec![
        Particle {
            pos: Vec2 { x: 5 * ONE + 500, y: 2 * ONE + 900 },
            vel: Vec2 { x: 0, y: 0 },
            life: ONE,
            fade: 200,
        },
        Particle {
            pos: Vec2 { x: -ONE, y: 2 * ONE },
            vel: Vec2 { x: 0, y: 0 },
            life: ONE,
            fade: 200,
        },
    ];
    pool_render(&pool, &mut buf);
    assert_eq!(buf.data[2 * 640 + 5], 0x00FF_FF00);
    let painted = buf.data.iter().filter(|&&c| c != 0).count();
    assert_eq!(painted, 1);
}

#[test]
fn level_render_draws_bullets() {
    let mut level = Level { player: ship(), rock: rock() };
    level.player.fire();
    let mut buf = Framebuf::new(640, 360);
    level.render(&mut buf);
    // The single bullet sits ten units ahead of the ship.
    assert_eq!(buf.data[170 * 640 + 320], 0x00FF_FF00);
}

#[test]
fn emitter_holds_a_rate_and_a_pool() {
    let e = Emitter { rate: 5 * ONE, particles: Vec::new() };
    assert_eq!(e.rate, 5 * ONE);
    assert_eq!(e.particles.len(), 0);
}
