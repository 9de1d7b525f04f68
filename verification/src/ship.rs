//! The ship controller: per-frame integration of position, velocity and
//! facing, inertial turning, wall bounce with quarter restitution,
//! thrust exhaust emission, the weapon inventory with cyclic selection,
//! and delegation of firing to the selected gun.

use vstd::prelude::*;
use crate::angle::{cos_mt, sin_mt, spec_cos, spec_sin};
use crate::fixed::{
    fmul, fmul_s, lemma_fmul_range, sbounded, valid_dt, DIR_LIMIT, DT_MAX, SHIP_LIMIT, WALL_MARGIN,
    WORLD_H, WORLD_W,
};
use crate::framebuf::{paint, pool_render, Framebuf};
use crate::gun::{discharge_rel, Gun};
use crate::particle::{pbounded, pool_step, Particle};
use crate::rng::Rng;
use crate::vec2::Vec2;

verus! {

/// Linear acceleration added along the facing by one thrust call.
pub const LIN_ACC: i64 = 120 * 1000;

/// Gain of the inertial turn blending, per second.
pub const ROT_ACC: i64 = 20 * 1000;

/// The full turn rate commanded while a turn key is held: one turn per
/// second, in thousandths of a turn.
pub const ROT_RATE: i64 = 1000;

/// Restitution of a wall bounce: a quarter, in fixed-point scale.
pub const BOUNCE_K: i64 = 250;

/// Exhaust particles spawned per thrusting frame.
pub const EXHAUST_COUNT: usize = 10;

/// Speed of the exhaust stream backwards along the facing.
pub const EXHAUST_SPEED: i64 = 50 * 1000;

/// Life of a fresh exhaust puff.
pub const EXHAUST_LIFE: i64 = 400;

/// Fade window of a fresh exhaust puff.
pub const EXHAUST_FADE: i64 = 300;

/// Bound of the sideways exhaust displacement draw.
pub const EXHAUST_SIDE: i64 = 200;

/// Bound of the backward exhaust displacement draw.
pub const EXHAUST_BACK: i64 = 200;

/// The player ship.
#[derive(Clone, Debug)]
pub struct Ship {
    /// Position in the world box.
    pub pos: Vec2,
    /// Facing, kept near unit length by rotating rather than adding.
    pub dir: Vec2,
    /// Velocity in grid steps per second.
    pub vel: Vec2,
    /// Acceleration accumulator; the frame driver clears it each frame.
    pub acc: Vec2,
    /// Current angular rate, thousandths of a turn per second.
    pub rot: i64,
    /// The weapon inventory; index zero is the selected gun.
    pub guns: Vec<Gun>,
    /// Whether thrust is held this frame.
    pub thrust: bool,
    /// The ship's live exhaust puffs.
    pub exhaust: Vec<Particle>,
    /// The ship's private random source, seeded at construction.
    pub rng: Rng,
}

/// Position component integrated by one frame.
pub open spec fn int_pos_x(o: Ship, dt: int) -> int {
    o.pos.x + fmul_s(o.vel.x as int, dt)
}

pub open spec fn int_pos_y(o: Ship, dt: int) -> int {
    o.pos.y + fmul_s(o.vel.y as int, dt)
}

/// Velocity component integrated by one frame.
pub open spec fn int_vel_x(o: Ship, dt: int) -> int {
    o.vel.x + fmul_s(o.acc.x as int, dt)
}

pub open spec fn int_vel_y(o: Ship, dt: int) -> int {
    o.vel.y + fmul_s(o.acc.y as int, dt)
}

/// The angle the facing turns through this frame.
pub open spec fn turn_angle(o: Ship, dt: int) -> int {
    fmul_s(o.rot as int, dt)
}

/// The facing after this frame's rotation.
pub open spec fn new_dir_x(o: Ship, dt: int) -> int {
    fmul_s(spec_cos(turn_angle(o, dt)), o.dir.x as int) - fmul_s(
        spec_sin(turn_angle(o, dt)),
        o.dir.y as int,
    )
}

pub open spec fn new_dir_y(o: Ship, dt: int) -> int {
    fmul_s(spec_sin(turn_angle(o, dt)), o.dir.x as int) + fmul_s(
        spec_cos(turn_angle(o, dt)),
        o.dir.y as int,
    )
}

/// The integrated position has crossed the wall margin on this axis.
pub open spec fn crossed(p: int, lo: int, hi: int) -> bool {
    p < lo || p > hi
}

/// The position component after wall handling: clamped to the margin.
pub open spec fn bounce_pos(p: int, lo: int, hi: int) -> int {
    if p < lo {
        lo
    } else if p > hi {
        hi
    } else {
        p
    }
}

/// The velocity component after wall handling: reflected and scaled by
/// the quarter restitution exactly when its wall was crossed.
pub open spec fn bounce_vel(p: int, v: int, lo: int, hi: int) -> int {
    if crossed(p, lo, hi) {
        -fmul_s(BOUNCE_K as int, v)
    } else {
        v
    }
}

/// An exhaust displacement draw is admissible.
pub open spec fn disp_ok(dxs: int, dys: int) -> bool {
    -EXHAUST_SIDE <= dxs < EXHAUST_SIDE && 0 <= dys < EXHAUST_BACK
}

/// The puff one exhaust draw produces: spawned at the ship, blown
/// backward along the facing with a sideways cone spread.
pub open spec fn spec_exhaust(pos: Vec2, vel: Vec2, dir: Vec2, dxs: int, dys: int) -> Particle {
    let ix = fmul_s(1000 + dys, dir.x as int) + fmul_s(dxs, -(dir.y as int));
    let iy = fmul_s(1000 + dys, dir.y as int) + fmul_s(dxs, dir.x as int);
    Particle {
        pos,
        vel: Vec2 {
            x: (vel.x - fmul_s(EXHAUST_SPEED as int, ix)) as i64,
            y: (vel.y - fmul_s(EXHAUST_SPEED as int, iy)) as i64,
        },
        life: EXHAUST_LIFE,
        fade: EXHAUST_FADE,
    }
}

/// The puff is one an admissible displacement draw produces.
pub open spec fn admissible_exhaust(b: Particle, pos: Vec2, vel: Vec2, dir: Vec2) -> bool {
    exists|dxs: int, dys: int|
        disp_ok(dxs, dys) && b == #[trigger] spec_exhaust(pos, vel, dir, dxs, dys)
}

/// A full thrusting frame's batch of exhaust puffs.
pub open spec fn exhaust_batch_ok(batch: Seq<Particle>, pos: Vec2, vel: Vec2, dir: Vec2) -> bool {
    batch.len() == EXHAUST_COUNT && forall|j: int|
        0 <= j < batch.len() ==> admissible_exhaust(#[trigger] batch[j], pos, vel, dir)
}

/// What one frame does to one gun: the selected gun's timer shrinks by
/// `dt`, every gun's bullet pool takes one update pass, the constants
/// are untouched.
pub open spec fn gun_stepped(og: Gun, ng: Gun, dt: int, active: bool) -> bool {
    &&& ng.period == og.period
    &&& ng.muzzle_vel == og.muzzle_vel
    &&& ng.spread == og.spread
    &&& ng.shots == og.shots
    &&& ng.cooldown == if active {
        og.cooldown - dt
    } else {
        og.cooldown as int
    }
    &&& ng.bullets@ == pool_step(og.bullets@, dt)
}

/// Everything one `Ship::update` call does, in the required order:
/// integrate, rotate the facing, clamp and bounce at the walls, emit the
/// exhaust batch when thrusting, run the cooldown and every pool.
pub open spec fn ship_update_rel(o: Ship, n: Ship, dt: int) -> bool {
    let npos = Vec2 {
        x: bounce_pos(int_pos_x(o, dt), WALL_MARGIN as int, WORLD_W - WALL_MARGIN) as i64,
        y: bounce_pos(int_pos_y(o, dt), WALL_MARGIN as int, WORLD_H - WALL_MARGIN) as i64,
    };
    let nvel = Vec2 {
        x: bounce_vel(
            int_pos_x(o, dt),
            int_vel_x(o, dt),
            WALL_MARGIN as int,
            WORLD_W - WALL_MARGIN,
        ) as i64,
        y: bounce_vel(
            int_pos_y(o, dt),
            int_vel_y(o, dt),
            WALL_MARGIN as int,
            WORLD_H - WALL_MARGIN,
        ) as i64,
    };
    let ndir = Vec2 { x: new_dir_x(o, dt) as i64, y: new_dir_y(o, dt) as i64 };
    &&& n.pos == npos
    &&& n.vel == nvel
    &&& n.dir == ndir
    &&& n.acc == o.acc
    &&& n.rot == o.rot
    &&& n.thrust == o.thrust
    &&& n.guns@.len() == o.guns@.len()
    &&& forall|i: int|
        0 <= i < o.guns@.len() ==> gun_stepped(#[trigger] o.guns@[i], n.guns@[i], dt, i == 0)
    &&& if o.thrust {
        exists|batch: Seq<Particle>|
            #[trigger] exhaust_batch_ok(batch, npos, nvel, ndir) && n.exhaust@ == pool_step(
                o.exhaust@ + batch,
                dt,
            )
    } else {
        n.exhaust@ == pool_step(o.exhaust@, dt)
    }
}

/// What one `Ship::fire` call does: nothing while the selected gun is
/// cooling down, otherwise one discharge of the selected gun from the
/// ship's current pose.
pub open spec fn fire_rel(o: Ship, n: Ship) -> bool {
    o.guns@.len() > 0 && if o.guns@[0].cooldown > 0 {
        n == o
    } else {
        &&& n.pos == o.pos
        &&& n.dir == o.dir
        &&& n.vel == o.vel
        &&& n.acc == o.acc
        &&& n.rot == o.rot
        &&& n.thrust == o.thrust
        &&& n.exhaust == o.exhaust
        &&& n.guns@.len() == o.guns@.len()
        &&& forall|i: int| 1 <= i < o.guns@.len() ==> n.guns@[i] == #[trigger] o.guns@[i]
        &&& discharge_rel(o.guns@[0], n.guns@[0], o.pos, o.dir, o.vel)
    }
}

/// The buffer after painting every gun's bullet pool, in inventory
/// order.
pub open spec fn paint_pools(data: Seq<u32>, w: int, h: int, guns: Seq<Gun>) -> Seq<u32>
    decreases guns.len(),
{
    if guns.len() == 0 {
        data
    } else {
        paint(paint_pools(data, w, h, guns.drop_last()), w, h, guns.last().bullets@)
    }
}

/// The three hull vertices: the apex ten units ahead along the facing,
/// the base corners at three tenths of that offset, rotated a quarter
/// turn to either side.
pub open spec fn spec_hull(s: Ship) -> (Vec2, Vec2, Vec2) {
    let dx = fmul_s(10_000, s.dir.x as int);
    let dy = fmul_s(10_000, s.dir.y as int);
    let px = fmul_s(300, -dy);
    let py = fmul_s(300, dx);
    (
        Vec2 { x: (s.pos.x + dx) as i64, y: (s.pos.y + dy) as i64 },
        Vec2 { x: (s.pos.x + px) as i64, y: (s.pos.y + py) as i64 },
        Vec2 { x: (s.pos.x - px) as i64, y: (s.pos.y - py) as i64 },
    )
}

/// The inventory rotated one step leftward: the selected gun moves to
/// the back, the next gun becomes selected.
pub open spec fn rotate_left_s(s: Seq<Gun>) -> Seq<Gun> {
    if s.len() == 0 {
        s
    } else {
        s.subrange(1, s.len() as int).push(s[0])
    }
}

impl Ship {
    /// Every field is admissible for one frame of update arithmetic.
    pub open spec fn inv(&self) -> bool {
        &&& self.pos.within(SHIP_LIMIT as int)
        &&& self.vel.within(SHIP_LIMIT as int)
        &&& self.acc.within(SHIP_LIMIT as int)
        &&& sbounded(self.rot as int)
        &&& self.dir.within(DIR_LIMIT as int)
        &&& forall|i: int| 0 <= i < self.guns@.len() ==> (#[trigger] self.guns@[i]).inv()
        &&& forall|k: int| 0 <= k < self.exhaust@.len() ==> pbounded(#[trigger] self.exhaust@[k])
    }

    /// Blends the angular rate toward `target_rate`: inertial turning
    /// rather than an instant snap.
    pub fn rotate(&mut self, target_rate: i64, dt: i64)
        requires
            old(self).inv(),
            -SHIP_LIMIT <= target_rate <= SHIP_LIMIT,
            valid_dt(dt as int),
        ensures
            final(self).rot == old(self).rot + fmul_s(
                fmul_s(ROT_ACC as int, dt as int),
                target_rate - old(self).rot,
            ),
            final(self).pos == old(self).pos,
            final(self).dir == old(self).dir,
            final(self).vel == old(self).vel,
            final(self).acc == old(self).acc,
            final(self).guns == old(self).guns,
            final(self).thrust == old(self).thrust,
            final(self).exhaust == old(self).exhaust,
            final(self).rng == old(self).rng,
    {
        proof {
            lemma_fmul_range(ROT_ACC as int, dt as int, 20_000, 30_000);
        }
        let t = fmul(ROT_ACC, dt);
        let d = target_rate - self.rot;
        proof {
            lemma_fmul_range(t as int, d as int, 600_000, 2_251_799_813_685_248);
        }
        self.rot = self.rot + fmul(t, d);
    }

    /// Accumulates the fixed linear acceleration along the facing and
    /// raises the thrust flag for this frame.
    pub fn thrust(&mut self)
        requires
            old(self).inv(),
        ensures
            final(self).acc == (Vec2 {
                x: (old(self).acc.x + fmul_s(LIN_ACC as int, old(self).dir.x as int)) as i64,
                y: (old(self).acc.y + fmul_s(LIN_ACC as int, old(self).dir.y as int)) as i64,
            }),
            final(self).thrust,
            final(self).pos == old(self).pos,
            final(self).dir == old(self).dir,
            final(self).vel == old(self).vel,
            final(self).rot == old(self).rot,
            final(self).guns == old(self).guns,
            final(self).exhaust == old(self).exhaust,
            final(self).rng == old(self).rng,
    {
        proof {
            lemma_fmul_range(LIN_ACC as int, self.dir.x as int, 120_000, DIR_LIMIT as int);
            lemma_fmul_range(LIN_ACC as int, self.dir.y as int, 120_000, DIR_LIMIT as int);
        }
        self.acc = Vec2 {
            x: self.acc.x + fmul(LIN_ACC, self.dir.x),
            y: self.acc.y + fmul(LIN_ACC, self.dir.y),
        };
        self.thrust = true;
    }

    /// Fires the selected gun (index zero): a no-op while its cooldown
    /// timer is positive, otherwise one full discharge.
    pub fn fire(&mut self)
        requires
            old(self).inv(),
            old(self).guns@.len() >= 1,
        ensures
            fire_rel(*old(self), *final(self)),
            final(self).inv(),
    {
        if self.guns[0].cooldown > 0 {
            return ;
        }
        let mut g = self.guns.remove(0);
        proof {
            assert(old(self).guns@[0].inv());
        }
        g.discharge(self.pos, self.dir, self.vel, &mut self.rng);
        self.guns.insert(0, g);
        proof {
            assert forall|i: int| 1 <= i < old(self).guns@.len() implies self.guns@[i] == old(
                self,
            ).guns@[i] by {
                assert(self.guns@[i] == old(self).guns@.remove(0)[i - 1]);
            }
        }
    }

    /// Rotates the weapon inventory one step leftward.
    pub fn cycle_weapon(&mut self)
        ensures
            final(self).guns@ == rotate_left_s(old(self).guns@),
            final(self).pos == old(self).pos,
            final(self).dir == old(self).dir,
            final(self).vel == old(self).vel,
            final(self).acc == old(self).acc,
            final(self).rot == old(self).rot,
            final(self).thrust == old(self).thrust,
            final(self).exhaust == old(self).exhaust,
            final(self).rng == old(self).rng,
    {
        if self.guns.len() > 0 {
            let g = self.guns.remove(0);
            self.guns.push(g);
            proof {
                assert(self.guns@ =~= rotate_left_s(old(self).guns@));
            }
        }
    }

    /// One frame of the ship: integrate, rotate the facing, handle the
    /// walls, emit exhaust while thrusting, run the selected gun's
    /// cooldown and every particle pool.
    pub fn update(&mut self, dt: i64)
        requires
            old(self).inv(),
            valid_dt(dt as int),
        ensures
            ship_update_rel(*old(self), *final(self), dt as int),
            WALL_MARGIN <= final(self).pos.x <= WORLD_W - WALL_MARGIN,
            WALL_MARGIN <= final(self).pos.y <= WORLD_H - WALL_MARGIN,
    {
        proof {
            lemma_fmul_range(self.vel.x as int, dt as int, SHIP_LIMIT as int, DT_MAX as int);
            lemma_fmul_range(self.vel.y as int, dt as int, SHIP_LIMIT as int, DT_MAX as int);
            lemma_fmul_range(self.acc.x as int, dt as int, SHIP_LIMIT as int, DT_MAX as int);
            lemma_fmul_range(self.acc.y as int, dt as int, SHIP_LIMIT as int, DT_MAX as int);
            lemma_fmul_range(self.rot as int, dt as int, SHIP_LIMIT as int, DT_MAX as int);
        }
        let px = self.pos.x + fmul(self.vel.x, dt);
        let py = self.pos.y + fmul(self.vel.y, dt);
        let vx = self.vel.x + fmul(self.acc.x, dt);
        let vy = self.vel.y + fmul(self.acc.y, dt);
        let ang = fmul(self.rot, dt);
        let c = cos_mt(ang);
        let s = sin_mt(ang);
        proof {
            lemma_fmul_range(c as int, self.dir.x as int, 1000, DIR_LIMIT as int);
            lemma_fmul_range(c as int, self.dir.y as int, 1000, DIR_LIMIT as int);
            lemma_fmul_range(s as int, self.dir.x as int, 1000, DIR_LIMIT as int);
            lemma_fmul_range(s as int, self.dir.y as int, 1000, DIR_LIMIT as int);
            lemma_fmul_range(BOUNCE_K as int, vx as int, 250, 35_000_000_000_000_000);
            lemma_fmul_range(BOUNCE_K as int, vy as int, 250, 35_000_000_000_000_000);
        }
        let ndx = fmul(c, self.dir.x) - fmul(s, self.dir.y);
        let ndy = fmul(s, self.dir.x) + fmul(c, self.dir.y);
        let (bx, bvx) = if px < WALL_MARGIN {
            (WALL_MARGIN, -fmul(BOUNCE_K, vx))
        } else if px > WORLD_W - WALL_MARGIN {
            (WORLD_W - WALL_MARGIN, -fmul(BOUNCE_K, vx))
        } else {
            (px, vx)
        };
        let (by, bvy) = if py < WALL_MARGIN {
            (WALL_MARGIN, -fmul(BOUNCE_K, vy))
        } else if py > WORLD_H - WALL_MARGIN {
            (WORLD_H - WALL_MARGIN, -fmul(BOUNCE_K, vy))
        } else {
            (py, vy)
        };
        self.pos = Vec2 { x: bx, y: by };
        self.vel = Vec2 { x: bvx, y: bvy };
        self.dir = Vec2 { x: ndx, y: ndy };
        let ghost o = *old(self);
        let ghost mid = *self;
        let ghost estart = self.exhaust@;
        if self.thrust {
            let mut j: usize = 0;
            while j < EXHAUST_COUNT
                invariant
                    j <= EXHAUST_COUNT,
                    self.pos == mid.pos,
                    self.vel == mid.vel,
                    self.dir == mid.dir,
                    self.acc == mid.acc,
                    self.rot == mid.rot,
                    self.thrust == mid.thrust,
                    self.guns == mid.guns,
                    mid.pos.within(SHIP_LIMIT as int),
                    mid.vel.within(35_000_000_000_000_000),
                    mid.dir.within(4_000_000),
                    0 <= mid.pos.x <= WORLD_W,
                    0 <= mid.pos.y <= WORLD_H,
                    self.exhaust@.len() == estart.len() + j,
                    self.exhaust@.subrange(0, estart.len() as int) == estart,
                    forall|t: int|
                        estart.len() <= t < self.exhaust@.len() ==> admissible_exhaust(
                            #[trigger] self.exhaust@[t],
                            mid.pos,
                            mid.vel,
                            mid.dir,
                        ),
                    forall|t: int|
                        0 <= t < self.exhaust@.len() ==> pbounded(#[trigger] self.exhaust@[t]),
                decreases EXHAUST_COUNT - j,
            {
                let dxs = (self.rng.draw(400) as i64) - 200;
                let dys = self.rng.draw(200) as i64;
                proof {
                    lemma_fmul_range(1000 + dys, self.dir.x as int, 1200, 4_000_000);
                    lemma_fmul_range(1000 + dys, self.dir.y as int, 1200, 4_000_000);
                    lemma_fmul_range(dxs as int, -(self.dir.y as int), 200, 4_000_000);
                    lemma_fmul_range(dxs as int, self.dir.x as int, 200, 4_000_000);
                }
                let ix = fmul(1000 + dys, self.dir.x) + fmul(dxs, -self.dir.y);
                let iy = fmul(1000 + dys, self.dir.y) + fmul(dxs, self.dir.x);
                proof {
                    lemma_fmul_range(EXHAUST_SPEED as int, ix as int, 50_000, 5_600_000);
                    lemma_fmul_range(EXHAUST_SPEED as int, iy as int, 50_000, 5_600_000);
                }
                let b = Particle {
                    pos: self.pos,
                    vel: Vec2 {
                        x: self.vel.x - fmul(EXHAUST_SPEED, ix),
                        y: self.vel.y - fmul(EXHAUST_SPEED, iy),
                    },
                    life: EXHAUST_LIFE,
                    fade: EXHAUST_FADE,
                };
                self.exhaust.push(b);
                proof {
                    assert(disp_ok(dxs as int, dys as int));
                    assert(self.exhaust@.last() == spec_exhaust(
                        mid.pos,
                        mid.vel,
                        mid.dir,
                        dxs as int,
                        dys as int,
                    ));
                    assert(admissible_exhaust(self.exhaust@.last(), mid.pos, mid.vel, mid.dir));
                    assert(self.exhaust@.subrange(0, estart.len() as int) =~= estart);
                }
                j += 1;
            }
        }
        let ghost pre_pool = self.exhaust@;
        crate::particle::pool_update(&mut self.exhaust, dt);
        proof {
            if o.thrust {
                let batch = pre_pool.subrange(estart.len() as int, pre_pool.len() as int);
                assert(pre_pool =~= estart + batch);
                assert forall|t: int| 0 <= t < batch.len() implies admissible_exhaust(
                    #[trigger] batch[t],
                    mid.pos,
                    mid.vel,
                    mid.dir,
                ) by {
                    assert(batch[t] == pre_pool[estart.len() + t]);
                }
                assert(exhaust_batch_ok(batch, mid.pos, mid.vel, mid.dir));
                assert(self.exhaust@ == pool_step(o.exhaust@ + batch, dt as int));
            } else {
                assert(pre_pool == estart);
            }
        }
        let ghost fin = *self;
        let ghost gsnap = self.guns@;
        let guns_n = self.guns.len();
        let mut i: usize = 0;
        while i < guns_n
            invariant
                i <= guns_n,
                self.guns@.len() == guns_n,
                gsnap.len() == guns_n,
                valid_dt(dt as int),
                forall|t: int| 0 <= t < gsnap.len() ==> (#[trigger] gsnap[t]).inv(),
                forall|t: int| 0 <= t < guns_n - i ==> self.guns@[t] == gsnap[t + i],
                forall|t: int|
                    guns_n - i <= t < guns_n ==> gun_stepped(
                        gsnap[t - (guns_n - i)],
                        #[trigger] self.guns@[t],
                        dt as int,
                        t - (guns_n - i) == 0,
                    ),
                self.pos == fin.pos,
                self.vel == fin.vel,
                self.dir == fin.dir,
                self.acc == fin.acc,
                self.rot == fin.rot,
                self.thrust == fin.thrust,
                self.exhaust == fin.exhaust,
            decreases guns_n - i,
        {
            let mut g = self.guns.remove(0);
            proof {
                assert(gsnap[i as int].inv());
            }
            if i == 0 {
                g.cooldown = g.cooldown - dt;
            }
            crate::particle::pool_update(&mut g.bullets, dt);
            self.guns.push(g);
            i += 1;
        }
        proof {
            assert forall|t: int| 0 <= t < o.guns@.len() implies gun_stepped(
                #[trigger] o.guns@[t],
                self.guns@[t],
                dt as int,
                t == 0,
            ) by {
                assert(gun_stepped(gsnap[t], self.guns@[t], dt as int, t == 0));
            }
            assert(ship_update_rel(o, *self, dt as int));
        }
    }

    /// Draws the exhaust pool, then every gun's bullet pool, into the
    /// 2D target. The hull triangle's three segments are drawn by the
    /// line rasterizer of the rendering layer, between the vertices
    /// `hull_points` computes.
    pub fn render(&self, buf: &mut Framebuf)
        requires
            old(buf).inv(),
        ensures
            final(buf).inv(),
            final(buf).width == old(buf).width,
            final(buf).height == old(buf).height,
            final(buf).data@ == paint_pools(
                paint(
                    old(buf).data@,
                    old(buf).width as int,
                    old(buf).height as int,
                    self.exhaust@,
                ),
                old(buf).width as int,
                old(buf).height as int,
                self.guns@,
            ),
    {
        pool_render(&self.exhaust, buf);
        let ghost base = buf.data@;
        let n = self.guns.len();
        let mut i: usize = 0;
        while i < n
            invariant
                i <= n,
                n == self.guns@.len(),
                buf.inv(),
                buf.width == old(buf).width,
                buf.height == old(buf).height,
                buf.data@ == paint_pools(
                    base,
                    buf.width as int,
                    buf.height as int,
                    self.guns@.subrange(0, i as int),
                ),
            decreases n - i,
        {
            let g = &self.guns[i];
            pool_render(&g.bullets, buf);
            proof {
                assert(self.guns@.subrange(0, i + 1).drop_last() =~= self.guns@.subrange(
                    0,
                    i as int,
                ));
                assert(self.guns@.subrange(0, i + 1).last() == self.guns@[i as int]);
            }
            i += 1;
        }
        proof {
            assert(self.guns@.subrange(0, n as int) =~= self.guns@);
        }
    }

    /// The hull triangle's vertices, exactly `spec_hull`.
    pub fn hull_points(&self) -> (r: (Vec2, Vec2, Vec2))
        requires
            self.inv(),
        ensures
            r == spec_hull(*self),
    {
        proof {
            lemma_fmul_range(10_000, self.dir.x as int, 10_000, DIR_LIMIT as int);
            lemma_fmul_range(10_000, self.dir.y as int, 10_000, DIR_LIMIT as int);
        }
        let dx = fmul(10_000, self.dir.x);
        let dy = fmul(10_000, self.dir.y);
        proof {
            lemma_fmul_range(300, -(dy as int), 300, 20_000_000);
            lemma_fmul_range(300, dx as int, 300, 20_000_000);
        }
        let px = fmul(300, -dy);
        let py = fmul(300, dx);
        (
            Vec2 { x: self.pos.x + dx, y: self.pos.y + dy },
            Vec2 { x: self.pos.x + px, y: self.pos.y + py },
            Vec2 { x: self.pos.x - px, y: self.pos.y - py },
        )
    }
}

} // verus!
