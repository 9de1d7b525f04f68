//! The weapon model: a cooldown timer against a fixed period, a polar
//! spread, and an owned pool of live bullets. Discharging spawns exactly
//! `shots` bullets, each perturbed by a radial draw in `[0, radius)` and
//! an angular draw in `[-azimuth, azimuth]`, then resets the timer to
//! the period whatever `shots` was.

use vstd::prelude::*;
use crate::angle::{cos_mt, sin_mt, spec_cos, spec_sin};
use crate::fixed::{fmul, fmul_s, lemma_fmul_range, sbounded, DIR_LIMIT, SHIP_LIMIT};
use crate::particle::{pbounded, Particle};
use crate::rng::Rng;
use crate::vec2::Vec2;

verus! {

/// Bound on the radial spread scalar: up to one added unit of speed.
pub const SPREAD_MAX: i64 = 1_000_000;

/// Bound on the angular spread: two full turns, in thousandths of a turn.
pub const AZIMUTH_MAX: i64 = 2_000;

/// Bound on a muzzle velocity, in grid steps per second.
pub const MUZZLE_MAX: i64 = 1_000_000_000;

/// Life of a fresh bullet: two seconds.
pub const BULLET_LIFE: i64 = 2_000;

/// Fade window of a fresh bullet: a fifth of a second.
pub const BULLET_FADE: i64 = 200;

/// How far ahead of the hull a bullet spawns: ten units along the facing.
pub const MUZZLE_OFFSET: i64 = 10 * 1000;

/// The polar spread of a weapon: a radial bound (fixed-point scalar) and
/// an angular bound (thousandths of a turn).
#[derive(Clone, Copy, Debug, PartialEq, Eq, Structural)]
pub struct Polar {
    pub radius: i64,
    pub azimuth: i64,
}

/// A weapon in the ship's inventory.
#[derive(Clone, Debug)]
pub struct Gun {
    /// Seconds remaining until the next shot is allowed.
    pub cooldown: i64,
    /// The constant the timer is reset to after firing.
    pub period: i64,
    /// Bullet speed added along the perturbed facing.
    pub muzzle_vel: i64,
    /// Random perturbation bounds for each shot.
    pub spread: Polar,
    /// Bullets spawned per trigger pull.
    pub shots: u32,
    /// The gun's live bullets.
    pub bullets: Vec<Particle>,
}

/// A radial draw is admissible: inside `[0, radius)`, or zero when the
/// radial bound itself is zero.
pub open spec fn radial_ok(r: int, radius: int) -> bool {
    if radius > 0 {
        0 <= r < radius
    } else {
        r == 0
    }
}

/// An angular draw is admissible: inside `[-azimuth, azimuth]`.
pub open spec fn angular_ok(a: int, azimuth: int) -> bool {
    -azimuth <= a <= azimuth
}

/// The bullet a single shot produces, given the ship's pose, the gun's
/// muzzle velocity, and the two spread draws: position ten units ahead
/// along the facing, velocity the ship's plus the muzzle velocity along
/// the facing scaled up by the radial draw and rotated by the angular
/// draw.
pub open spec fn spec_bullet(pos: Vec2, dir: Vec2, vel: Vec2, muzzle: i64, r: int, a: int) -> Particle {
    let c = spec_cos(a);
    let s = spec_sin(a);
    let f = 1000 + r;
    let tx = fmul_s(fmul_s(f, c), dir.x as int) + fmul_s(s, -(dir.y as int));
    let ty = fmul_s(fmul_s(f, c), dir.y as int) + fmul_s(s, dir.x as int);
    Particle {
        pos: Vec2 {
            x: (pos.x + fmul_s(MUZZLE_OFFSET as int, dir.x as int)) as i64,
            y: (pos.y + fmul_s(MUZZLE_OFFSET as int, dir.y as int)) as i64,
        },
        vel: Vec2 {
            x: (vel.x + fmul_s(muzzle as int, tx)) as i64,
            y: (vel.y + fmul_s(muzzle as int, ty)) as i64,
        },
        life: BULLET_LIFE,
        fade: BULLET_FADE,
    }
}

/// The bullet is one a single admissible pair of spread draws produces
/// from the given pose and muzzle velocity.
pub open spec fn admissible_bullet(
    b: Particle,
    pos: Vec2,
    dir: Vec2,
    vel: Vec2,
    muzzle: i64,
    radius: int,
    azimuth: int,
) -> bool {
    exists|r: int, a: int|
        radial_ok(r, radius) && angular_ok(a, azimuth) && b == #[trigger] spec_bullet(
            pos,
            dir,
            vel,
            muzzle,
            r,
            a,
        )
}

/// What one discharge does to a gun: timer reset to the period, exactly
/// `shots` admissible bullets appended, everything else untouched.
pub open spec fn discharge_rel(og: Gun, ng: Gun, pos: Vec2, dir: Vec2, vel: Vec2) -> bool {
    &&& ng.period == og.period
    &&& ng.muzzle_vel == og.muzzle_vel
    &&& ng.spread == og.spread
    &&& ng.shots == og.shots
    &&& ng.cooldown == og.period
    &&& ng.bullets@.len() == og.bullets@.len() + og.shots
    &&& ng.bullets@.subrange(0, og.bullets@.len() as int) == og.bullets@
    &&& forall|j: int|
        og.bullets@.len() <= j < ng.bullets@.len() ==> admissible_bullet(
            #[trigger] ng.bullets@[j],
            pos,
            dir,
            vel,
            og.muzzle_vel,
            og.spread.radius as int,
            og.spread.azimuth as int,
        )
}

impl Gun {
    /// The gun's fields are admissible for fire arithmetic and every
    /// bullet is admissible pool content.
    pub open spec fn inv(&self) -> bool {
        &&& sbounded(self.cooldown as int)
        &&& 0 <= self.period <= SHIP_LIMIT
        &&& 0 <= self.muzzle_vel <= MUZZLE_MAX
        &&& 0 <= self.spread.radius <= SPREAD_MAX
        &&& 0 <= self.spread.azimuth <= AZIMUTH_MAX
        &&& forall|k: int| 0 <= k < self.bullets@.len() ==> pbounded(#[trigger] self.bullets@[k])
    }

    /// Spawns the gun's batch of bullets from the given ship pose and
    /// resets the cooldown timer; the cooldown gate itself is the
    /// caller's check. Spawns nothing when `shots` is zero, but still
    /// resets the timer.
    pub fn discharge(&mut self, pos: Vec2, dir: Vec2, vel: Vec2, rng: &mut Rng)
        requires
            old(self).inv(),
            pos.within(SHIP_LIMIT as int),
            dir.within(DIR_LIMIT as int),
            vel.within(SHIP_LIMIT as int),
        ensures
            discharge_rel(*old(self), *final(self), pos, dir, vel),
            final(self).inv(),
    {
        let ghost og = *self;
        let shots = self.shots;
        let mut k: u32 = 0;
        while k < shots
            invariant
                self.period == og.period,
                self.muzzle_vel == og.muzzle_vel,
                self.spread == og.spread,
                self.shots == og.shots,
                self.cooldown == og.cooldown,
                og.inv(),
                pos.within(SHIP_LIMIT as int),
                dir.within(DIR_LIMIT as int),
                vel.within(SHIP_LIMIT as int),
                k <= shots,
                shots == og.shots,
                self.bullets@.len() == og.bullets@.len() + k,
                self.bullets@.subrange(0, og.bullets@.len() as int) == og.bullets@,
                forall|j: int|
                    og.bullets@.len() <= j < self.bullets@.len() ==> admissible_bullet(
                        #[trigger] self.bullets@[j],
                        pos,
                        dir,
                        vel,
                        og.muzzle_vel,
                        og.spread.radius as int,
                        og.spread.azimuth as int,
                    ),
                forall|j: int| 0 <= j < self.bullets@.len() ==> pbounded(#[trigger] self.bullets@[j]),
            decreases shots - k,
        {
            let rdraw = rng.draw(self.spread.radius as u64);
            let r = rdraw as i64;
            let span = (2 * self.spread.azimuth + 1) as u64;
            let adraw = rng.draw(span);
            let a = (adraw as i64) - self.spread.azimuth;
            let c = cos_mt(a);
            let s = sin_mt(a);
            let f = 1000 + r;
            proof {
                lemma_fmul_range(f as int, c as int, 1_001_000, 1000);
            }
            let fc = fmul(f, c);
            proof {
                lemma_fmul_range(fc as int, dir.x as int, 1_001_000, DIR_LIMIT as int);
                lemma_fmul_range(fc as int, dir.y as int, 1_001_000, DIR_LIMIT as int);
                lemma_fmul_range(s as int, -(dir.y as int), 1000, DIR_LIMIT as int);
                lemma_fmul_range(s as int, dir.x as int, 1000, DIR_LIMIT as int);
            }
            let tx = fmul(fc, dir.x) + fmul(s, -dir.y);
            let ty = fmul(fc, dir.y) + fmul(s, dir.x);
            proof {
                lemma_fmul_range(self.muzzle_vel as int, tx as int, MUZZLE_MAX as int, 2_004_002_000);
                lemma_fmul_range(self.muzzle_vel as int, ty as int, MUZZLE_MAX as int, 2_004_002_000);
                lemma_fmul_range(MUZZLE_OFFSET as int, dir.x as int, 10_000, DIR_LIMIT as int);
                lemma_fmul_range(MUZZLE_OFFSET as int, dir.y as int, 10_000, DIR_LIMIT as int);
            }
            let b = Particle {
                pos: Vec2 { x: pos.x + fmul(MUZZLE_OFFSET, dir.x), y: pos.y + fmul(MUZZLE_OFFSET, dir.y) },
                vel: Vec2 { x: vel.x + fmul(self.muzzle_vel, tx), y: vel.y + fmul(self.muzzle_vel, ty) },
                life: BULLET_LIFE,
                fade: BULLET_FADE,
            };
            self.bullets.push(b);
            proof {
                assert(radial_ok(r as int, og.spread.radius as int));
                assert(angular_ok(a as int, og.spread.azimuth as int));
                assert(self.bullets@.last() == spec_bullet(pos, dir, vel, og.muzzle_vel, r as int, a as int));
                assert(admissible_bullet(
                    self.bullets@.last(),
                    pos,
                    dir,
                    vel,
                    og.muzzle_vel,
                    og.spread.radius as int,
                    og.spread.azimuth as int,
                ));
                assert(self.bullets@.subrange(0, og.bullets@.len() as int) =~= og.bullets@);
            }
            k = k + 1;
        }
        self.cooldown = self.period;
    }
}

} // verus!
