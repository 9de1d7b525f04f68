//! The rock body: a rigid obstacle that integrates its position and
//! drifts its orientation at fixed angular rates. Its orientation is a
//! spherical direction of unit radius, held as azimuth and altitude
//! angles; the pre-built mesh it is drawn with is an opaque asset of
//! the rendering layer and never enters the simulation state.

use vstd::prelude::*;
use crate::fixed::{fmul, fmul_s, lemma_fmul_range, sbounded, valid_dt, DT_MAX, SHIP_LIMIT};
use crate::framebuf::Framebuf;
use crate::vec2::Vec2;

verus! {

/// Azimuth drift: a tenth of a turn per second, in thousandths of a turn.
pub const ROCK_AZ_RATE: i64 = 100;

/// Altitude drift: twelve hundredths of a turn per second.
pub const ROCK_ALT_RATE: i64 = 120;

/// A drifting rigid body; the unit radius of its orientation is encoded
/// by holding only the two angles.
#[derive(Clone, Copy, Debug, PartialEq, Eq, Structural)]
pub struct Rock {
    /// Position in the world box.
    pub pos: Vec2,
    /// Azimuth of the orientation, thousandths of a turn.
    pub azimuth: i64,
    /// Altitude of the orientation, thousandths of a turn.
    pub altitude: i64,
    /// Velocity in grid steps per second.
    pub vel: Vec2,
}

/// What one frame does to a rock: position integrates velocity, both
/// angles advance at their fixed rates, velocity is untouched.
pub open spec fn rock_update_rel(o: Rock, n: Rock, dt: int) -> bool {
    &&& n.pos == (Vec2 {
        x: (o.pos.x + fmul_s(o.vel.x as int, dt)) as i64,
        y: (o.pos.y + fmul_s(o.vel.y as int, dt)) as i64,
    })
    &&& n.vel == o.vel
    &&& n.azimuth == o.azimuth + fmul_s(ROCK_AZ_RATE as int, dt)
    &&& n.altitude == o.altitude + fmul_s(ROCK_ALT_RATE as int, dt)
}

impl Rock {
    /// Every field is admissible for one frame of update arithmetic.
    pub open spec fn inv(&self) -> bool {
        &&& self.pos.within(SHIP_LIMIT as int)
        &&& self.vel.within(SHIP_LIMIT as int)
        &&& sbounded(self.azimuth as int)
        &&& sbounded(self.altitude as int)
    }

    /// One frame of the rock, exactly `rock_update_rel`.
    pub fn update(&mut self, dt: i64)
        requires
            old(self).inv(),
            valid_dt(dt as int),
        ensures
            rock_update_rel(*old(self), *final(self), dt as int),
    {
        proof {
            lemma_fmul_range(self.vel.x as int, dt as int, SHIP_LIMIT as int, DT_MAX as int);
            lemma_fmul_range(self.vel.y as int, dt as int, SHIP_LIMIT as int, DT_MAX as int);
            lemma_fmul_range(ROCK_AZ_RATE as int, dt as int, 100, DT_MAX as int);
            lemma_fmul_range(ROCK_ALT_RATE as int, dt as int, 120, DT_MAX as int);
        }
        self.pos = Vec2 { x: self.pos.x + fmul(self.vel.x, dt), y: self.pos.y + fmul(self.vel.y, dt) };
        self.azimuth = self.azimuth + fmul(ROCK_AZ_RATE, dt);
        self.altitude = self.altitude + fmul(ROCK_ALT_RATE, dt);
    }

    /// The rock paints nothing on the 2D target: its shaded mesh batch
    /// is composed and issued by the 3D rendering layer from this pose.
    pub fn render(&self, buf: &mut Framebuf)
        ensures
            *final(buf) == *old(buf),
    {
    }
}

} // verus!
