//! Plane vectors and points on the fixed-point grid.

use vstd::prelude::*;
use crate::fixed::{fmul, fmul_s, mul_ok};

verus! {

/// A plane vector (or point) with fixed-point components.
#[derive(Clone, Copy, Debug, PartialEq, Eq, Structural)]
pub struct Vec2 {
    pub x: i64,
    pub y: i64,
}

impl Vec2 {
    /// Both components lie within `m` in magnitude.
    pub open spec fn within(self, m: int) -> bool {
        -m <= self.x <= m && -m <= self.y <= m
    }

    /// Componentwise sum.
    pub fn add(self, o: Vec2) -> (r: Vec2)
        requires
            self.x + o.x <= i64::MAX,
            self.x + o.x >= i64::MIN,
            self.y + o.y <= i64::MAX,
            self.y + o.y >= i64::MIN,
        ensures
            r == (Vec2 { x: (self.x + o.x) as i64, y: (self.y + o.y) as i64 }),
    {
        Vec2 { x: self.x + o.x, y: self.y + o.y }
    }

    /// The fixed-point scaling of `self` by the scalar `k`.
    pub fn scale(self, k: i64) -> (r: Vec2)
        requires
            k > i64::MIN,
            self.x > i64::MIN,
            self.y > i64::MIN,
            mul_ok(k as int, self.x as int),
            mul_ok(k as int, self.y as int),
        ensures
            r == (Vec2 { x: fmul_s(k as int, self.x as int) as i64, y: fmul_s(k as int, self.y as int) as i64 }),
            r.x == fmul_s(k as int, self.x as int),
            r.y == fmul_s(k as int, self.y as int),
    {
        Vec2 { x: fmul(k, self.x), y: fmul(k, self.y) }
    }

    /// The perpendicular: `self` rotated a quarter turn counterclockwise.
    pub fn perp(self) -> (r: Vec2)
        requires
            self.y > i64::MIN,
        ensures
            r == (Vec2 { x: (-self.y) as i64, y: self.x }),
    {
        Vec2 { x: -self.y, y: self.x }
    }
}

} // verus!
