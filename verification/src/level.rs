//! The level aggregate: it owns exactly one ship and one rock, and fans
//! the frame driver's update and render calls out to them in a fixed
//! traversal order.

use vstd::prelude::*;
use crate::fixed::{valid_dt, WALL_MARGIN, WORLD_H, WORLD_W};
use crate::framebuf::{paint, Framebuf};
use crate::rock::{rock_update_rel, Rock};
use crate::ship::{paint_pools, ship_update_rel, Ship};

verus! {

/// The whole simulated world: one player ship and one rock.
pub struct Level {
    pub player: Ship,
    pub rock: Rock,
}

impl Level {
    /// Both members admit one frame of update arithmetic.
    pub open spec fn inv(&self) -> bool {
        self.player.inv() && self.rock.inv()
    }

    /// One tick: the ship's frame, then the rock's frame.
    pub fn update(&mut self, dt: i64)
        requires
            old(self).inv(),
            valid_dt(dt as int),
        ensures
            ship_update_rel(old(self).player, final(self).player, dt as int),
            rock_update_rel(old(self).rock, final(self).rock, dt as int),
            WALL_MARGIN <= final(self).player.pos.x <= WORLD_W - WALL_MARGIN,
            WALL_MARGIN <= final(self).player.pos.y <= WORLD_H - WALL_MARGIN,
    {
        self.player.update(dt);
        self.rock.update(dt);
    }

    /// One frame's 2D drawing, in the same traversal order as `update`:
    /// the ship's pools (the rock's shaded mesh batch is issued by the
    /// 3D rendering layer, and paints nothing here).
    pub fn render(&self, buf: &mut Framebuf)
        requires
            old(buf).inv(),
        ensures
            final(buf).inv(),
            final(buf).width == old(buf).width,
            final(buf).height == old(buf).height,
            final(buf).data@ == paint_pools(
                paint(
                    old(buf).data@,
                    old(buf).width as int,
                    old(buf).height as int,
                    self.player.exhaust@,
                ),
                old(buf).width as int,
                old(buf).height as int,
                self.player.guns@,
            ),
    {
        self.player.render(buf);
        self.rock.render(buf);
    }
}

} // verus!
