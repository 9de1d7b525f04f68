//! The shared entity capability: every simulated thing can advance one
//! frame and draw itself into the 2D target. Each implementation
//! forwards to the inherent method of its type, whose contract states
//! exactly what the frame does; the trait itself promises only that a
//! well-formed entity keeps the render target well-formed.

use vstd::prelude::*;
use crate::fixed::valid_dt;
use crate::framebuf::{pool_render, Framebuf};
use crate::level::Level;
use crate::particle::{pbounded, pool_update, Particle};
use crate::rock::Rock;
use crate::ship::Ship;

verus! {

/// One capability: `update(dt)` and `render(target)`.
pub trait Entity {
    /// The entity's fields admit one frame of update arithmetic.
    spec fn wf(&self) -> bool;

    fn update(&mut self, dt: i64)
        requires
            old(self).wf(),
            valid_dt(dt as int),
    ;

    fn render(&self, buf: &mut Framebuf)
        requires
            self.wf(),
            old(buf).inv(),
        ensures
            final(buf).inv(),
    ;
}

impl Entity for Ship {
    open spec fn wf(&self) -> bool {
        self.inv()
    }

    fn update(&mut self, dt: i64) {
        Ship::update(self, dt)
    }

    fn render(&self, buf: &mut Framebuf) {
        Ship::render(self, buf)
    }
}

impl Entity for Rock {
    open spec fn wf(&self) -> bool {
        self.inv()
    }

    fn update(&mut self, dt: i64) {
        Rock::update(self, dt)
    }

    fn render(&self, buf: &mut Framebuf) {
        Rock::render(self, buf)
    }
}

impl Entity for Level {
    open spec fn wf(&self) -> bool {
        self.inv()
    }

    fn update(&mut self, dt: i64) {
        Level::update(self, dt)
    }

    fn render(&self, buf: &mut Framebuf) {
        Level::render(self, buf)
    }
}

impl Entity for Vec<Particle> {
    open spec fn wf(&self) -> bool {
        forall|k: int| 0 <= k < self@.len() ==> pbounded(#[trigger] self@[k])
    }

    fn update(&mut self, dt: i64) {
        pool_update(self, dt)
    }

    fn render(&self, buf: &mut Framebuf) {
        pool_render(self, buf)
    }
}

/// A fixed-rate emitter owning a pool of puffs: `rate` is how many
/// puffs per second its driver spawns into `particles`.
pub struct Emitter {
    pub rate: i64,
    pub particles: Vec<Particle>,
}

} // verus!
