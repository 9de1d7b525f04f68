//! The 2D render target and the particle render pass. The buffer is a
//! row-major grid of packed RGB words. A particle is drawn as a single
//! yellow pixel whose brightness ramps linearly to black over the fade
//! window; a particle whose cell lies outside the grid paints nothing.

use vstd::prelude::*;
use vstd::arithmetic::div_mod::lemma_div_is_ordered;
use crate::particle::Particle;

verus! {

/// Brightness of a particle, scaled by one thousand: full above the
/// fade window, a linear ramp inside it, black at or below zero life.
pub open spec fn spec_intensity(life: int, fade: int) -> int {
    if life <= 0 {
        0
    } else if life >= fade {
        1000
    } else {
        (life * 1000) / fade
    }
}

/// One 8-bit color channel of the ramp.
pub open spec fn spec_channel(life: int, fade: int) -> int {
    (255 * spec_intensity(life, fade)) / 1000
}

/// The packed yellow pixel a particle paints.
pub open spec fn spec_pcolor(life: int, fade: int) -> u32 {
    (spec_channel(life, fade) * 0x10000 + spec_channel(life, fade) * 0x100) as u32
}

/// The grid cell a coordinate falls in; any negative coordinate is
/// outside every cell.
pub open spec fn cell(v: int) -> int {
    if v >= 0 {
        v / 1000
    } else {
        -1
    }
}

/// The buffer contents after painting every particle of `s`, in order.
pub open spec fn paint(data: Seq<u32>, w: int, h: int, s: Seq<Particle>) -> Seq<u32>
    decreases s.len(),
{
    if s.len() == 0 {
        data
    } else {
        let d = paint(data, w, h, s.drop_last());
        let p = s.last();
        let cx = cell(p.pos.x as int);
        let cy = cell(p.pos.y as int);
        if 0 <= cx < w && 0 <= cy < h {
            d.update(cy * w + cx, spec_pcolor(p.life as int, p.fade as int))
        } else {
            d
        }
    }
}

/// A row-major pixel buffer of packed RGB words.
pub struct Framebuf {
    pub width: usize,
    pub height: usize,
    pub data: Vec<u32>,
}

impl Framebuf {
    /// One word per grid cell.
    pub open spec fn inv(&self) -> bool {
        self.data@.len() == self.width * self.height
    }

    /// A black buffer of the given dimensions.
    pub fn new(width: usize, height: usize) -> (r: Framebuf)
        requires
            width * height <= usize::MAX,
        ensures
            r.inv(),
            r.width == width,
            r.height == height,
            r.data@ == Seq::<u32>::new((width * height) as nat, |i: int| 0u32),
    {
        let n = width * height;
        let data = vec![0u32; n];
        proof {
            assert(data@ =~= Seq::<u32>::new((width * height) as nat, |i: int| 0u32));
        }
        Framebuf { width, height, data }
    }

    /// Writes one pixel.
    pub fn set_pixel(&mut self, x: usize, y: usize, color: u32)
        requires
            old(self).inv(),
            x < old(self).width,
            y < old(self).height,
        ensures
            final(self).inv(),
            final(self).width == old(self).width,
            final(self).height == old(self).height,
            final(self).data@ == old(self).data@.update(y * old(self).width + x, color),
    {
        let n = self.data.len();
        proof {
            assert((y as int) * (self.width as int) + x < (self.height as int) * (
            self.width as int)) by (nonlinear_arith)
                requires
                    x < self.width,
                    y < self.height,
            ;
            assert((self.height as int) * (self.width as int) == (self.width as int) * (
            self.height as int)) by (nonlinear_arith);
            assert((y as int) * (self.width as int) + x < n);
        }
        let idx = y * self.width + x;
        self.data.set(idx, color);
    }
}

/// The color of one particle's pixel, exactly `spec_pcolor`.
pub fn particle_color(life: i64, fade: i64) -> (c: u32)
    ensures
        c == spec_pcolor(life as int, fade as int),
{
    let inten: u64 = if life <= 0 {
        0
    } else if life >= fade {
        1000
    } else {
        let q = ((life as u128) * 1000) / (fade as u128);
        proof {
            lemma_div_is_ordered((life as int) * 1000, (fade as int) * 1000, fade as int);
            assert((life as int) * 1000 <= (fade as int) * 1000) by (nonlinear_arith)
                requires
                    life <= fade,
            ;
            assert(((fade as int) * 1000) / (fade as int) == 1000) by {
                vstd::arithmetic::div_mod::lemma_div_multiples_vanish(1000, fade as int);
            }
        }
        q as u64
    };
    let ch: u32 = ((255 * inten) / 1000) as u32;
    ch * 0x10000 + ch * 0x100
}

/// Paints every particle of a pool, in order, exactly `paint`.
pub fn pool_render(pool: &Vec<Particle>, buf: &mut Framebuf)
    requires
        old(buf).inv(),
    ensures
        final(buf).inv(),
        final(buf).width == old(buf).width,
        final(buf).height == old(buf).height,
        final(buf).data@ == paint(
            old(buf).data@,
            old(buf).width as int,
            old(buf).height as int,
            pool@,
        ),
{
    let n = pool.len();
    let mut i: usize = 0;
    while i < n
        invariant
            i <= n,
            n == pool@.len(),
            buf.inv(),
            buf.width == old(buf).width,
            buf.height == old(buf).height,
            buf.data@ == paint(
                old(buf).data@,
                buf.width as int,
                buf.height as int,
                pool@.subrange(0, i as int),
            ),
        decreases n - i,
    {
        let p = pool[i];
        if p.pos.x >= 0 && p.pos.y >= 0 {
            let cx = (p.pos.x as u64) / 1000;
            let cy = (p.pos.y as u64) / 1000;
            if cx < buf.width as u64 && cy < buf.height as u64 {
                let color = particle_color(p.life, p.fade);
                buf.set_pixel(cx as usize, cy as usize, color);
            }
        }
        proof {
            assert(pool@.subrange(0, i + 1).drop_last() =~= pool@.subrange(0, i as int));
            assert(pool@.subrange(0, i + 1).last() == pool@[i as int]);
        }
        i += 1;
    }
    proof {
        assert(pool@.subrange(0, n as int) =~= pool@);
    }
}

} // verus!
