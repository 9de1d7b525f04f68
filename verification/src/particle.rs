//! Particle lifecycle. A pool update pass integrates every particle,
//! decrements its life, and removes in the same pass every particle
//! whose life has run out or whose position has left the half-open
//! world box. The pass is written as a single forward sweep that
//! collects survivors, so no element is ever skipped; callers must not
//! rely on pool order being kept across frames.

use vstd::prelude::*;
use crate::fixed::{
    fmul, fmul_s, lemma_fmul_range, pbounded_val, valid_dt, DT_MAX, POOL_LIMIT, WORLD_H, WORLD_W,
};
use crate::vec2::Vec2;

verus! {

/// A short-lived point entity: a bullet or an exhaust puff.
#[derive(Clone, Copy, Debug, PartialEq, Eq, Structural)]
pub struct Particle {
    /// Position in the world box.
    pub pos: Vec2,
    /// Velocity in grid steps per second.
    pub vel: Vec2,
    /// Seconds of life left, on the fixed-point grid.
    pub life: i64,
    /// Width of the trailing window of life during which the rendered
    /// brightness ramps linearly to black.
    pub fade: i64,
}

/// Every scalar field of the particle is admissible pool content.
pub open spec fn pbounded(p: Particle) -> bool {
    pbounded_val(p.pos.x as int) && pbounded_val(p.pos.y as int) && pbounded_val(p.vel.x as int)
        && pbounded_val(p.vel.y as int) && pbounded_val(p.life as int) && pbounded_val(
        p.fade as int,
    )
}

/// One integration step: life shrinks by `dt`, position advances by
/// `vel * dt`; velocity and fade window are untouched.
pub open spec fn stepped(p: Particle, dt: int) -> Particle {
    Particle {
        pos: Vec2 {
            x: (p.pos.x + fmul_s(p.vel.x as int, dt)) as i64,
            y: (p.pos.y + fmul_s(p.vel.y as int, dt)) as i64,
        },
        vel: p.vel,
        life: (p.life - dt) as i64,
        fade: p.fade,
    }
}

/// The stepped particle stays in the pool: some life is left and the new
/// position lies inside `[0, WORLD_W) x [0, WORLD_H)`.
pub open spec fn stays(p: Particle, dt: int) -> bool {
    p.life - dt > 0 && 0 <= p.pos.x + fmul_s(p.vel.x as int, dt) < WORLD_W && 0 <= p.pos.y
        + fmul_s(p.vel.y as int, dt) < WORLD_H
}

/// The whole pool after one update pass: every particle stepped, the
/// dead ones gone, the survivors in sweep order.
pub open spec fn pool_step(s: Seq<Particle>, dt: int) -> Seq<Particle>
    decreases s.len(),
{
    if s.len() == 0 {
        Seq::empty()
    } else {
        let rest = pool_step(s.drop_last(), dt);
        if stays(s.last(), dt) {
            rest.push(stepped(s.last(), dt))
        } else {
            rest
        }
    }
}

/// Appends a caller-built particle to a pool, with no validation.
pub fn spawn(pool: &mut Vec<Particle>, p: Particle)
    ensures
        final(pool)@ == old(pool)@.push(p),
{
    pool.push(p);
}

/// One update pass over a pool, exactly `pool_step`.
pub fn pool_update(pool: &mut Vec<Particle>, dt: i64)
    requires
        valid_dt(dt as int),
        forall|k: int| 0 <= k < old(pool)@.len() ==> pbounded(#[trigger] old(pool)@[k]),
    ensures
        final(pool)@ == pool_step(old(pool)@, dt as int),
        forall|k: int| 0 <= k < final(pool)@.len() ==> pbounded(#[trigger] final(pool)@[k]),
{
    let n = pool.len();
    let mut out: Vec<Particle> = Vec::new();
    let mut i: usize = 0;
    while i < n
        invariant
            pool@ == old(pool)@,
            n == pool@.len(),
            i <= n,
            valid_dt(dt as int),
            forall|k: int| 0 <= k < pool@.len() ==> pbounded(#[trigger] pool@[k]),
            out@ == pool_step(pool@.subrange(0, i as int), dt as int),
            forall|k: int| 0 <= k < out@.len() ==> pbounded(#[trigger] out@[k]),
        decreases n - i,
    {
        let p = pool[i];
        proof {
            assert(pbounded(pool@[i as int]));
            lemma_fmul_range(p.vel.x as int, dt as int, POOL_LIMIT as int, DT_MAX as int);
            lemma_fmul_range(p.vel.y as int, dt as int, POOL_LIMIT as int, DT_MAX as int);
        }
        let dx = fmul(p.vel.x, dt);
        let dy = fmul(p.vel.y, dt);
        let nx = p.pos.x + dx;
        let ny = p.pos.y + dy;
        let nlife = p.life - dt;
        if nlife > 0 && nx >= 0 && nx < WORLD_W && ny >= 0 && ny < WORLD_H {
            out.push(Particle { pos: Vec2 { x: nx, y: ny }, vel: p.vel, life: nlife, fade: p.fade });
        }
        proof {
            assert(pool@.subrange(0, i + 1).drop_last() =~= pool@.subrange(0, i as int));
            assert(pool@.subrange(0, i + 1).last() == pool@[i as int]);
        }
        i += 1;
    }
    proof {
        assert(pool@.subrange(0, n as int) =~= pool@);
    }
    *pool = out;
}

/// Life is non-increasing across one update pass with `dt >= 0`: every
/// survivor is the stepped image of some pool member, with no more life
/// than that member had.
pub proof fn lemma_pool_life_nonincreasing(s: Seq<Particle>, dt: int)
    requires
        valid_dt(dt),
        forall|k: int| 0 <= k < s.len() ==> pbounded(#[trigger] s[k]),
    ensures
        forall|j: int|
            0 <= j < pool_step(s, dt).len() ==> exists|i: int|
                0 <= i < s.len() && #[trigger] pool_step(s, dt)[j] == stepped(s[i], dt)
                    && pool_step(s, dt)[j].life <= s[i].life,
    decreases s.len(),
{
    if s.len() == 0 {
    } else {
        let t = s.drop_last();
        lemma_pool_life_nonincreasing(t, dt);
        let ps = pool_step(s, dt);
        let pt = pool_step(t, dt);
        assert forall|j: int| 0 <= j < ps.len() implies exists|i: int|
            0 <= i < s.len() && #[trigger] ps[j] == stepped(s[i], dt) && ps[j].life <= s[i].life by {
            if j < pt.len() {
                let i = choose|i: int|
                    0 <= i < t.len() && #[trigger] pt[j] == stepped(t[i], dt) && pt[j].life
                        <= t[i].life;
                assert(s[i] == t[i]);
                assert(ps[j] == pt[j]);
                assert(0 <= i < s.len() && ps[j] == stepped(s[i], dt) && ps[j].life <= s[i].life);
            } else {
                let i = s.len() - 1;
                assert(pbounded(s[i]));
                assert(ps[j] == stepped(s[i], dt));
                assert(ps[j].life <= s[i].life);
            }
        }
    }
}

/// After one update pass no dead particle is left: every survivor has
/// life strictly above zero and a position inside the world box.
pub proof fn lemma_pool_survivors_alive(s: Seq<Particle>, dt: int)
    requires
        valid_dt(dt),
        forall|k: int| 0 <= k < s.len() ==> pbounded(#[trigger] s[k]),
    ensures
        pool_step(s, dt).len() <= s.len(),
        forall|j: int|
            0 <= j < pool_step(s, dt).len() ==> (#[trigger] pool_step(s, dt)[j]).life > 0 && 0
                <= pool_step(s, dt)[j].pos.x < WORLD_W && 0 <= pool_step(s, dt)[j].pos.y < WORLD_H,
    decreases s.len(),
{
    if s.len() == 0 {
    } else {
        let t = s.drop_last();
        lemma_pool_survivors_alive(t, dt);
        assert(pbounded(s[s.len() - 1]));
    }
}

} // verus!
