//! Cross-cutting laws of the core, proved from the update and fire
//! relations alone: the cooldown window admits one batch per period,
//! a discharge grows the bullet pool by exactly `shots`, a wall bounce
//! scales and flips only the perpendicular velocity component, the
//! clamp keeps the ship inside the margins, and cycling the inventory
//! composes like rotation.

use vstd::prelude::*;
use vstd::arithmetic::div_mod::{lemma_fundamental_div_mod, lemma_fundamental_div_mod_converse};
use crate::fixed::{
    fmul_s, lemma_fmul_range, valid_dt, DT_MAX, SHIP_LIMIT, WALL_MARGIN, WORLD_H, WORLD_W,
};
use crate::gun::{discharge_rel, Gun};
use crate::ship::{
    bounce_vel, crossed, fire_rel, gun_stepped, int_pos_x, int_pos_y, int_vel_x, int_vel_y,
    rotate_left_s, ship_update_rel, Ship, BOUNCE_K,
};

verus! {

/// Firing while the selected gun's cooldown timer is positive changes
/// nothing at all.
pub proof fn lemma_fire_blocked(o: Ship, n: Ship)
    requires
        fire_rel(o, n),
        o.guns@.len() > 0,
        o.guns@[0].cooldown > 0,
    ensures
        n == o,
{
}

/// A fire call with the timer at or below zero spawns exactly `shots`
/// bullets in the selected gun's pool and resets its timer to the
/// period, whatever `shots` was.
pub proof fn lemma_fire_spawns_shots(o: Ship, n: Ship)
    requires
        fire_rel(o, n),
        o.guns@.len() > 0,
        o.guns@[0].cooldown <= 0,
    ensures
        n.guns@[0].bullets@.len() == o.guns@[0].bullets@.len() + o.guns@[0].shots,
        n.guns@[0].cooldown == o.guns@[0].period,
{
    assert(discharge_rel(o.guns@[0], n.guns@[0], o.pos, o.dir, o.vel));
}

/// The total time a chain of frames hands to the update pass.
pub open spec fn sum_s(dts: Seq<int>) -> int
    decreases dts.len(),
{
    if dts.len() == 0 {
        0
    } else {
        sum_s(dts.drop_last()) + dts.last()
    }
}

/// A chain of ship states, each one frame after the previous.
pub open spec fn update_chain(ships: Seq<Ship>, dts: Seq<int>) -> bool {
    ships.len() == dts.len() + 1 && forall|i: int|
        0 <= i < dts.len() ==> ship_update_rel(#[trigger] ships[i], ships[i + 1], dts[i])
}

/// Across any chain of frames the selected gun's timer falls by exactly
/// the summed frame time, and the inventory length and the period hold.
pub proof fn lemma_chain_cooldown(ships: Seq<Ship>, dts: Seq<int>)
    requires
        update_chain(ships, dts),
        ships.len() >= 1,
        ships[0].guns@.len() > 0,
    ensures
        ships.last().guns@.len() == ships[0].guns@.len(),
        ships.last().guns@[0].cooldown == ships[0].guns@[0].cooldown - sum_s(dts),
        ships.last().guns@[0].period == ships[0].guns@[0].period,
        ships.last().guns@[0].shots == ships[0].guns@[0].shots,
    decreases dts.len(),
{
    if dts.len() == 0 {
        assert(ships.last() == ships[0]);
    } else {
        let ships2 = ships.drop_last();
        let dts2 = dts.drop_last();
        assert forall|i: int| 0 <= i < dts2.len() implies ship_update_rel(
            #[trigger] ships2[i],
            ships2[i + 1],
            dts2[i],
        ) by {
            assert(ship_update_rel(ships[i], ships[i + 1], dts[i]));
        }
        lemma_chain_cooldown(ships2, dts2);
        let k = dts.len() - 1;
        assert(ship_update_rel(ships[k], ships[k + 1], dts[k]));
        assert(gun_stepped(ships[k].guns@[0], ships[k + 1].guns@[0], dts[k], true));
        assert(ships.last() == ships[k + 1]);
        assert(ships2.last() == ships[k]);
    }
}

/// One batch per period: after a successful fire, a second fire call is
/// a no-op as long as the frames in between sum to less than the gun's
/// cooldown period.
pub proof fn lemma_refire_blocked(s0: Ship, ships: Seq<Ship>, dts: Seq<int>, s2: Ship)
    requires
        s0.guns@.len() > 0,
        s0.guns@[0].cooldown <= 0,
        ships.len() >= 1,
        fire_rel(s0, ships[0]),
        update_chain(ships, dts),
        sum_s(dts) < s0.guns@[0].period,
        fire_rel(ships.last(), s2),
    ensures
        s2 == ships.last(),
{
    assert(discharge_rel(s0.guns@[0], ships[0].guns@[0], s0.pos, s0.dir, s0.vel));
    assert(ships[0].guns@[0].cooldown == s0.guns@[0].period);
    lemma_chain_cooldown(ships, dts);
    assert(ships.last().guns@[0].cooldown > 0);
    lemma_fire_blocked(ships.last(), s2);
}

/// The other half of the cooldown window: once the frames since a
/// successful fire sum to the full period or more, the next fire call
/// spawns its full batch again.
pub proof fn lemma_refire_allowed(s0: Ship, ships: Seq<Ship>, dts: Seq<int>, s2: Ship)
    requires
        s0.guns@.len() > 0,
        s0.guns@[0].cooldown <= 0,
        ships.len() >= 1,
        fire_rel(s0, ships[0]),
        update_chain(ships, dts),
        sum_s(dts) >= s0.guns@[0].period,
        fire_rel(ships.last(), s2),
    ensures
        s2.guns@[0].bullets@.len() == ships.last().guns@[0].bullets@.len()
            + s0.guns@[0].shots,
{
    assert(discharge_rel(s0.guns@[0], ships[0].guns@[0], s0.pos, s0.dir, s0.vel));
    assert(ships[0].guns@[0].cooldown == s0.guns@[0].period);
    lemma_chain_cooldown(ships, dts);
    assert(ships.last().guns@[0].cooldown <= 0);
    lemma_fire_spawns_shots(ships.last(), s2);
}

/// A wall bounce flips and quarter-scales exactly the velocity
/// component perpendicular to the crossed wall; the component parallel
/// to that wall is governed only by its own wall check.
pub proof fn lemma_bounce_flips_only_perpendicular(o: Ship, n: Ship, dt: int)
    requires
        ship_update_rel(o, n, dt),
        o.inv(),
        valid_dt(dt),
    ensures
        crossed(int_pos_x(o, dt), WALL_MARGIN as int, WORLD_W - WALL_MARGIN) ==> n.vel.x
            == -fmul_s(BOUNCE_K as int, int_vel_x(o, dt)),
        !crossed(int_pos_x(o, dt), WALL_MARGIN as int, WORLD_W - WALL_MARGIN) ==> n.vel.x
            == int_vel_x(o, dt),
        crossed(int_pos_y(o, dt), WALL_MARGIN as int, WORLD_H - WALL_MARGIN) ==> n.vel.y
            == -fmul_s(BOUNCE_K as int, int_vel_y(o, dt)),
        !crossed(int_pos_y(o, dt), WALL_MARGIN as int, WORLD_H - WALL_MARGIN) ==> n.vel.y
            == int_vel_y(o, dt),
{
    lemma_fmul_range(o.acc.x as int, dt, SHIP_LIMIT as int, DT_MAX as int);
    lemma_fmul_range(o.acc.y as int, dt, SHIP_LIMIT as int, DT_MAX as int);
    lemma_fmul_range(BOUNCE_K as int, int_vel_x(o, dt), 250, 35_000_000_000_000_000);
    lemma_fmul_range(BOUNCE_K as int, int_vel_y(o, dt), 250, 35_000_000_000_000_000);
    assert(n.vel.x == bounce_vel(
        int_pos_x(o, dt),
        int_vel_x(o, dt),
        WALL_MARGIN as int,
        WORLD_W - WALL_MARGIN,
    ));
}

/// After any update the ship's position sits inside the ten-unit
/// margins on both axes, whatever the pre-update position and velocity.
pub proof fn lemma_update_clamps_position(o: Ship, n: Ship, dt: int)
    requires
        ship_update_rel(o, n, dt),
    ensures
        WALL_MARGIN <= n.pos.x <= WORLD_W - WALL_MARGIN,
        WALL_MARGIN <= n.pos.y <= WORLD_H - WALL_MARGIN,
{
}

/// The inventory rotated `k` single steps.
pub open spec fn rotate_n(s: Seq<Gun>, k: nat) -> Seq<Gun>
    decreases k,
{
    if k == 0 {
        s
    } else {
        rotate_left_s(rotate_n(s, (k - 1) as nat))
    }
}

/// The inventory rotated by `m` positions at once.
pub open spec fn rotate_by(s: Seq<Gun>, m: int) -> Seq<Gun> {
    s.subrange(m, s.len() as int) + s.subrange(0, m)
}

/// One more single step advances the rotation offset by one, wrapping
/// at the inventory length.
proof fn lemma_rotate_once_shifts(s: Seq<Gun>, m: int)
    requires
        0 <= m < s.len(),
    ensures
        rotate_left_s(rotate_by(s, m)) == rotate_by(
            s,
            if m + 1 == s.len() {
                0int
            } else {
                m + 1
            },
        ),
{
    let len = s.len() as int;
    let t = rotate_by(s, m);
    let m2: int = if m + 1 == len {
        0
    } else {
        m + 1
    };
    assert(t.len() == len);
    assert forall|j: int| 0 <= j < len implies rotate_left_s(t)[j] == rotate_by(s, m2)[j] by {
        if j < len - 1 {
            assert(rotate_left_s(t)[j] == t[j + 1]);
        } else {
            assert(rotate_left_s(t)[j] == t[0]);
        }
    }
    assert(rotate_left_s(t) =~= rotate_by(s, m2));
}

/// Cyclic-rotation equivalence: rotating the inventory `k` times is the
/// same as rotating once by `k` modulo the inventory length.
pub proof fn lemma_cycle_rotation(s: Seq<Gun>, k: nat)
    requires
        s.len() > 0,
    ensures
        rotate_n(s, k) == rotate_by(s, (k as int) % (s.len() as int)),
    decreases k,
{
    let len = s.len() as int;
    if k == 0 {
        assert(rotate_by(s, 0) =~= s);
    } else {
        lemma_cycle_rotation(s, (k - 1) as nat);
        let r = ((k - 1) as int) % len;
        lemma_fundamental_div_mod((k - 1) as int, len);
        let q = ((k - 1) as int) / len;
        lemma_rotate_once_shifts(s, r);
        if r + 1 == len {
            assert((q + 1) * len == len * q + len && q * len == len * q) by (nonlinear_arith);
            lemma_fundamental_div_mod_converse(k as int, len, q + 1, 0);
        } else {
            assert(q * len == len * q) by (nonlinear_arith);
            lemma_fundamental_div_mod_converse(k as int, len, q, r + 1);
        }
    }
}

/// One cycle call is one single rotation step.
pub proof fn lemma_cycle_is_one_step(s: Seq<Gun>)
    ensures
        rotate_n(s, 1) == rotate_left_s(s),
{
    assert(rotate_n(s, 0) == s);
    assert(rotate_n(s, 1) == rotate_left_s(rotate_n(s, 0)));
}

} // verus!
