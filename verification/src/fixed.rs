//! Fixed-point scalars. A world unit (or a second) is `ONE` grid steps,
//! so scalars carry three fractional decimal digits. Multiplication of
//! two scalars divides the wide product by the scale, rounding toward
//! zero; the executable code computes on sign and magnitude so that the
//! rounding direction is pinned exactly.

use vstd::prelude::*;
use vstd::arithmetic::div_mod::lemma_div_is_ordered;

verus! {

/// One whole unit of distance, or one second of time.
pub const ONE: i64 = 1000;

/// Width of the world in grid steps.
pub const WORLD_W: i64 = 640 * 1000;

/// Height of the world in grid steps.
pub const WORLD_H: i64 = 360 * 1000;

/// Distance the ship keeps from each wall, in grid steps.
pub const WALL_MARGIN: i64 = 10 * 1000;

/// Largest magnitude admitted for a scalar held by a ship or a rock.
pub const SHIP_LIMIT: i64 = 0x4_0000_0000_0000;

/// Largest magnitude admitted for a particle scalar. Wider than
/// `SHIP_LIMIT`, so that the values a single update pass writes into a
/// pool (spawn velocities derived from one frame of ship integration)
/// are again admissible pool contents.
pub const POOL_LIMIT: i64 = 0x200_0000_0000_0000;

/// Largest frame delta the update passes accept: thirty seconds.
pub const DT_MAX: i64 = 30 * 1000;

/// Largest magnitude admitted for a component of a facing vector. The
/// facing stays near unit length (one thousand grid steps); the slack
/// absorbs the drift of repeated fixed-point rotation.
pub const DIR_LIMIT: i64 = 2_000_000;

/// A scalar small enough for a ship or rock field.
pub open spec fn sbounded(x: int) -> bool {
    -SHIP_LIMIT <= x <= SHIP_LIMIT
}

/// A scalar small enough for a particle field.
pub open spec fn pbounded_val(x: int) -> bool {
    -POOL_LIMIT <= x <= POOL_LIMIT
}

/// A frame delta the update passes accept.
pub open spec fn valid_dt(dt: int) -> bool {
    0 <= dt <= DT_MAX
}

/// Division of a wide product by the scale, rounding toward zero.
pub open spec fn to_scale(p: int) -> int {
    if p >= 0 {
        p / 1000
    } else {
        -((-p) / 1000)
    }
}

/// The fixed-point product: `a` times `b` on the grid.
pub open spec fn fmul_s(a: int, b: int) -> int {
    to_scale(a * b)
}

/// The product `a * b` is small enough that its scaled-down value fits
/// an `i64`; `fmul` demands exactly this.
pub open spec fn mul_ok(a: int, b: int) -> bool {
    -9_223_372_036_854_775_807_000 <= a * b <= 9_223_372_036_854_775_807_000
}

/// Establishes `mul_ok` and a magnitude bound for `fmul_s` from
/// per-factor bounds; `ma * mb` is a literal product at every call site.
pub proof fn lemma_fmul_range(a: int, b: int, ma: int, mb: int)
    requires
        -ma <= a <= ma,
        -mb <= b <= mb,
        0 <= ma,
        0 <= mb,
        ma * mb <= 9_223_372_036_854_775_807_000,
    ensures
        mul_ok(a, b),
        -((ma * mb) / 1000) <= fmul_s(a, b) <= (ma * mb) / 1000,
{
    assert(-(ma * mb) <= a * b <= ma * mb) by (nonlinear_arith)
        requires
            -ma <= a <= ma,
            -mb <= b <= mb,
            0 <= ma,
            0 <= mb,
    ;
    let p = a * b;
    let m = ma * mb;
    if p >= 0 {
        lemma_div_is_ordered(p, m, 1000);
    } else {
        lemma_div_is_ordered(-p, m, 1000);
    }
}

/// The fixed-point product of two scalars, exactly `fmul_s(a, b)`.
pub fn fmul(a: i64, b: i64) -> (r: i64)
    requires
        a > i64::MIN,
        b > i64::MIN,
        mul_ok(a as int, b as int),
    ensures
        r == fmul_s(a as int, b as int),
{
    let neg = (a < 0) != (b < 0);
    let ma: u64 = if a < 0 { (-a) as u64 } else { a as u64 };
    let mb: u64 = if b < 0 { (-b) as u64 } else { b as u64 };
    proof {
        assert((ma as int) * (mb as int) <= u128::MAX) by (nonlinear_arith)
            requires
                0 <= ma as int <= u64::MAX,
                0 <= mb as int <= u64::MAX,
        ;
    }
    let p: u128 = (ma as u128) * (mb as u128);
    let q: u128 = p / 1000;
    proof {
        let prod = (a as int) * (b as int);
        if a >= 0 && b >= 0 {
            assert((a as int) * (b as int) >= 0) by (nonlinear_arith)
                requires
                    a >= 0,
                    b >= 0,
            ;
            assert(p == prod);
        } else if a < 0 && b < 0 {
            assert((-(a as int)) * (-(b as int)) == (a as int) * (b as int)) by (nonlinear_arith);
            assert(p == prod && prod >= 0);
        } else if a < 0 {
            assert((-(a as int)) * (b as int) == -((a as int) * (b as int))) by (nonlinear_arith);
            assert(p == -prod && prod <= 0);
        } else {
            assert((a as int) * (-(b as int)) == -((a as int) * (b as int))) by (nonlinear_arith);
            assert(p == -prod && prod <= 0);
        }
        assert(p == if prod >= 0 { prod } else { -prod });
        assert(neg ==> prod <= 0);
        assert(!neg ==> prod >= 0);
        if prod >= 0 {
            lemma_div_is_ordered(prod, 9_223_372_036_854_775_807_000, 1000);
        } else {
            lemma_div_is_ordered(-prod, 9_223_372_036_854_775_807_000, 1000);
        }
        assert(q <= i64::MAX);
    }
    if neg {
        if q == 0 {
            0
        } else {
            -(q as i64)
        }
    } else {
        q as i64
    }
}

} // verus!
