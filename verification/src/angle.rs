//! Angles, measured in thousandths of a turn. The sine is computed by a
//! quarter-wave quadratic approximation on the fixed-point grid; it is
//! exact at every quarter turn (0, 1000 and -1000 at the axes), stays
//! within [-1000, 1000], and the executable code returns precisely the
//! value of the closed-form spec below.

use vstd::prelude::*;
use vstd::arithmetic::div_mod::{
    lemma_div_is_ordered, lemma_div_multiples_vanish, lemma_fundamental_div_mod,
    lemma_fundamental_div_mod_converse,
};

verus! {

/// A full turn, in angle steps.
pub const TURN: i64 = 1000;

/// The half-turn quadratic: the sine of `u` thousandths of a turn, for
/// `u` in the first half turn, scaled by one thousand.
pub open spec fn spec_sin_half(u: int) -> int {
    (16000 * (u * (500 - u))) / (1250000 - 4 * (u * (500 - u)))
}

/// The sine of `a` thousandths of a turn, scaled by one thousand.
pub open spec fn spec_sin(a: int) -> int {
    let m = a % 1000;
    if m <= 500 {
        spec_sin_half(m)
    } else {
        -spec_sin_half(m - 500)
    }
}

/// The cosine of `a` thousandths of a turn, scaled by one thousand.
pub open spec fn spec_cos(a: int) -> int {
    spec_sin(a + 250)
}

/// Reduces an angle to [0, TURN): the euclidean remainder of `a` by a
/// full turn.
pub fn wrap_turn(a: i64) -> (r: i64)
    requires
        a > i64::MIN,
    ensures
        r == (a as int) % 1000,
        0 <= r < 1000,
{
    if a >= 0 {
        ((a as u64) % 1000) as i64
    } else {
        let m = ((-a) as u64) % 1000;
        proof {
            let na = -(a as int);
            lemma_fundamental_div_mod(na, 1000);
            let q = na / 1000;
            if m == 0 {
                lemma_fundamental_div_mod_converse(a as int, 1000, -q, 0);
            } else {
                lemma_fundamental_div_mod_converse(a as int, 1000, -q - 1, 1000 - m);
            }
        }
        if m == 0 {
            0
        } else {
            (1000 - m) as i64
        }
    }
}

/// The half-turn quadratic, computed exactly as `spec_sin_half` states.
fn sin_half(u: u64) -> (r: i64)
    requires
        u <= 500,
    ensures
        r == spec_sin_half(u as int),
        0 <= r <= 1000,
{
    proof {
        assert((u as int) * (500 - u as int) <= 62500 && (u as int) * (500 - u as int) >= 0)
            by (nonlinear_arith)
            requires
                0 <= u as int <= 500,
        ;
    }
    let n: u64 = u * (500 - u);
    let num: u64 = 16000 * n;
    let den: u64 = 1250000 - 4 * n;
    let r: u64 = num / den;
    proof {
        assert(num <= 1000 * den);
        lemma_div_is_ordered(num as int, 1000 * (den as int), den as int);
        lemma_div_multiples_vanish(1000, den as int);
    }
    r as i64
}

/// The sine of `a` thousandths of a turn, exactly `spec_sin(a)`.
pub fn sin_mt(a: i64) -> (r: i64)
    requires
        a > i64::MIN,
    ensures
        r == spec_sin(a as int),
        -1000 <= r <= 1000,
{
    let m = wrap_turn(a);
    if m <= 500 {
        sin_half(m as u64)
    } else {
        let h = sin_half((m - 500) as u64);
        -h
    }
}

/// The cosine of `a` thousandths of a turn, exactly `spec_cos(a)`.
pub fn cos_mt(a: i64) -> (r: i64)
    requires
        a > i64::MIN,
        a <= i64::MAX - 250,
    ensures
        r == spec_cos(a as int),
        -1000 <= r <= 1000,
{
    sin_mt(a + 250)
}

} // verus!
