//! The ship's private random source: a linear congruential generator on
//! 64 bits, injected at construction so that firing and exhaust spawning
//! replay exactly under a fixed seed. Every draw is specified to the
//! bit, and a ranged draw always lands inside the requested range.

use vstd::prelude::*;

verus! {

/// Multiplier of the linear congruential step.
pub const RNG_MUL: u64 = 6364136223846793005;

/// Increment of the linear congruential step.
pub const RNG_ADD: u64 = 1442695040888963407;

/// The generator state after one step.
pub open spec fn spec_mix(s: u64) -> u64 {
    vstd::wrapping::u64_specs::wrapping_add(
        vstd::wrapping::u64_specs::wrapping_mul(s, RNG_MUL),
        RNG_ADD,
    )
}

/// The word a step hands out: the upper bits of the new state.
pub open spec fn spec_word(s: u64) -> u64 {
    spec_mix(s) >> 33
}

/// The value of a ranged draw from state `s`: below `n`, or zero when
/// the range is empty.
pub open spec fn spec_draw(s: u64, n: u64) -> u64 {
    if n == 0 {
        0
    } else {
        spec_word(s) % n
    }
}

/// A deterministic pseudo-random generator, one per ship.
#[derive(Clone, Copy, Debug, PartialEq, Eq, Structural)]
pub struct Rng {
    pub state: u64,
}

impl Rng {
    pub fn new(seed: u64) -> (r: Rng)
        ensures
            r.state == seed,
    {
        Rng { state: seed }
    }

    /// Advances the state once and returns the upper bits.
    pub fn next_word(&mut self) -> (r: u64)
        ensures
            final(self).state == spec_mix(old(self).state),
            r == spec_word(old(self).state),
    {
        self.state = self.state.wrapping_mul(RNG_MUL).wrapping_add(RNG_ADD);
        self.state >> 33
    }

    /// Draws a value in `[0, n)`, or `0` when `n == 0`.
    pub fn draw(&mut self, n: u64) -> (r: u64)
        ensures
            final(self).state == spec_mix(old(self).state),
            r == spec_draw(old(self).state, n),
            n > 0 ==> r < n,
            n == 0 ==> r == 0,
    {
        let w = self.next_word();
        if n == 0 {
            0
        } else {
            w % n
        }
    }
}

} // verus!
