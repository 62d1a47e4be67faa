//! The crate's random source: a small, explicitly seeded generator owned by
//! the integrator and threaded through every sampling function.
//!
//! Keeping the generator explicit (rather than drawing from an ambient,
//! process-wide source) makes every render a pure function of its seed, which
//! the contracts state exactly: each draw is pinned to a spec-level mixing
//! function of the previous state.

use vstd::prelude::*;
use crate::fixed::Fx;

verus! {

/// One additive step of the generator's Weyl sequence.
pub open spec fn rng_next_state(s: u64) -> u64 {
    vstd::wrapping::u64_specs::wrapping_add(s, 0x9E3779B97F4A7C15)
}

/// The output mixing function applied to a state.
pub open spec fn rng_mix(s: u64) -> u64 {
    let z0 = vstd::wrapping::u64_specs::wrapping_mul(s ^ (s >> 30), 0xBF58476D1CE4E5B9);
    let z1 = vstd::wrapping::u64_specs::wrapping_mul(z0 ^ (z0 >> 27), 0x94D049BB133111EB);
    z1 ^ (z1 >> 31)
}

/// The raw draw produced by one call on a generator in state `s`.
pub open spec fn rng_output(s: u64) -> u64 {
    rng_mix(rng_next_state(s))
}

/// A uniform fixed-point scalar in `[0, 1)` derived from a raw draw: the top
/// sixteen bits of the draw become the fractional bits.
pub open spec fn unit_from_draw(d: u64) -> int {
    (d >> 48) as int
}

/// A deterministic pseudo-random generator with a 64-bit state.
#[derive(Clone, Copy, Debug, PartialEq, Eq, Structural)]
pub struct Rng {
    pub state: u64,
}

impl Rng {
    /// A generator starting from the given seed.
    pub fn new(seed: u64) -> (r: Rng)
        ensures
            r.state == seed,
    {
        Rng { state: seed }
    }

    /// Advances the state and returns the mixed draw.
    pub fn next_u64(&mut self) -> (r: u64)
        ensures
            final(self).state == rng_next_state(old(self).state),
            r == rng_output(old(self).state),
    {
        self.state = self.state.wrapping_add(0x9E3779B97F4A7C15);
        let z0: u64 = (self.state ^ (self.state >> 30)).wrapping_mul(0xBF58476D1CE4E5B9);
        let z1: u64 = (z0 ^ (z0 >> 27)).wrapping_mul(0x94D049BB133111EB);
        z1 ^ (z1 >> 31)
    }

    /// A uniform scalar in `[0, 1)`.
    pub fn next_unit(&mut self) -> (r: Fx)
        ensures
            final(self).state == rng_next_state(old(self).state),
            r.raw as int == unit_from_draw(rng_output(old(self).state)),
            0 <= r.raw < 65536,
    {
        let d: u64 = self.next_u64();
        let top: u64 = d >> 48;
        proof {
            assert(d >> 48 < 65536) by (bit_vector);
        }
        Fx { raw: top as i64 }
    }
}

} // verus!
