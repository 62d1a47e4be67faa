//! Small numeric helpers shared across the crate: the fixed-point value of
//! pi, degree-to-radian conversion, and uniform scalar sampling.

use vstd::prelude::*;
use crate::fixed::{add_raw, div_raw, mul_raw, sub_raw, Fx};
use crate::rng::{rng_next_state, rng_output, unit_from_draw, Rng};

verus! {

/// The raw fixed-point value of pi.
pub const FX_PI_RAW: i64 = 205887;

/// The raw fixed-point value of 180, the degrees in a half turn.
pub const FX_DEG_RAW: i64 = 11796480;

/// Degrees to radians: `d * pi / 180`.
pub open spec fn deg_to_rad_raw(d: int) -> int {
    div_raw(mul_raw(d, 205887), 11796480)
}

/// Degrees to radians.
pub fn deg_to_rad(degrees: Fx) -> (r: Fx)
    ensures
        r.raw as int == deg_to_rad_raw(degrees.raw as int),
{
    degrees.mul(Fx { raw: FX_PI_RAW }).div(Fx { raw: FX_DEG_RAW })
}

/// The scalar `min + (max - min) * u` picked by the draw `d`, where `u` is
/// the unit scalar taken from the draw's top bits.
pub open spec fn range_from_draw(min: int, max: int, d: u64) -> int {
    add_raw(min, mul_raw(sub_raw(max, min), unit_from_draw(d)))
}

/// A uniform scalar in `[0, 1)`.
pub fn random_scalar(rng: &mut Rng) -> (r: Fx)
    ensures
        final(rng).state == rng_next_state(old(rng).state),
        r.raw as int == unit_from_draw(rng_output(old(rng).state)),
        0 <= r.raw < 65536,
{
    rng.next_unit()
}

/// A uniform scalar in `[min, max)`: `min + (max - min) * u` for a unit draw
/// `u`.
pub fn random_scalar_range(rng: &mut Rng, min: Fx, max: Fx) -> (r: Fx)
    ensures
        final(rng).state == rng_next_state(old(rng).state),
        r.raw as int == range_from_draw(min.raw as int, max.raw as int, rng_output(
            old(rng).state,
        )),
{
    let u: Fx = rng.next_unit();
    min.add(max.sub(min).mul(u))
}

} // verus!
