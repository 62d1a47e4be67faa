//! Color output: the linear-to-gamma transform and quantization of an
//! averaged color into 8-bit channels.

use vstd::prelude::*;
use crate::fixed::{sqrt_raw, Fx};
use crate::interval::{clamp_raw, Interval};
use crate::vec3::Vec3;

verus! {

/// A vector used as an RGB color.
pub type Color = Vec3;

/// The linear-to-gamma transform of one channel: the square root for
/// positive inputs, zero otherwise (never a domain error).
pub open spec fn gamma_raw(x: int) -> int {
    if x > 0 {
        sqrt_raw(x)
    } else {
        0
    }
}

/// One gamma-corrected channel quantized to a byte: clamped into
/// `[0, 0.999]`, scaled by 256 and truncated. The result lies in `[0, 255]`.
pub open spec fn channel_byte(x: int) -> int {
    clamp_raw(0, 65470, gamma_raw(x)) * 256 / 65536
}

/// The quantized bytes of all three channels of a color.
pub open spec fn color_bytes(c: Color) -> (int, int, int) {
    (channel_byte(c.x.raw as int), channel_byte(c.y.raw as int), channel_byte(c.z.raw as int))
}

/// The gamma/clamp transform pins the extremes: a channel at or below zero
/// quantizes to the byte 0, and a channel at or above one quantizes to the
/// byte 255 (the clamp caps the transformed channel at 0.999, and
/// `floor(256 * 0.999) == 255`).
pub proof fn lemma_channel_byte_extremes(x: int)
    ensures
        x <= 0 ==> channel_byte(x) == 0,
        x >= 65536 ==> channel_byte(x) == 255,
{
    if x >= 65536 {
        assert(65536 * 65536 == 4294967296 && 65537 * 65537 > 4294967296) by (nonlinear_arith);
        crate::fixed::lemma_isqrt_unique(4294967296, 65536);
        assert(x * 65536 >= 4294967296);
        crate::fixed::lemma_isqrt_monotonic(4294967296, (x * 65536) as nat);
        assert(gamma_raw(x) >= 65536);
    }
}

/// One channel: gamma transform, clamp, and quantization.
fn quantize_channel(x: Fx) -> (r: u32)
    ensures
        r as int == channel_byte(x.raw as int),
        r <= 255,
{
    let g: Fx = if x.raw > 0 {
        x.sqrt()
    } else {
        Fx { raw: 0 }
    };
    let intensity: Interval = Interval::new(Fx { raw: 0 }, Fx { raw: 65470 });
    let clamped: Fx = intensity.clamp(g);
    ((clamped.raw as u64) * 256 / 65536) as u32
}

/// The gamma-corrected, clamped, quantized 8-bit channels of a color.
pub fn write_color(pixel_color: &Color) -> (r: (u32, u32, u32))
    ensures
        (r.0 as int, r.1 as int, r.2 as int) == color_bytes(*pixel_color),
        r.0 <= 255 && r.1 <= 255 && r.2 <= 255,
{
    let ir: u32 = quantize_channel(pixel_color.x);
    let ig: u32 = quantize_channel(pixel_color.y);
    let ib: u32 = quantize_channel(pixel_color.z);
    (ir, ig, ib)
}

} // verus!
