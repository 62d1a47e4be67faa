//! Fixed-point trigonometric approximations for the camera: sine and cosine
//! by a Taylor polynomial after range reduction, tangent as their quotient,
//! and the inverse functions needed to move between a view direction and its
//! spherical coordinates.
//!
//! Each function computes a fixed polynomial approximation, and its contract
//! pins the computed value exactly.

use vstd::prelude::*;
use crate::fixed::{add_raw, div_raw, mag, max_raw, mul_raw, sat64, sqrt_raw, sub_raw, Fx};
use crate::interval::clamp_raw;

verus! {

/// The raw fixed-point value of two pi.
pub const FX_TWO_PI_RAW: i64 = 411775;

/// The raw fixed-point value of pi / 2.
pub const FX_HALF_PI_RAW: i64 = 102944;

/// An angle reduced into `[-pi, pi]` (up to one resolution step) by removing
/// whole turns and shifting by a turn where needed.
pub open spec fn wrap_pi_raw(x: int) -> int {
    let m = mag(x) % 411775;
    let r = if x < 0 {
        -m
    } else {
        m
    };
    if r > 205887 {
        r - 411775
    } else if r < -205887 {
        r + 411775
    } else {
        r
    }
}

/// An angle in `[-pi, pi]` folded into `[-pi/2, pi/2]` using the symmetry of
/// the sine about the quarter turns.
pub open spec fn fold_half_pi_raw(r: int) -> int {
    if r > 102944 {
        205887 - r
    } else if r < -102944 {
        -205887 - r
    } else {
        r
    }
}

/// The degree-seven Taylor polynomial of the sine:
/// `x - x^3/6 + x^5/120 - x^7/5040`.
pub open spec fn sin_poly_raw(x: int) -> int {
    let x2 = mul_raw(x, x);
    let x3 = mul_raw(x2, x);
    let x5 = mul_raw(x3, x2);
    let x7 = mul_raw(x5, x2);
    sub_raw(
        add_raw(sub_raw(x, div_raw(x3, 393216)), div_raw(x5, 7864320)),
        div_raw(x7, 330301440),
    )
}

/// The sine approximation: range reduction, folding, then the polynomial.
pub open spec fn sin_raw(x: int) -> int {
    sin_poly_raw(fold_half_pi_raw(wrap_pi_raw(x)))
}

/// The cosine approximation: the sine a quarter turn later.
pub open spec fn cos_raw(x: int) -> int {
    sin_raw(add_raw(x, 102944))
}

/// The tangent approximation: sine over cosine, saturating (by the sign of
/// the sine) where the cosine vanishes.
pub open spec fn tan_raw(x: int) -> int {
    let s = sin_raw(x);
    let c = cos_raw(x);
    if c == 0 {
        if s >= 0 {
            i64::MAX as int
        } else {
            i64::MIN as int
        }
    } else {
        div_raw(s, c)
    }
}

/// A polynomial arc-tangent approximation for arguments in `[-1, 1]`:
/// `t*pi/4 + t*(1 - |t|)*(0.2447 + 0.0663*|t|)`.
pub open spec fn atan_unit_raw(t: int) -> int {
    let a = sat64(mag(t));
    add_raw(
        mul_raw(t, 51472),
        mul_raw(mul_raw(t, sub_raw(65536, a)), add_raw(16037, mul_raw(4345, a))),
    )
}

/// The two-argument arc tangent: the angle of the point `(x, y)`, by octant
/// reduction to the unit arc tangent. The origin maps to angle zero.
pub open spec fn atan2_raw(y: int, x: int) -> int {
    if x == 0 {
        if y > 0 {
            102944
        } else if y < 0 {
            -102944
        } else {
            0
        }
    } else if sat64(mag(y)) <= sat64(mag(x)) {
        let base = atan_unit_raw(div_raw(y, x));
        if x > 0 {
            base
        } else if y >= 0 {
            add_raw(base, 205887)
        } else {
            sub_raw(base, 205887)
        }
    } else {
        let base = atan_unit_raw(div_raw(x, y));
        if y > 0 {
            sub_raw(102944, base)
        } else {
            sub_raw(-102944, base)
        }
    }
}

/// The arc sine for arguments clamped into `[-1, 1]`, from the arc tangent
/// of the sine against its cosine.
pub open spec fn asin_raw(y: int) -> int {
    let yc = clamp_raw(-65536, 65536, y);
    atan2_raw(yc, sqrt_raw(max_raw(sub_raw(65536, mul_raw(yc, yc)), 0)))
}

/// An angle reduced into `[-pi, pi]` (up to one resolution step).
fn wrap_pi(x: Fx) -> (r: Fx)
    ensures
        r.raw as int == wrap_pi_raw(x.raw as int),
{
    let m: u64 = if x.raw < 0 {
        ((-(x.raw as i128)) as u64) % 411775
    } else {
        (x.raw as u64) % 411775
    };
    let s: i64 = if x.raw < 0 {
        -(m as i64)
    } else {
        m as i64
    };
    if s > 205887 {
        Fx { raw: s - 411775 }
    } else if s < -205887 {
        Fx { raw: s + 411775 }
    } else {
        Fx { raw: s }
    }
}

/// The sine approximation.
pub fn sin_fx(x: Fx) -> (r: Fx)
    ensures
        r.raw as int == sin_raw(x.raw as int),
{
    let wrapped: Fx = wrap_pi(x);
    let folded: Fx = if wrapped.raw > 102944 {
        Fx { raw: 205887 - wrapped.raw }
    } else if wrapped.raw < -102944 {
        Fx { raw: -205887 - wrapped.raw }
    } else {
        wrapped
    };
    let x2: Fx = folded.mul(folded);
    let x3: Fx = x2.mul(folded);
    let x5: Fx = x3.mul(x2);
    let x7: Fx = x5.mul(x2);
    folded.sub(x3.div(Fx { raw: 393216 })).add(x5.div(Fx { raw: 7864320 })).sub(
        x7.div(Fx { raw: 330301440 }),
    )
}

/// The cosine approximation.
pub fn cos_fx(x: Fx) -> (r: Fx)
    ensures
        r.raw as int == cos_raw(x.raw as int),
{
    sin_fx(x.add(Fx { raw: 102944 }))
}

/// The tangent approximation, saturating where the cosine vanishes.
pub fn tan_fx(x: Fx) -> (r: Fx)
    ensures
        r.raw as int == tan_raw(x.raw as int),
{
    let s: Fx = sin_fx(x);
    let c: Fx = cos_fx(x);
    if c.raw == 0 {
        if s.raw >= 0 {
            Fx { raw: i64::MAX }
        } else {
            Fx { raw: i64::MIN }
        }
    } else {
        s.div(c)
    }
}

/// The unit arc-tangent polynomial, for arguments in `[-1, 1]`.
fn atan_unit(t: Fx) -> (r: Fx)
    ensures
        r.raw as int == atan_unit_raw(t.raw as int),
{
    let a: Fx = t.abs();
    t.mul(Fx { raw: 51472 }).add(
        t.mul(Fx { raw: 65536 }.sub(a)).mul(Fx { raw: 16037 }.add(Fx { raw: 4345 }.mul(a))),
    )
}

/// The two-argument arc tangent of the point `(x, y)`.
pub fn atan2_fx(y: Fx, x: Fx) -> (r: Fx)
    ensures
        r.raw as int == atan2_raw(y.raw as int, x.raw as int),
{
    if x.raw == 0 {
        if y.raw > 0 {
            Fx { raw: 102944 }
        } else if y.raw < 0 {
            Fx { raw: -102944 }
        } else {
            Fx { raw: 0 }
        }
    } else {
        let ya: Fx = y.abs();
        let xa: Fx = x.abs();
        if ya.raw <= xa.raw {
            let base: Fx = atan_unit(y.div(x));
            if x.raw > 0 {
                base
            } else if y.raw >= 0 {
                base.add(Fx { raw: 205887 })
            } else {
                base.sub(Fx { raw: 205887 })
            }
        } else {
            let base: Fx = atan_unit(x.div(y));
            if y.raw > 0 {
                Fx { raw: 102944 }.sub(base)
            } else {
                Fx { raw: -102944 }.sub(base)
            }
        }
    }
}

/// The arc sine for arguments clamped into `[-1, 1]`.
pub fn asin_fx(y: Fx) -> (r: Fx)
    ensures
        r.raw as int == asin_raw(y.raw as int),
{
    let yc: Fx = if y.raw < -65536 {
        Fx { raw: -65536 }
    } else if y.raw > 65536 {
        Fx { raw: 65536 }
    } else {
        y
    };
    let c: Fx = Fx { raw: 65536 }.sub(yc.mul(yc)).max(Fx { raw: 0 }).sqrt();
    atan2_fx(yc, c)
}

} // verus!
