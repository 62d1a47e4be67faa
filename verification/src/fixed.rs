//! The scalar type of the ray tracer: a signed fixed-point number with 16
//! fractional bits, stored in an `i64`.
//!
//! Every arithmetic operation saturates at the `i64` range (the fixed-point
//! analogue of an infinity) and rounds quotients toward zero, and every
//! operation carries an exact contract: the result is pinned, bit for bit, by
//! a spec-level formula. All geometry, shading and integration in the crate
//! is built from these operations, so every computed color is likewise pinned
//! by its contract.

use vstd::prelude::*;

verus! {

/// The scale factor of the representation: `Fx { raw }` stands for the real
/// number `raw / FX_SCALE`.
pub const FX_SCALE: i64 = 65536;

/// A saturating signed fixed-point scalar with 16 fractional bits.
#[derive(Clone, Copy, Debug, PartialEq, Eq, Structural)]
pub struct Fx {
    pub raw: i64,
}

/// Saturation to the `i64` range.
pub open spec fn sat64(x: int) -> int {
    if x > i64::MAX as int {
        i64::MAX as int
    } else if x < i64::MIN as int {
        i64::MIN as int
    } else {
        x
    }
}

/// Magnitude of an integer.
pub open spec fn mag(x: int) -> int {
    if x < 0 {
        -x
    } else {
        x
    }
}

/// Division truncated toward zero (the rounding used by every quotient in
/// this crate), defined for `d != 0`.
pub open spec fn tdiv(p: int, d: int) -> int {
    let q = mag(p) / mag(d);
    if (p < 0) != (d < 0) {
        -q
    } else {
        q
    }
}

pub open spec fn add_raw(a: int, b: int) -> int {
    sat64(a + b)
}

pub open spec fn sub_raw(a: int, b: int) -> int {
    sat64(a - b)
}

pub open spec fn neg_raw(a: int) -> int {
    sat64(-a)
}

pub open spec fn mul_raw(a: int, b: int) -> int {
    sat64(tdiv(a * b, FX_SCALE as int))
}

pub open spec fn div_raw(a: int, b: int) -> int {
    sat64(tdiv(a * (FX_SCALE as int), b))
}

pub open spec fn min_raw(a: int, b: int) -> int {
    if a <= b {
        a
    } else {
        b
    }
}

pub open spec fn max_raw(a: int, b: int) -> int {
    if a >= b {
        a
    } else {
        b
    }
}

/// The integer square root, `isqrt(n) == floor(sqrt(n))`.
pub open spec fn isqrt(n: nat) -> nat
    decreases n,
{
    if n == 0 {
        0
    } else {
        let r = isqrt((n - 1) as nat);
        if (r + 1) * (r + 1) <= n {
            r + 1
        } else {
            r
        }
    }
}

/// The scalar with the given raw payload, for use in spec-level formulas;
/// meaningful when `raw` is already in the `i64` range.
pub open spec fn fx(raw: int) -> Fx {
    Fx { raw: raw as i64 }
}

/// The fixed-point square root: the root of `raw / FX_SCALE` scaled back up
/// is `sqrt(raw * FX_SCALE)`. A negative argument maps to zero.
pub open spec fn sqrt_raw(a: int) -> int {
    if a < 0 {
        0
    } else {
        isqrt((a * (FX_SCALE as int)) as nat) as int
    }
}

/// `isqrt` is the floor of the square root: `isqrt(n)^2 <= n < (isqrt(n)+1)^2`.
pub proof fn lemma_isqrt_bounds(n: nat)
    ensures
        isqrt(n) * isqrt(n) <= n,
        n < (isqrt(n) + 1) * (isqrt(n) + 1),
    decreases n,
{
    if n == 0 {
        assert(isqrt(0) == 0);
        assert(n < (isqrt(n) + 1) * (isqrt(n) + 1)) by (nonlinear_arith)
            requires
                n == 0,
                isqrt(n) == 0,
        ;
    } else {
        lemma_isqrt_bounds((n - 1) as nat);
        let r = isqrt((n - 1) as nat);
        if (r + 1) * (r + 1) <= n {
            assert(isqrt(n) == r + 1);
            assert(n <= (r + 1) * (r + 1));
            assert((r + 1) * (r + 1) < (r + 2) * (r + 2)) by (nonlinear_arith);
            assert(n < (r + 2) * (r + 2));
            assert(n < (isqrt(n) + 1) * (isqrt(n) + 1));
        } else {
            assert(isqrt(n) == r);
            assert(n < (isqrt(n) + 1) * (isqrt(n) + 1));
        }
    }
}

/// Any `r` with `r^2 <= n < (r+1)^2` is `isqrt(n)`.
pub proof fn lemma_isqrt_unique(n: nat, r: nat)
    requires
        r * r <= n,
        n < (r + 1) * (r + 1),
    ensures
        r == isqrt(n),
{
    let i = isqrt(n);
    lemma_isqrt_bounds(n);
    if r < i {
        assert((r + 1) * (r + 1) <= i * i) by (nonlinear_arith)
            requires
                r + 1 <= i,
        ;
    }
    if i < r {
        assert((i + 1) * (i + 1) <= r * r) by (nonlinear_arith)
            requires
                i + 1 <= r,
        ;
    }
}

/// `isqrt` is monotonic.
pub proof fn lemma_isqrt_monotonic(a: nat, b: nat)
    requires
        a <= b,
    ensures
        isqrt(a) <= isqrt(b),
{
    lemma_isqrt_bounds(a);
    lemma_isqrt_bounds(b);
    if isqrt(b) < isqrt(a) {
        assert((isqrt(b) + 1) * (isqrt(b) + 1) <= isqrt(a) * isqrt(a)) by (nonlinear_arith)
            requires
                isqrt(b) + 1 <= isqrt(a),
        ;
    }
}

/// Magnitude and sign of a product.
pub proof fn lemma_sign_mag_mul(a: int, b: int)
    ensures
        mag(a * b) == mag(a) * mag(b),
        (a * b < 0) == (((a < 0) != (b < 0)) && a != 0 && b != 0),
{
    assert(mag(a * b) == mag(a) * mag(b) && (a * b < 0) == (((a < 0) != (b < 0)) && a != 0 && b
        != 0)) by (nonlinear_arith);
}

/// Magnitude of the result of the exec helper below: the saturated value of
/// `q` or `-q`.
fn sat_signed(neg: bool, q: u128) -> (r: i64)
    ensures
        r as int == sat64(
            if neg {
                -(q as int)
            } else {
                q as int
            },
        ),
{
    if neg {
        if q >= 9223372036854775808u128 {
            i64::MIN
        } else {
            -(q as i64)
        }
    } else {
        if q > 9223372036854775807u128 {
            i64::MAX
        } else {
            q as i64
        }
    }
}

/// The magnitude of an `i64`, widened.
fn mag_u128(a: i64) -> (r: u128)
    ensures
        r as int == mag(a as int),
        r <= 9223372036854775808u128,
{
    if a < 0 {
        (-(a as i128)) as u128
    } else {
        a as u128
    }
}

/// Binary search for the integer square root; the input is bounded so that
/// the squares stay inside `u128`.
fn isqrt_u128(n: u128) -> (r: u128)
    requires
        n < 0x100000000000000000000u128,  // 2^80
    ensures
        r as nat == isqrt(n as nat),
        r <= 0x10000000000u128,  // 2^40
{
    let mut lo: u128 = 0;
    let mut hi: u128 = 0x10000000000u128;
    proof {
        assert(0x10000000000u128 * 0x10000000000u128 == 0x100000000000000000000u128)
            by (nonlinear_arith);
    }
    while lo + 1 < hi
        invariant
            lo < hi,
            hi <= 0x10000000000u128,
            lo * lo <= n,
            n < hi * hi,
        decreases hi - lo,
    {
        let mid: u128 = lo + (hi - lo) / 2;
        proof {
            assert(mid * mid <= 0x10000000000u128 * 0x10000000000u128) by (nonlinear_arith)
                requires
                    mid <= 0x10000000000u128,
            ;
        }
        if mid * mid <= n {
            lo = mid;
        } else {
            hi = mid;
        }
    }
    proof {
        lemma_isqrt_unique(n as nat, lo as nat);
    }
    lo
}

impl Fx {
    /// The scalar with the given raw fixed-point payload.
    pub fn from_raw(raw: i64) -> (r: Fx)
        ensures
            r.raw == raw,
    {
        Fx { raw }
    }

    /// The fixed-point representation of a whole number, saturated.
    pub fn from_int(v: i64) -> (r: Fx)
        ensures
            r.raw as int == sat64(v * 65536),
    {
        let wide: i128 = (v as i128) * 65536;
        if wide > 9223372036854775807i128 {
            Fx { raw: i64::MAX }
        } else if wide < -9223372036854775808i128 {
            Fx { raw: i64::MIN }
        } else {
            Fx { raw: wide as i64 }
        }
    }

    /// The whole part of the scalar, truncated toward zero.
    pub fn trunc(self) -> (r: i64)
        ensures
            r as int == tdiv(self.raw as int, 65536),
    {
        let m: u128 = mag_u128(self.raw);
        let q: u128 = m / 65536;
        if self.raw < 0 {
            -(q as i64)
        } else {
            q as i64
        }
    }

    /// Saturating addition.
    pub fn add(self, o: Fx) -> (r: Fx)
        ensures
            r.raw as int == add_raw(self.raw as int, o.raw as int),
    {
        let s: i128 = self.raw as i128 + o.raw as i128;
        if s > 9223372036854775807i128 {
            Fx { raw: i64::MAX }
        } else if s < -9223372036854775808i128 {
            Fx { raw: i64::MIN }
        } else {
            Fx { raw: s as i64 }
        }
    }

    /// Saturating subtraction.
    pub fn sub(self, o: Fx) -> (r: Fx)
        ensures
            r.raw as int == sub_raw(self.raw as int, o.raw as int),
    {
        let s: i128 = self.raw as i128 - o.raw as i128;
        if s > 9223372036854775807i128 {
            Fx { raw: i64::MAX }
        } else if s < -9223372036854775808i128 {
            Fx { raw: i64::MIN }
        } else {
            Fx { raw: s as i64 }
        }
    }

    /// Saturating negation.
    pub fn neg(self) -> (r: Fx)
        ensures
            r.raw as int == neg_raw(self.raw as int),
    {
        if self.raw == i64::MIN {
            Fx { raw: i64::MAX }
        } else {
            Fx { raw: -self.raw }
        }
    }

    /// The magnitude, saturated.
    pub fn abs(self) -> (r: Fx)
        ensures
            r.raw as int == sat64(mag(self.raw as int)),
    {
        if self.raw < 0 {
            self.neg()
        } else {
            self
        }
    }

    /// Saturating fixed-point multiplication, rounding toward zero.
    pub fn mul(self, o: Fx) -> (r: Fx)
        ensures
            r.raw as int == mul_raw(self.raw as int, o.raw as int),
    {
        let neg: bool = (self.raw < 0) != (o.raw < 0);
        let ma: u128 = mag_u128(self.raw);
        let mb: u128 = mag_u128(o.raw);
        proof {
            assert(ma * mb <= 9223372036854775808u128 * 9223372036854775808u128)
                by (nonlinear_arith)
                requires
                    ma <= 9223372036854775808u128,
                    mb <= 9223372036854775808u128,
            ;
        }
        let p: u128 = ma * mb;
        let q: u128 = p / 65536;
        proof {
            lemma_sign_mag_mul(self.raw as int, o.raw as int);
            assert(tdiv(self.raw as int * o.raw as int, 65536) == if neg {
                -(q as int)
            } else {
                q as int
            });
        }
        Fx { raw: sat_signed(neg, q) }
    }

    /// Saturating fixed-point division, rounding toward zero. Division by
    /// zero is excluded by contract: the callers in this crate guard every
    /// divisor.
    pub fn div(self, o: Fx) -> (r: Fx)
        requires
            o.raw != 0,
        ensures
            r.raw as int == div_raw(self.raw as int, o.raw as int),
    {
        let neg: bool = (self.raw < 0) != (o.raw < 0);
        let p: u128 = mag_u128(self.raw) * 65536;
        let mb: u128 = mag_u128(o.raw);
        let q: u128 = p / mb;
        proof {
            lemma_sign_mag_mul(self.raw as int, 65536);
            assert(tdiv(self.raw as int * 65536, o.raw as int) == if neg {
                -(q as int)
            } else {
                q as int
            });
        }
        Fx { raw: sat_signed(neg, q) }
    }

    /// The fixed-point square root; negative arguments map to zero.
    pub fn sqrt(self) -> (r: Fx)
        ensures
            r.raw as int == sqrt_raw(self.raw as int),
            r.raw >= 0,
    {
        if self.raw < 0 {
            Fx { raw: 0 }
        } else {
            let n: u128 = (self.raw as u128) * 65536;
            let r = isqrt_u128(n);
            Fx { raw: r as i64 }
        }
    }

    /// The smaller of two scalars.
    pub fn min(self, o: Fx) -> (r: Fx)
        ensures
            r.raw as int == min_raw(self.raw as int, o.raw as int),
    {
        if self.raw <= o.raw {
            self
        } else {
            o
        }
    }

    /// The larger of two scalars.
    pub fn max(self, o: Fx) -> (r: Fx)
        ensures
            r.raw as int == max_raw(self.raw as int, o.raw as int),
    {
        if self.raw >= o.raw {
            self
        } else {
            o
        }
    }
}

} // verus!
