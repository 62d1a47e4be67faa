//! Three-component fixed-point vectors, used interchangeably as points,
//! directions and RGB colors.
//!
//! Every executable operation is pinned to a spec-level twin built from the
//! raw fixed-point formulas of [`crate::fixed`], so a vector computation is
//! fully determined by its inputs.

use vstd::prelude::*;
use crate::fixed::{
    add_raw, div_raw, fx, lemma_isqrt_monotonic, lemma_isqrt_unique, lemma_sign_mag_mul, mag,
    mul_raw, neg_raw, sat64, sqrt_raw, sub_raw, tdiv, Fx,
};
use crate::helper::{random_scalar_range, range_from_draw};
use crate::rng::{rng_next_state, rng_output, Rng};

verus! {

/// A vector of three fixed-point components.
#[derive(Clone, Copy, Debug, PartialEq, Eq, Structural)]
pub struct Vec3 {
    pub x: Fx,
    pub y: Fx,
    pub z: Fx,
}

/// A vector used as a spatial position.
pub type Point3 = Vec3;

/// The vector with the given raw components.
pub open spec fn vec_raw(x: int, y: int, z: int) -> Vec3 {
    Vec3 { x: fx(x), y: fx(y), z: fx(z) }
}

/// Component-wise saturating sum.
pub open spec fn vadd(a: Vec3, b: Vec3) -> Vec3 {
    vec_raw(
        add_raw(a.x.raw as int, b.x.raw as int),
        add_raw(a.y.raw as int, b.y.raw as int),
        add_raw(a.z.raw as int, b.z.raw as int),
    )
}

/// Component-wise saturating difference.
pub open spec fn vsub(a: Vec3, b: Vec3) -> Vec3 {
    vec_raw(
        sub_raw(a.x.raw as int, b.x.raw as int),
        sub_raw(a.y.raw as int, b.y.raw as int),
        sub_raw(a.z.raw as int, b.z.raw as int),
    )
}

/// Component-wise product.
pub open spec fn vmul(a: Vec3, b: Vec3) -> Vec3 {
    vec_raw(
        mul_raw(a.x.raw as int, b.x.raw as int),
        mul_raw(a.y.raw as int, b.y.raw as int),
        mul_raw(a.z.raw as int, b.z.raw as int),
    )
}

/// Component-wise negation.
pub open spec fn vneg(a: Vec3) -> Vec3 {
    vec_raw(neg_raw(a.x.raw as int), neg_raw(a.y.raw as int), neg_raw(a.z.raw as int))
}

/// The vector scaled by `s`.
pub open spec fn vscale(a: Vec3, s: int) -> Vec3 {
    vec_raw(mul_raw(a.x.raw as int, s), mul_raw(a.y.raw as int, s), mul_raw(a.z.raw as int, s))
}

/// The raw reciprocal of a scalar.
pub open spec fn recip_raw(s: int) -> int {
    div_raw(65536, s)
}

/// The vector divided by a scalar: scaled by the reciprocal, computed once.
pub open spec fn vdiv(a: Vec3, s: int) -> Vec3 {
    vscale(a, recip_raw(s))
}

/// The dot product, summed left to right.
pub open spec fn dot_raw(a: Vec3, b: Vec3) -> int {
    add_raw(
        add_raw(
            mul_raw(a.x.raw as int, b.x.raw as int),
            mul_raw(a.y.raw as int, b.y.raw as int),
        ),
        mul_raw(a.z.raw as int, b.z.raw as int),
    )
}

/// The squared Euclidean length.
pub open spec fn len_sq_raw(a: Vec3) -> int {
    dot_raw(a, a)
}

/// The Euclidean length.
pub open spec fn len_raw(a: Vec3) -> int {
    sqrt_raw(len_sq_raw(a))
}

/// The cross product.
pub open spec fn cross_spec(a: Vec3, b: Vec3) -> Vec3 {
    vec_raw(
        sub_raw(
            mul_raw(a.y.raw as int, b.z.raw as int),
            mul_raw(a.z.raw as int, b.y.raw as int),
        ),
        sub_raw(
            mul_raw(a.z.raw as int, b.x.raw as int),
            mul_raw(a.x.raw as int, b.z.raw as int),
        ),
        sub_raw(
            mul_raw(a.x.raw as int, b.y.raw as int),
            mul_raw(a.y.raw as int, b.x.raw as int),
        ),
    )
}

/// The vector rescaled to (approximately) unit length: divided by its own
/// length.
pub open spec fn unit_spec(a: Vec3) -> Vec3 {
    vdiv(a, len_raw(a))
}

/// Whether every component is too small to distinguish from zero at this
/// resolution.
pub open spec fn near_zero_spec(a: Vec3) -> bool {
    a.x.raw == 0 && a.y.raw == 0 && a.z.raw == 0
}

/// The reflection of `v` about the unit normal `n`: `v - 2 * dot(v, n) * n`.
pub open spec fn reflect_spec(v: Vec3, n: Vec3) -> Vec3 {
    vsub(v, vscale(n, mul_raw(131072, dot_raw(v, n))))
}

/// The refraction of the unit vector `uv` at the unit normal `n` with
/// relative refraction index `eta`, by Snell's law split into components
/// perpendicular and parallel to the normal.
pub open spec fn refract_spec(uv: Vec3, n: Vec3, eta: int) -> Vec3 {
    let cos_theta = if dot_raw(vneg(uv), n) <= 65536 {
        dot_raw(vneg(uv), n)
    } else {
        65536
    };
    let r_out_perp = vscale(vadd(uv, vscale(n, cos_theta)), eta);
    let r_out_parallel = vscale(
        n,
        neg_raw(sqrt_raw(sat64(mag(sub_raw(65536, len_sq_raw(r_out_perp)))))),
    );
    vadd(r_out_perp, r_out_parallel)
}

/// A vector of three scalars drawn uniformly from `[min, max)`, with the
/// generator state after the three draws.
pub open spec fn random_range_spec(min: int, max: int, s: u64) -> (Vec3, u64) {
    let s1 = rng_next_state(s);
    let s2 = rng_next_state(s1);
    let s3 = rng_next_state(s2);
    (
        vec_raw(
            range_from_draw(min, max, rng_output(s)),
            range_from_draw(min, max, rng_output(s1)),
            range_from_draw(min, max, rng_output(s2)),
        ),
        s3,
    )
}

/// The number of rejection-sampling attempts made before falling back to a
/// fixed direction.
pub const SAMPLE_ATTEMPTS: u64 = 32;

/// Rejection sampling of a unit vector with `n` attempts left: a uniform
/// point of the cube `[-1, 1)^3` is accepted if its squared length lies in
/// `(0, 1]` and is then normalized; when every attempt is rejected, the unit
/// x-axis vector stands in.
pub open spec fn random_unit_vector_spec(n: nat, s: u64) -> (Vec3, u64)
    decreases n,
{
    if n == 0 {
        (vec_raw(65536, 0, 0), s)
    } else {
        let (p, s1) = random_range_spec(-65536, 65536, s);
        let lsq = len_sq_raw(p);
        if 1 <= lsq <= 65536 {
            (vscale(p, recip_raw(sqrt_raw(lsq))), s1)
        } else {
            random_unit_vector_spec((n - 1) as nat, s1)
        }
    }
}

/// Rejection sampling of a point in the unit disk (`z == 0`) with `n`
/// attempts left; when every attempt is rejected, the disk's center stands
/// in.
pub open spec fn random_in_unit_disk_spec(n: nat, s: u64) -> (Vec3, u64)
    decreases n,
{
    if n == 0 {
        (vec_raw(0, 0, 0), s)
    } else {
        let s1 = rng_next_state(s);
        let s2 = rng_next_state(s1);
        let p = vec_raw(
            range_from_draw(-65536, 65536, rng_output(s)),
            range_from_draw(-65536, 65536, rng_output(s1)),
            0,
        );
        if len_sq_raw(p) < 65536 {
            (p, s2)
        } else {
            random_in_unit_disk_spec((n - 1) as nat, s2)
        }
    }
}

/// A unit-ish vector on the hemisphere around `normal`: the sampled unit
/// vector, negated when it points against the normal.
pub open spec fn random_on_hemisphere_spec(normal: Vec3, s: u64) -> (Vec3, u64) {
    let (p, s1) = random_unit_vector_spec(SAMPLE_ATTEMPTS as nat, s);
    if dot_raw(p, normal) > 0 {
        (p, s1)
    } else {
        (vneg(p), s1)
    }
}

/// Scaling by one is exact.
proof fn lemma_mul_raw_one(x: int)
    requires
        -0x8000000000000000 <= x <= 0x7fffffffffffffff,
    ensures
        mul_raw(x, 65536) == x,
{
    lemma_sign_mag_mul(x, 65536);
    assert(mag(x) * 65536 / 65536 == mag(x)) by {
        vstd::arithmetic::div_mod::lemma_div_multiples_vanish(mag(x), 65536);
        assert(mag(x) * 65536 == 65536 * mag(x)) by (nonlinear_arith);
    };
}

/// A vector whose squared length is exactly one is already unit, and
/// normalizing it is exact: dividing it by its own length returns it
/// unchanged, so the normalized vector's length is exactly one. (A vector
/// whose length is not exactly representable is normalized with each
/// component rounded toward zero at the sixteenth fractional bit.)
pub proof fn lemma_unit_vector_of_unit_is_exact(v: Vec3)
    requires
        len_sq_raw(v) == 65536,
    ensures
        unit_spec(v) == v,
        len_raw(unit_spec(v)) == 65536,
{
    assert(65536 * 65536 == 4294967296 && 65537 * 65537 > 4294967296) by (nonlinear_arith);
    lemma_isqrt_unique(4294967296, 65536);
    assert(len_raw(v) == 65536);
    assert(mag(65536int * 65536) == 4294967296);
    assert(mag(65536int) == 65536);
    assert(tdiv(65536int * 65536, 65536) == 65536);
    assert(recip_raw(65536) == 65536);
    lemma_mul_raw_one(v.x.raw as int);
    lemma_mul_raw_one(v.y.raw as int);
    lemma_mul_raw_one(v.z.raw as int);
    assert(unit_spec(v) == v);
}

/// A component whose rounded square is bounded is itself bounded.
proof fn lemma_sq_term_bound(x: int, tb: int, xb: int)
    requires
        mul_raw(x, x) <= tb,
        0 <= tb,
        tb < 0x7fffffffffffffff,
        0 <= xb,
        xb * xb >= (tb + 1) * 65536,
    ensures
        mag(x) <= xb,
{
    if mag(x) > xb {
        lemma_sign_mag_mul(x, x);
        assert(mag(x) * mag(x) >= (xb + 1) * (xb + 1) && (xb + 1) * (xb + 1) > xb * xb)
            by (nonlinear_arith)
            requires
                mag(x) >= xb + 1,
                xb >= 0,
        ;
        vstd::arithmetic::div_mod::lemma_div_is_ordered((tb + 1) * 65536, x * x, 65536);
        vstd::arithmetic::div_mod::lemma_div_multiples_vanish(tb + 1, 65536);
        assert((tb + 1) * 65536 == 65536 * (tb + 1)) by (nonlinear_arith);
    }
}

/// Normalizing keeps a unit vector's length at one within tolerance: for a
/// vector whose squared length is one up to the rounding of its three
/// squared components, the normalized vector's squared length is one within
/// thirty-two resolution steps.
#[verifier::rlimit(60)]
pub proof fn lemma_unit_vector_length_tolerance(v: Vec3)
    requires
        65533 <= len_sq_raw(v) <= 65539,
    ensures
        mag(len_sq_raw(unit_spec(v)) - 65536) <= 32,
{
    let vx = v.x.raw as int;
    let vy = v.y.raw as int;
    let vz = v.z.raw as int;
    let t1 = mul_raw(vx, vx);
    let t2 = mul_raw(vy, vy);
    let t3 = mul_raw(vz, vz);
    assert(t1 >= 0 && t2 >= 0 && t3 >= 0) by {
        lemma_sign_mag_mul(vx, vx);
        lemma_sign_mag_mul(vy, vy);
        lemma_sign_mag_mul(vz, vz);
        vstd::arithmetic::div_mod::lemma_div_is_ordered(0, vx * vx, 65536);
        vstd::arithmetic::div_mod::lemma_div_is_ordered(0, vy * vy, 65536);
        vstd::arithmetic::div_mod::lemma_div_is_ordered(0, vz * vz, 65536);
    };
    let q = len_sq_raw(v);
    assert(q == t1 + t2 + t3);
    assert(65544 * 65544 >= (65539 + 1) * 65536) by (nonlinear_arith);
    lemma_sq_term_bound(vx, 65539, 65544);
    lemma_sq_term_bound(vy, 65539, 65544);
    lemma_sq_term_bound(vz, 65539, 65544);
    // the computed length sits within two steps of one
    let ll = len_raw(v);
    assert(65534 <= ll <= 65537) by {
        assert(65534 * 65534 <= 65533 * 65536 && 65533 * 65536 < 65535 * 65535)
            by (nonlinear_arith);
        assert(65537 * 65537 <= 65539 * 65536 && 65539 * 65536 < 65538 * 65538)
            by (nonlinear_arith);
        lemma_isqrt_unique((65533 * 65536) as nat, 65534);
        lemma_isqrt_unique((65539 * 65536) as nat, 65537);
        lemma_isqrt_monotonic((65533 * 65536) as nat, (q * 65536) as nat);
        lemma_isqrt_monotonic((q * 65536) as nat, (65539 * 65536) as nat);
    };
    // and so does the reciprocal the division scales by
    let rc = recip_raw(ll);
    assert(65535 <= rc <= 65538) by {
        vstd::arithmetic::div_mod::lemma_div_is_ordered_by_denominator(4294967296, 65534, ll);
        vstd::arithmetic::div_mod::lemma_div_is_ordered_by_denominator(4294967296, ll, 65537);
        assert(4294967296int / 65534 == 65538);
        assert(4294967296int / 65537 == 65535);
    };
    let u = unit_spec(v);
    let ux = u.x.raw as int;
    let uy = u.y.raw as int;
    let uz = u.z.raw as int;
    assert(ux == tdiv(vx * rc, 65536) && uy == tdiv(vy * rc, 65536) && uz == tdiv(
        vz * rc,
        65536,
    )) by {
        lemma_sign_mag_mul(vx, rc);
        lemma_sign_mag_mul(vy, rc);
        lemma_sign_mag_mul(vz, rc);
        vstd::arithmetic::mul::lemma_mul_upper_bound(mag(vx), 65544, mag(rc), 65538);
        vstd::arithmetic::mul::lemma_mul_upper_bound(mag(vy), 65544, mag(rc), 65538);
        vstd::arithmetic::mul::lemma_mul_upper_bound(mag(vz), 65544, mag(rc), 65538);
        lemma_tdiv_mag(vx * rc, 65544int * 65538);
        lemma_tdiv_mag(vy * rc, 65544int * 65538);
        lemma_tdiv_mag(vz * rc, 65544int * 65538);
    };
    // each normalized component moves by at most three steps
    assert(mag(ux - vx) <= 3 && mag(uy - vy) <= 3 && mag(uz - vz) <= 3) by {
        lemma_tdiv_rem(vx * rc);
        lemma_tdiv_rem(vy * rc);
        lemma_tdiv_rem(vz * rc);
        assert(vx * rc - vx * 65536 == vx * (rc - 65536) && vy * rc - vy * 65536 == vy * (rc
            - 65536) && vz * rc - vz * 65536 == vz * (rc - 65536)) by (nonlinear_arith);
        lemma_sign_mag_mul(vx, rc - 65536);
        lemma_sign_mag_mul(vy, rc - 65536);
        lemma_sign_mag_mul(vz, rc - 65536);
        vstd::arithmetic::mul::lemma_mul_upper_bound(mag(vx), 65544, mag(rc - 65536), 2);
        vstd::arithmetic::mul::lemma_mul_upper_bound(mag(vy), 65544, mag(rc - 65536), 2);
        vstd::arithmetic::mul::lemma_mul_upper_bound(mag(vz), 65544, mag(rc - 65536), 2);
        assert(65536 * (ux - vx) == vx * (rc - 65536) - (vx * rc - 65536 * tdiv(vx * rc, 65536)))
            by (nonlinear_arith)
            requires
                ux == tdiv(vx * rc, 65536),
        ;
        assert(65536 * (uy - vy) == vy * (rc - 65536) - (vy * rc - 65536 * tdiv(vy * rc, 65536)))
            by (nonlinear_arith)
            requires
                uy == tdiv(vy * rc, 65536),
        ;
        assert(65536 * (uz - vz) == vz * (rc - 65536) - (vz * rc - 65536 * tdiv(vz * rc, 65536)))
            by (nonlinear_arith)
            requires
                uz == tdiv(vz * rc, 65536),
        ;
        lemma_sign_mag_mul(65536, ux - vx);
        lemma_sign_mag_mul(65536, uy - vy);
        lemma_sign_mag_mul(65536, uz - vz);
    };
    // so each squared term moves by at most eight steps
    let s1 = mul_raw(ux, ux);
    let s2 = mul_raw(uy, uy);
    let s3 = mul_raw(uz, uz);
    assert(mag(s1 - t1) <= 8 && mag(s2 - t2) <= 8 && mag(s3 - t3) <= 8) by {
        assert(ux * ux - vx * vx == (ux - vx) * (ux + vx) && uy * uy - vy * vy == (uy - vy) * (uy
            + vy) && uz * uz - vz * vz == (uz - vz) * (uz + vz)) by (nonlinear_arith);
        lemma_sign_mag_mul(ux - vx, ux + vx);
        lemma_sign_mag_mul(uy - vy, uy + vy);
        lemma_sign_mag_mul(uz - vz, uz + vz);
        vstd::arithmetic::mul::lemma_mul_upper_bound(mag(ux - vx), 3, mag(ux + vx), 131091);
        vstd::arithmetic::mul::lemma_mul_upper_bound(mag(uy - vy), 3, mag(uy + vy), 131091);
        vstd::arithmetic::mul::lemma_mul_upper_bound(mag(uz - vz), 3, mag(uz + vz), 131091);
        lemma_tdiv_rem(ux * ux);
        lemma_tdiv_rem(uy * uy);
        lemma_tdiv_rem(uz * uz);
        lemma_tdiv_rem(vx * vx);
        lemma_tdiv_rem(vy * vy);
        lemma_tdiv_rem(vz * vz);
        lemma_sign_mag_mul(ux, ux);
        lemma_sign_mag_mul(uy, uy);
        lemma_sign_mag_mul(uz, uz);
        lemma_sign_mag_mul(vx, vx);
        lemma_sign_mag_mul(vy, vy);
        lemma_sign_mag_mul(vz, vz);
        vstd::arithmetic::mul::lemma_mul_upper_bound(mag(ux), 65547, mag(ux), 65547);
        vstd::arithmetic::mul::lemma_mul_upper_bound(mag(uy), 65547, mag(uy), 65547);
        vstd::arithmetic::mul::lemma_mul_upper_bound(mag(uz), 65547, mag(uz), 65547);
        vstd::arithmetic::mul::lemma_mul_upper_bound(mag(vx), 65544, mag(vx), 65544);
        vstd::arithmetic::mul::lemma_mul_upper_bound(mag(vy), 65544, mag(vy), 65544);
        vstd::arithmetic::mul::lemma_mul_upper_bound(mag(vz), 65544, mag(vz), 65544);
        lemma_tdiv_mag(ux * ux, 65547int * 65547);
        lemma_tdiv_mag(uy * uy, 65547int * 65547);
        lemma_tdiv_mag(uz * uz, 65547int * 65547);
        lemma_tdiv_mag(vx * vx, 65544int * 65544);
        lemma_tdiv_mag(vy * vy, 65544int * 65544);
        lemma_tdiv_mag(vz * vz, 65544int * 65544);
        assert(65536 * (s1 - t1) == (ux * ux - vx * vx) - (ux * ux - 65536 * tdiv(ux * ux, 65536))
            + (vx * vx - 65536 * tdiv(vx * vx, 65536))) by (nonlinear_arith)
            requires
                s1 == tdiv(ux * ux, 65536),
                t1 == tdiv(vx * vx, 65536),
        ;
        assert(65536 * (s2 - t2) == (uy * uy - vy * vy) - (uy * uy - 65536 * tdiv(uy * uy, 65536))
            + (vy * vy - 65536 * tdiv(vy * vy, 65536))) by (nonlinear_arith)
            requires
                s2 == tdiv(uy * uy, 65536),
                t2 == tdiv(vy * vy, 65536),
        ;
        assert(65536 * (s3 - t3) == (uz * uz - vz * vz) - (uz * uz - 65536 * tdiv(uz * uz, 65536))
            + (vz * vz - 65536 * tdiv(vz * vz, 65536))) by (nonlinear_arith)
            requires
                s3 == tdiv(uz * uz, 65536),
                t3 == tdiv(vz * vz, 65536),
        ;
        lemma_sign_mag_mul(65536, s1 - t1);
        lemma_sign_mag_mul(65536, s2 - t2);
        lemma_sign_mag_mul(65536, s3 - t3);
    };
    assert(len_sq_raw(u) == s1 + s2 + s3);
}

/// With exact (unrounded) integer components, the cross product is
/// orthogonal to both of its factors: its exact dot product with either
/// factor is zero. The executable cross and dot products round each
/// two-component product toward zero at the sixteenth fractional bit, so
/// their composition differs from zero only by those roundings.
pub proof fn lemma_cross_orthogonal_exact(ax: int, ay: int, az: int, bx: int, by: int, bz: int)
    ensures
        (ay * bz - az * by) * ax + (az * bx - ax * bz) * ay + (ax * by - ay * bx) * az == 0,
        (ay * bz - az * by) * bx + (az * bx - ax * bz) * by + (ax * by - ay * bx) * bz == 0,
{
    assert((ay * bz - az * by) * ax + (az * bx - ax * bz) * ay + (ax * by - ay * bx) * az == 0)
        by (nonlinear_arith);
    assert((ay * bz - az * by) * bx + (az * bx - ax * bz) * by + (ax * by - ay * bx) * bz == 0)
        by (nonlinear_arith);
}

/// Truncating division at the sixteenth bit leaves a remainder below one
/// resolution step.
proof fn lemma_tdiv_rem(p: int)
    ensures
        mag(p - 65536 * tdiv(p, 65536)) <= 65535,
{
    if p >= 0 {
        vstd::arithmetic::div_mod::lemma_fundamental_div_mod(p, 65536);
        vstd::arithmetic::div_mod::lemma_mod_bound(p, 65536);
    } else {
        vstd::arithmetic::div_mod::lemma_fundamental_div_mod(-p, 65536);
        vstd::arithmetic::div_mod::lemma_mod_bound(-p, 65536);
    }
}

/// The magnitude of a truncated quotient at the sixteenth bit.
proof fn lemma_tdiv_mag(p: int, pb: int)
    requires
        mag(p) <= pb,
    ensures
        mag(tdiv(p, 65536)) <= pb / 65536,
{
    vstd::arithmetic::div_mod::lemma_div_is_ordered(mag(p), pb, 65536);
    vstd::arithmetic::div_mod::lemma_div_is_ordered(0, mag(p), 65536);
}

/// The difference of two rounding remainders, scaled by a component, stays
/// within two resolution steps of the component's magnitude.
proof fn lemma_rounding_term_bound(r1: int, r2: int, x: int)
    requires
        mag(r1) <= 65535,
        mag(r2) <= 65535,
    ensures
        mag((r2 - r1) * x) <= 131070 * mag(x),
{
    lemma_sign_mag_mul(r2 - r1, x);
    vstd::arithmetic::mul::lemma_mul_upper_bound(mag(r2 - r1), 131070, mag(x), mag(x));
}

/// The computed cross product is orthogonal to its factor up to rounding:
/// the executable dot of the executable cross with the first factor differs
/// from zero by at most two parts in 2^16 of the factor's absolute component
/// sum, plus three resolution steps. Stated for components bounded well away
/// from saturation.
#[verifier::rlimit(60)]
pub proof fn lemma_cross_orthogonal_rounded(a: Vec3, b: Vec3)
    requires
        mag(a.x.raw as int) <= 0x40000000,
        mag(a.y.raw as int) <= 0x40000000,
        mag(a.z.raw as int) <= 0x40000000,
        mag(b.x.raw as int) <= 0x40000000,
        mag(b.y.raw as int) <= 0x40000000,
        mag(b.z.raw as int) <= 0x40000000,
    ensures
        mag(dot_raw(cross_spec(a, b), a)) <= 2 * (mag(a.x.raw as int) + mag(a.y.raw as int)
            + mag(a.z.raw as int)) / 65536 + 3,
{
    let ax = a.x.raw as int;
    let ay = a.y.raw as int;
    let az = a.z.raw as int;
    let bx = b.x.raw as int;
    let by = b.y.raw as int;
    let bz = b.z.raw as int;
    let am = mag(ax) + mag(ay) + mag(az);
    let p1 = ay * bz;
    let p2 = az * by;
    let p3 = az * bx;
    let p4 = ax * bz;
    let p5 = ax * by;
    let p6 = ay * bx;
    assert(mag(p1) <= 0x1000000000000000 && mag(p2) <= 0x1000000000000000 && mag(p3)
        <= 0x1000000000000000 && mag(p4) <= 0x1000000000000000 && mag(p5) <= 0x1000000000000000
        && mag(p6) <= 0x1000000000000000) by {
        lemma_sign_mag_mul(ay, bz);
        lemma_sign_mag_mul(az, by);
        lemma_sign_mag_mul(az, bx);
        lemma_sign_mag_mul(ax, bz);
        lemma_sign_mag_mul(ax, by);
        lemma_sign_mag_mul(ay, bx);
        vstd::arithmetic::mul::lemma_mul_upper_bound(mag(ay), 0x40000000, mag(bz), 0x40000000);
        vstd::arithmetic::mul::lemma_mul_upper_bound(mag(az), 0x40000000, mag(by), 0x40000000);
        vstd::arithmetic::mul::lemma_mul_upper_bound(mag(az), 0x40000000, mag(bx), 0x40000000);
        vstd::arithmetic::mul::lemma_mul_upper_bound(mag(ax), 0x40000000, mag(bz), 0x40000000);
        vstd::arithmetic::mul::lemma_mul_upper_bound(mag(ax), 0x40000000, mag(by), 0x40000000);
        vstd::arithmetic::mul::lemma_mul_upper_bound(mag(ay), 0x40000000, mag(bx), 0x40000000);
    };
    let q1 = tdiv(p1, 65536);
    let q2 = tdiv(p2, 65536);
    let q3 = tdiv(p3, 65536);
    let q4 = tdiv(p4, 65536);
    let q5 = tdiv(p5, 65536);
    let q6 = tdiv(p6, 65536);
    lemma_tdiv_mag(p1, 0x1000000000000000);
    lemma_tdiv_mag(p2, 0x1000000000000000);
    lemma_tdiv_mag(p3, 0x1000000000000000);
    lemma_tdiv_mag(p4, 0x1000000000000000);
    lemma_tdiv_mag(p5, 0x1000000000000000);
    lemma_tdiv_mag(p6, 0x1000000000000000);
    let r1 = p1 - 65536 * q1;
    let r2 = p2 - 65536 * q2;
    let r3 = p3 - 65536 * q3;
    let r4 = p4 - 65536 * q4;
    let r5 = p5 - 65536 * q5;
    let r6 = p6 - 65536 * q6;
    lemma_tdiv_rem(p1);
    lemma_tdiv_rem(p2);
    lemma_tdiv_rem(p3);
    lemma_tdiv_rem(p4);
    lemma_tdiv_rem(p5);
    lemma_tdiv_rem(p6);
    let c = cross_spec(a, b);
    let cx = c.x.raw as int;
    let cy = c.y.raw as int;
    let cz = c.z.raw as int;
    assert(cx == q1 - q2 && cy == q3 - q4 && cz == q5 - q6);
    let u1 = cx * ax;
    let u2 = cy * ay;
    let u3 = cz * az;
    assert(0x1000000000000000int / 65536 == 0x100000000000int);
    assert(mag(u1) <= 0x8000000000000000000 && mag(u2) <= 0x8000000000000000000 && mag(u3)
        <= 0x8000000000000000000) by {
        lemma_sign_mag_mul(cx, ax);
        lemma_sign_mag_mul(cy, ay);
        lemma_sign_mag_mul(cz, az);
        vstd::arithmetic::mul::lemma_mul_upper_bound(mag(cx), 0x200000000000, mag(ax), 0x40000000);
        vstd::arithmetic::mul::lemma_mul_upper_bound(mag(cy), 0x200000000000, mag(ay), 0x40000000);
        vstd::arithmetic::mul::lemma_mul_upper_bound(mag(cz), 0x200000000000, mag(az), 0x40000000);
    };
    let m1 = tdiv(u1, 65536);
    let m2 = tdiv(u2, 65536);
    let m3 = tdiv(u3, 65536);
    lemma_tdiv_mag(u1, 0x8000000000000000000);
    lemma_tdiv_mag(u2, 0x8000000000000000000);
    lemma_tdiv_mag(u3, 0x8000000000000000000);
    assert(0x8000000000000000000int / 65536 == 0x800000000000000int);
    let t1 = u1 - 65536 * m1;
    let t2 = u2 - 65536 * m2;
    let t3 = u3 - 65536 * m3;
    lemma_tdiv_rem(u1);
    lemma_tdiv_rem(u2);
    lemma_tdiv_rem(u3);
    let dt = dot_raw(c, a);
    assert(dt == m1 + m2 + m3);
    // the exact cross is orthogonal to the factor
    lemma_cross_orthogonal_exact(ax, ay, az, bx, by, bz);
    assert((p1 - p2) * ax + (p3 - p4) * ay + (p5 - p6) * az == 0) by (nonlinear_arith)
        requires
            p1 == ay * bz,
            p2 == az * by,
            p3 == az * bx,
            p4 == ax * bz,
            p5 == ax * by,
            p6 == ay * bx,
            (ay * bz - az * by) * ax + (az * bx - ax * bz) * ay + (ax * by - ay * bx) * az == 0,
    ;
    // scale each dot term back up and substitute the rounded cross components
    assert(65536 * u1 == (p1 - p2) * ax + (r2 - r1) * ax) by (nonlinear_arith)
        requires
            u1 == cx * ax,
            cx == q1 - q2,
            r1 == p1 - 65536 * q1,
            r2 == p2 - 65536 * q2,
    ;
    assert(65536 * u2 == (p3 - p4) * ay + (r4 - r3) * ay) by (nonlinear_arith)
        requires
            u2 == cy * ay,
            cy == q3 - q4,
            r3 == p3 - 65536 * q3,
            r4 == p4 - 65536 * q4,
    ;
    assert(65536 * u3 == (p5 - p6) * az + (r6 - r5) * az) by (nonlinear_arith)
        requires
            u3 == cz * az,
            cz == q5 - q6,
            r5 == p5 - 65536 * q5,
            r6 == p6 - 65536 * q6,
    ;
    let big = 4294967296 * dt;
    assert(big == (r2 - r1) * ax + (r4 - r3) * ay + (r6 - r5) * az - 65536 * (t1 + t2 + t3))
        by (nonlinear_arith)
        requires
            big == 4294967296 * dt,
            dt == m1 + m2 + m3,
            t1 == u1 - 65536 * m1,
            t2 == u2 - 65536 * m2,
            t3 == u3 - 65536 * m3,
            65536 * u1 == (p1 - p2) * ax + (r2 - r1) * ax,
            65536 * u2 == (p3 - p4) * ay + (r4 - r3) * ay,
            65536 * u3 == (p5 - p6) * az + (r6 - r5) * az,
            (p1 - p2) * ax + (p3 - p4) * ay + (p5 - p6) * az == 0,
    ;
    lemma_rounding_term_bound(r1, r2, ax);
    lemma_rounding_term_bound(r3, r4, ay);
    lemma_rounding_term_bound(r5, r6, az);
    assert(mag(big) <= 131070 * am + 12884705280) by (nonlinear_arith)
        requires
            big == (r2 - r1) * ax + (r4 - r3) * ay + (r6 - r5) * az - 65536 * (t1 + t2 + t3),
            am == mag(ax) + mag(ay) + mag(az),
            mag((r2 - r1) * ax) <= 131070 * mag(ax),
            mag((r4 - r3) * ay) <= 131070 * mag(ay),
            mag((r6 - r5) * az) <= 131070 * mag(az),
            mag(t1) <= 65535,
            mag(t2) <= 65535,
            mag(t3) <= 65535,
            mag(ax) >= 0,
            mag(ay) >= 0,
            mag(az) >= 0,
    ;
    lemma_sign_mag_mul(4294967296, dt);
    // conclude by contradiction against the claimed quotient bound
    let f = 2 * am / 65536;
    vstd::arithmetic::div_mod::lemma_fundamental_div_mod(2 * am, 65536);
    vstd::arithmetic::div_mod::lemma_mod_bound(2 * am, 65536);
    if mag(dt) > f + 3 {
        assert(4294967296 * (f + 4) <= 4294967296 * mag(dt)) by (nonlinear_arith)
            requires
                f + 4 <= mag(dt),
        ;
        assert(4294967296 * (f + 4) >= 131072 * am - 4295032832 + 17179869184)
            by (nonlinear_arith)
            requires
                65536 * f >= 2 * am - 65535,
        ;
        assert(false);
    }
}

/// A length at least one resolution step gives a root of at least `256`
/// raw units, so normalization never divides by zero.
pub proof fn lemma_len_positive(a: Vec3)
    requires
        len_sq_raw(a) >= 1,
    ensures
        len_raw(a) >= 256,
{
    assert(256 * 256 == 65536 && 65536 < 257 * 257) by (nonlinear_arith);
    lemma_isqrt_unique(65536, 256);
    lemma_isqrt_monotonic(65536, (len_sq_raw(a) * 65536) as nat);
}

impl Vec3 {
    /// The vector with the given components.
    pub fn new(x: Fx, y: Fx, z: Fx) -> (r: Vec3)
        ensures
            r == (Vec3 { x, y, z }),
    {
        Vec3 { x, y, z }
    }

    /// The zero vector.
    pub fn new_empty() -> (r: Vec3)
        ensures
            r == vec_raw(0, 0, 0),
    {
        Vec3 { x: Fx { raw: 0 }, y: Fx { raw: 0 }, z: Fx { raw: 0 } }
    }

    /// The first component.
    pub fn x(&self) -> (r: Fx)
        ensures
            r == self.x,
    {
        self.x
    }

    /// The second component.
    pub fn y(&self) -> (r: Fx)
        ensures
            r == self.y,
    {
        self.y
    }

    /// The third component.
    pub fn z(&self) -> (r: Fx)
        ensures
            r == self.z,
    {
        self.z
    }

    /// The component with the given index.
    pub fn get(&self, i: usize) -> (r: Fx)
        requires
            i < 3,
        ensures
            r == if i == 0 {
                self.x
            } else if i == 1 {
                self.y
            } else {
                self.z
            },
    {
        if i == 0 {
            self.x
        } else if i == 1 {
            self.y
        } else {
            self.z
        }
    }

    /// Component-wise saturating sum.
    pub fn add(self, o: Vec3) -> (r: Vec3)
        ensures
            r == vadd(self, o),
    {
        Vec3 { x: self.x.add(o.x), y: self.y.add(o.y), z: self.z.add(o.z) }
    }

    /// Component-wise saturating difference.
    pub fn sub(self, o: Vec3) -> (r: Vec3)
        ensures
            r == vsub(self, o),
    {
        Vec3 { x: self.x.sub(o.x), y: self.y.sub(o.y), z: self.z.sub(o.z) }
    }

    /// Component-wise product.
    pub fn mul(self, o: Vec3) -> (r: Vec3)
        ensures
            r == vmul(self, o),
    {
        Vec3 { x: self.x.mul(o.x), y: self.y.mul(o.y), z: self.z.mul(o.z) }
    }

    /// Component-wise negation.
    pub fn neg(self) -> (r: Vec3)
        ensures
            r == vneg(self),
    {
        Vec3 { x: self.x.neg(), y: self.y.neg(), z: self.z.neg() }
    }

    /// The vector scaled by `s`.
    pub fn scale(self, s: Fx) -> (r: Vec3)
        ensures
            r == vscale(self, s.raw as int),
    {
        Vec3 { x: self.x.mul(s), y: self.y.mul(s), z: self.z.mul(s) }
    }

    /// The vector divided by a scalar: scaled by the reciprocal, computed
    /// once.
    pub fn div_scalar(self, s: Fx) -> (r: Vec3)
        requires
            s.raw != 0,
        ensures
            r == vdiv(self, s.raw as int),
    {
        let recip: Fx = Fx { raw: 65536 }.div(s);
        self.scale(recip)
    }

    /// The squared Euclidean length.
    pub fn get_len_squared(&self) -> (r: Fx)
        ensures
            r.raw as int == len_sq_raw(*self),
    {
        self.x.mul(self.x).add(self.y.mul(self.y)).add(self.z.mul(self.z))
    }

    /// The Euclidean length.
    pub fn get_len(&self) -> (r: Fx)
        ensures
            r.raw as int == len_raw(*self),
            r.raw >= 0,
    {
        self.get_len_squared().sqrt()
    }

    /// Whether every component is too small to distinguish from zero.
    pub fn near_zero(&self) -> (r: bool)
        ensures
            r == near_zero_spec(*self),
    {
        self.x.raw == 0 && self.y.raw == 0 && self.z.raw == 0
    }

    /// A vector of three scalars drawn uniformly from `[0, 1)`.
    pub fn random(rng: &mut Rng) -> (r: Vec3)
        ensures
            ({
                let (v, s) = random_range_spec(0, 65536, old(rng).state);
                r == v && final(rng).state == s
            }),
    {
        Vec3::random_range(rng, Fx { raw: 0 }, Fx { raw: 65536 })
    }

    /// A vector of three scalars drawn uniformly from `[min, max)`.
    pub fn random_range(rng: &mut Rng, min: Fx, max: Fx) -> (r: Vec3)
        ensures
            ({
                let (v, s) = random_range_spec(min.raw as int, max.raw as int, old(rng).state);
                r == v && final(rng).state == s
            }),
    {
        let a: Fx = random_scalar_range(rng, min, max);
        let b: Fx = random_scalar_range(rng, min, max);
        let c: Fx = random_scalar_range(rng, min, max);
        Vec3 { x: a, y: b, z: c }
    }
}

/// The dot product.
pub fn dot(u: &Vec3, v: &Vec3) -> (r: Fx)
    ensures
        r.raw as int == dot_raw(*u, *v),
{
    u.x.mul(v.x).add(u.y.mul(v.y)).add(u.z.mul(v.z))
}

/// The cross product.
pub fn cross(u: &Vec3, v: &Vec3) -> (r: Vec3)
    ensures
        r == cross_spec(*u, *v),
{
    Vec3 {
        x: u.y.mul(v.z).sub(u.z.mul(v.y)),
        y: u.z.mul(v.x).sub(u.x.mul(v.z)),
        z: u.x.mul(v.y).sub(u.y.mul(v.x)),
    }
}

/// The vector rescaled to unit length. The caller guarantees a length of at
/// least one resolution step; every call site in this crate guards for that.
pub fn unit_vector(u: &Vec3) -> (r: Vec3)
    requires
        len_sq_raw(*u) >= 1,
    ensures
        r == unit_spec(*u),
{
    proof {
        lemma_len_positive(*u);
    }
    let len: Fx = u.get_len();
    u.div_scalar(len)
}

/// A uniformly distributed unit vector, by bounded rejection sampling from
/// the cube; after `SAMPLE_ATTEMPTS` rejections the unit x-axis vector
/// stands in.
pub fn random_unit_vector(rng: &mut Rng) -> (r: Vec3)
    ensures
        ({
            let (v, s) = random_unit_vector_spec(SAMPLE_ATTEMPTS as nat, old(rng).state);
            r == v && final(rng).state == s
        }),
{
    let mut i: u64 = 0;
    while i < SAMPLE_ATTEMPTS
        invariant
            i <= SAMPLE_ATTEMPTS,
            random_unit_vector_spec((SAMPLE_ATTEMPTS - i) as nat, rng.state)
                == random_unit_vector_spec(SAMPLE_ATTEMPTS as nat, old(rng).state),
        decreases SAMPLE_ATTEMPTS - i,
    {
        let p: Vec3 = Vec3::random_range(rng, Fx { raw: -65536 }, Fx { raw: 65536 });
        let lensq: Fx = p.get_len_squared();
        if 1 <= lensq.raw && lensq.raw <= 65536 {
            proof {
                lemma_len_positive(p);
            }
            let root: Fx = lensq.sqrt();
            return p.div_scalar(root);
        }
        i = i + 1;
    }
    Vec3 { x: Fx { raw: 65536 }, y: Fx { raw: 0 }, z: Fx { raw: 0 } }
}

/// A unit-ish vector on the hemisphere around `normal`.
pub fn random_on_hemisphere(rng: &mut Rng, normal: &Vec3) -> (r: Vec3)
    ensures
        ({
            let (v, s) = random_on_hemisphere_spec(*normal, old(rng).state);
            r == v && final(rng).state == s
        }),
{
    let on_unit_sphere: Vec3 = random_unit_vector(rng);
    let d: Fx = dot(&on_unit_sphere, normal);
    if d.raw > 0 {
        on_unit_sphere
    } else {
        on_unit_sphere.neg()
    }
}

/// The reflection of `v` about the unit normal `n`.
pub fn reflect(v: &Vec3, n: &Vec3) -> (r: Vec3)
    ensures
        r == reflect_spec(*v, *n),
{
    let d: Fx = dot(v, n);
    let s: Fx = Fx { raw: 131072 }.mul(d);
    v.sub(n.scale(s))
}

/// The refraction of the unit vector `uv` at the unit normal `n` with
/// relative refraction index `eta`.
pub fn refract(uv: &Vec3, n: &Vec3, etai_over_etat: Fx) -> (r: Vec3)
    ensures
        r == refract_spec(*uv, *n, etai_over_etat.raw as int),
{
    let cos_theta: Fx = dot(&uv.neg(), n).min(Fx { raw: 65536 });
    let r_out_perp: Vec3 = uv.add(n.scale(cos_theta)).scale(etai_over_etat);
    let back: Fx = Fx { raw: 65536 }.sub(r_out_perp.get_len_squared()).abs().sqrt().neg();
    let r_out_parallel: Vec3 = n.scale(back);
    r_out_perp.add(r_out_parallel)
}

/// A point in the unit disk (`z == 0`), by bounded rejection sampling; after
/// `SAMPLE_ATTEMPTS` rejections the disk's center stands in.
pub fn random_in_unit_disk(rng: &mut Rng) -> (r: Vec3)
    ensures
        ({
            let (v, s) = random_in_unit_disk_spec(SAMPLE_ATTEMPTS as nat, old(rng).state);
            r == v && final(rng).state == s
        }),
{
    let mut i: u64 = 0;
    while i < SAMPLE_ATTEMPTS
        invariant
            i <= SAMPLE_ATTEMPTS,
            random_in_unit_disk_spec((SAMPLE_ATTEMPTS - i) as nat, rng.state)
                == random_in_unit_disk_spec(SAMPLE_ATTEMPTS as nat, old(rng).state),
        decreases SAMPLE_ATTEMPTS - i,
    {
        let a: Fx = random_scalar_range(rng, Fx { raw: -65536 }, Fx { raw: 65536 });
        let b: Fx = random_scalar_range(rng, Fx { raw: -65536 }, Fx { raw: 65536 });
        let p: Vec3 = Vec3 { x: a, y: b, z: Fx { raw: 0 } };
        if p.get_len_squared().raw < 65536 {
            return p;
        }
        i = i + 1;
    }
    Vec3 { x: Fx { raw: 0 }, y: Fx { raw: 0 }, z: Fx { raw: 0 } }
}

} // verus!
