//! Surface materials and their scattering models: diffuse (Lambertian),
//! metallic with controllable fuzz, and refractive dielectric with Schlick's
//! reflectance approximation.

use vstd::prelude::*;
use crate::color::Color;
use crate::fixed::{add_raw, div_raw, min_raw, mul_raw, sqrt_raw, sub_raw, Fx};
use crate::ray::{HitRecord, Ray};
use crate::rng::{rng_next_state, rng_output, unit_from_draw, Rng};
use crate::vec3::{
    dot, dot_raw, len_sq_raw, near_zero_spec, random_unit_vector, random_unit_vector_spec, reflect,
    reflect_spec, refract, refract_spec, unit_spec, unit_vector, vadd, vec_raw, vneg, vscale, Vec3,
    SAMPLE_ATTEMPTS,
};

verus! {

/// A diffuse surface: scattering succeeds always, in a direction biased
/// around the normal, attenuated by the albedo.
#[derive(Clone, Copy, Debug, PartialEq, Eq, Structural)]
pub struct Lambertian {
    pub albedo: Color,
}

impl Lambertian {
    /// A diffuse material with the given albedo.
    pub fn new(color: Color) -> (r: Lambertian)
        ensures
            r.albedo == color,
    {
        Lambertian { albedo: color }
    }
}

/// A metallic surface: reflection perturbed by a fuzz factor in `[0, 1]`.
#[derive(Clone, Copy, Debug, PartialEq, Eq, Structural)]
pub struct Metal {
    pub albedo: Color,
    pub fuzz: Fx,
}

impl Metal {
    /// A metallic material with the given albedo; the fuzz factor is clamped
    /// into `[0, 1]`.
    pub fn new(color: Color, fuzz_factor: Fx) -> (r: Metal)
        ensures
            r.albedo == color,
            r.fuzz.raw as int == if fuzz_factor.raw < 0 {
                0int
            } else if fuzz_factor.raw > 65536 {
                65536int
            } else {
                fuzz_factor.raw as int
            },
    {
        let f: Fx = if fuzz_factor.raw < 0 {
            Fx { raw: 0 }
        } else if fuzz_factor.raw > 65536 {
            Fx { raw: 65536 }
        } else {
            fuzz_factor
        };
        Metal { albedo: color, fuzz: f }
    }
}

/// A refractive surface described by its refraction index.
#[derive(Clone, Copy, Debug, PartialEq, Eq, Structural)]
pub struct Dielectric {
    pub refraction_idx: Fx,
}

/// The fifth power, multiplied left to right.
pub open spec fn pow5_raw(x: int) -> int {
    mul_raw(mul_raw(mul_raw(mul_raw(x, x), x), x), x)
}

/// Schlick's reflectance approximation:
/// `r0 + (1 - r0) * (1 - cos)^5` with `r0 = ((1 - eta) / (1 + eta))^2`.
/// At `eta == -1` the base reflectance saturates (the fixed-point stand-in
/// for an infinite ratio).
pub open spec fn reflectance_raw(eta: int, cos: int) -> int {
    let denom = add_raw(65536, eta);
    let r0 = if denom == 0 {
        i64::MAX as int
    } else {
        let q = div_raw(sub_raw(65536, eta), denom);
        mul_raw(q, q)
    };
    add_raw(r0, mul_raw(sub_raw(65536, r0), pow5_raw(sub_raw(65536, cos))))
}

impl Dielectric {
    /// A dielectric material with the given refraction index.
    pub fn new(refraction_idx: Fx) -> (r: Dielectric)
        ensures
            r.refraction_idx == refraction_idx,
    {
        Dielectric { refraction_idx }
    }

    /// Schlick's reflectance approximation for this material at the given
    /// incidence cosine.
    pub fn reflectance(&self, cos: Fx) -> (r: Fx)
        ensures
            r.raw as int == reflectance_raw(self.refraction_idx.raw as int, cos.raw as int),
    {
        let denom: Fx = Fx { raw: 65536 }.add(self.refraction_idx);
        let r0: Fx = if denom.raw == 0 {
            Fx { raw: i64::MAX }
        } else {
            let q: Fx = Fx { raw: 65536 }.sub(self.refraction_idx).div(denom);
            q.mul(q)
        };
        let base: Fx = Fx { raw: 65536 }.sub(cos);
        let p5: Fx = base.mul(base).mul(base).mul(base).mul(base);
        r0.add(Fx { raw: 65536 }.sub(r0).mul(p5))
    }
}

/// At normal incidence (`cos == 1`) Schlick's reflectance equals the base
/// reflectance `r0 = ((1 - eta) / (1 + eta))^2` exactly: the `(1 - cos)^5`
/// term vanishes without rounding.
pub proof fn lemma_schlick_normal_incidence(eta: int)
    ensures
        reflectance_raw(eta, 65536) == ({
            let denom = add_raw(65536, eta);
            if denom == 0 {
                i64::MAX as int
            } else {
                let q = div_raw(sub_raw(65536, eta), denom);
                mul_raw(q, q)
            }
        }),
{
    assert(sub_raw(65536, 65536) == 0);
    assert(pow5_raw(0) == 0);
}

/// A surface material: one of the three scattering models.
#[derive(Clone, Copy, Debug, PartialEq, Eq, Structural)]
pub enum Material {
    Lambertian(Lambertian),
    Metal(Metal),
    Dielectric(Dielectric),
}

/// Diffuse scattering: the direction is the normal plus a random unit
/// vector, falling back to the bare normal when that sum degenerates to
/// zero; always succeeds with the albedo as attenuation.
pub open spec fn lambertian_scatter_spec(m: Lambertian, rec: HitRecord, s: u64) -> (Option<
    (Color, Ray),
>, u64) {
    let (ruv, s1) = random_unit_vector_spec(SAMPLE_ATTEMPTS as nat, s);
    let d0 = vadd(rec.normal, ruv);
    let dir = if near_zero_spec(d0) {
        rec.normal
    } else {
        d0
    };
    (Some((m.albedo, Ray { origin: rec.p, dir })), s1)
}

/// Metallic scattering: the incoming direction is reflected about the
/// normal, normalized, and perturbed by `fuzz` times a random unit vector;
/// the ray is absorbed when the perturbed direction no longer points away
/// from the surface, and also when the reflection degenerates below the
/// resolution of the representation (where it could not be normalized).
pub open spec fn metal_scatter_spec(m: Metal, ray_in: Ray, rec: HitRecord, s: u64) -> (Option<
    (Color, Ray),
>, u64) {
    let refl0 = reflect_spec(ray_in.dir, rec.normal);
    if len_sq_raw(refl0) < 1 {
        (None::<(Color, Ray)>, s)
    } else {
        let (ruv, s1) = random_unit_vector_spec(SAMPLE_ATTEMPTS as nat, s);
        let refl = vadd(unit_spec(refl0), vscale(ruv, m.fuzz.raw as int));
        if dot_raw(refl, rec.normal) > 0 {
            (Some((m.albedo, Ray { origin: rec.p, dir: refl })), s1)
        } else {
            (None::<(Color, Ray)>, s1)
        }
    }
}

/// The relative refraction index used at a hit: the reciprocal of the
/// material's index when the ray enters through the front face, the index
/// itself otherwise.
pub open spec fn dielectric_ri(m: Dielectric, rec: HitRecord) -> int {
    if rec.front_face {
        div_raw(65536, m.refraction_idx.raw as int)
    } else {
        m.refraction_idx.raw as int
    }
}

/// The cosine of the incidence angle at a hit, clamped to at most one.
pub open spec fn dielectric_cos(ray_in: Ray, rec: HitRecord) -> int {
    min_raw(dot_raw(vneg(unit_spec(ray_in.dir)), rec.normal), 65536)
}

/// The sine of the incidence angle at a hit.
pub open spec fn dielectric_sin(ray_in: Ray, rec: HitRecord) -> int {
    let c = dielectric_cos(ray_in, rec);
    sqrt_raw(sub_raw(65536, mul_raw(c, c)))
}

/// Dielectric scattering: no absorption (attenuation one), refracting by
/// Snell's law unless the ray is beyond the critical angle (total internal
/// reflection) or Schlick's reflectance exceeds a uniform draw, in which
/// case it reflects. An incoming direction below the resolution of the
/// representation, or a zero refraction index, absorbs the ray (neither can
/// be divided by).
pub open spec fn dielectric_scatter_spec(m: Dielectric, ray_in: Ray, rec: HitRecord, s: u64) -> (
    Option<(Color, Ray)>,
    u64,
) {
    if len_sq_raw(ray_in.dir) < 1 || m.refraction_idx.raw == 0 {
        (None::<(Color, Ray)>, s)
    } else {
        let ri = dielectric_ri(m, rec);
        let unit_dir = unit_spec(ray_in.dir);
        let cos_theta = dielectric_cos(ray_in, rec);
        let sin_theta = dielectric_sin(ray_in, rec);
        let draw = unit_from_draw(rng_output(s));
        let s1 = rng_next_state(s);
        let cannot_refract = mul_raw(ri, sin_theta) > 65536;
        let reflects = reflectance_raw(m.refraction_idx.raw as int, cos_theta) > draw;
        let dir = if cannot_refract || reflects {
            reflect_spec(unit_dir, rec.normal)
        } else {
            refract_spec(unit_dir, rec.normal, ri)
        };
        (Some((vec_raw(65536, 65536, 65536), Ray { origin: rec.p, dir })), s1)
    }
}

/// Total internal reflection: whenever the relative refraction index times
/// the sine of the incidence angle exceeds one (a glancing ray beyond the
/// critical angle), a dielectric reflects the ray about the normal and never
/// refracts, whatever the reflectance draw turns out to be.
pub proof fn lemma_total_internal_reflection(m: Dielectric, ray_in: Ray, rec: HitRecord, s: u64)
    requires
        len_sq_raw(ray_in.dir) >= 1,
        m.refraction_idx.raw != 0,
        mul_raw(dielectric_ri(m, rec), dielectric_sin(ray_in, rec)) > 65536,
    ensures
        dielectric_scatter_spec(m, ray_in, rec, s).0 == Some(
            (
                vec_raw(65536, 65536, 65536),
                Ray { origin: rec.p, dir: reflect_spec(unit_spec(ray_in.dir), rec.normal) },
            ),
        ),
{
}

/// Scattering for any material, dispatched on the variant.
pub open spec fn scatter_spec(m: Material, ray_in: Ray, rec: HitRecord, s: u64) -> (Option<
    (Color, Ray),
>, u64) {
    match m {
        Material::Lambertian(l) => lambertian_scatter_spec(l, rec, s),
        Material::Metal(mt) => metal_scatter_spec(mt, ray_in, rec, s),
        Material::Dielectric(d) => dielectric_scatter_spec(d, ray_in, rec, s),
    }
}

impl Material {
    /// Decides whether the incoming ray scatters at the hit, and if so with
    /// what attenuation and scattered ray.
    pub fn scatter(&self, ray_in: &Ray, hit_rec: &HitRecord, rng: &mut Rng) -> (r: Option<
        (Color, Ray),
    >)
        ensures
            ({
                let (res, s) = scatter_spec(*self, *ray_in, *hit_rec, old(rng).state);
                r == res && final(rng).state == s
            }),
    {
        match self {
            Material::Lambertian(l) => {
                let ruv: Vec3 = random_unit_vector(rng);
                let d0: Vec3 = hit_rec.normal.add(ruv);
                let scatter_direction: Vec3 = if d0.near_zero() {
                    hit_rec.normal
                } else {
                    d0
                };
                Some((l.albedo, Ray::new(hit_rec.p, scatter_direction)))
            },
            Material::Metal(mt) => {
                let refl0: Vec3 = reflect(&ray_in.dir(), &hit_rec.normal);
                if refl0.get_len_squared().raw < 1 {
                    return None;
                }
                let ruv: Vec3 = random_unit_vector(rng);
                let reflected: Vec3 = unit_vector(&refl0).add(ruv.scale(mt.fuzz));
                if dot(&reflected, &hit_rec.normal).raw > 0 {
                    Some((mt.albedo, Ray::new(hit_rec.p, reflected)))
                } else {
                    None
                }
            },
            Material::Dielectric(d) => {
                if ray_in.dir().get_len_squared().raw < 1 || d.refraction_idx.raw == 0 {
                    return None;
                }
                let ri: Fx = if hit_rec.front_face {
                    Fx { raw: 65536 }.div(d.refraction_idx)
                } else {
                    d.refraction_idx
                };
                let unit_dir: Vec3 = unit_vector(&ray_in.dir());
                let cos_theta: Fx = dot(&unit_dir.neg(), &hit_rec.normal).min(Fx { raw: 65536 });
                let sin_theta: Fx = Fx { raw: 65536 }.sub(cos_theta.mul(cos_theta)).sqrt();
                let draw: Fx = rng.next_unit();
                let cannot_refract: bool = ri.mul(sin_theta).raw > 65536;
                let reflects: bool = d.reflectance(cos_theta).raw > draw.raw;
                let direction: Vec3 = if cannot_refract || reflects {
                    reflect(&unit_dir, &hit_rec.normal)
                } else {
                    refract(&unit_dir, &hit_rec.normal, ri)
                };
                Some((Vec3::new(Fx { raw: 65536 }, Fx { raw: 65536 }, Fx { raw: 65536 }), Ray::new(
                    hit_rec.p,
                    direction,
                )))
            },
        }
    }
}

} // verus!
