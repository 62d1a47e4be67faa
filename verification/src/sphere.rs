//! The one concrete primitive: a sphere intersected by the closed-form
//! quadratic.

use vstd::prelude::*;
use crate::fixed::{
    add_raw, div_raw, fx, lemma_sign_mag_mul, mag, max_raw, mul_raw, sqrt_raw, sub_raw, Fx,
};
use crate::interval::{surrounds_raw, Interval};
use crate::material::Material;
use crate::ray::{ray_at, set_face_normal_spec, HitRecord, Ray};
use crate::vec3::{dot, dot_raw, len_sq_raw, vdiv, vec_raw, vneg, vsub, Point3};

verus! {

/// A sphere with a center, a non-negative radius and a material.
#[derive(Clone, Copy, Debug, PartialEq, Eq, Structural)]
pub struct Sphere {
    pub center: Point3,
    pub radius: Fx,
    pub mat: Material,
}

/// The quadratic sphere intersection: with `oc = center - origin`, solve
/// `|origin + t*dir - center|^2 = radius^2` in the reduced form
/// `h = dir . oc`, `a = |dir|^2`, `c = |oc|^2 - radius^2`, discriminant
/// `h^2 - a*c`. The nearer root is preferred; a root is accepted only
/// strictly inside `(tmin, tmax)`. A sphere of zero radius and a ray of
/// degenerate direction hit nothing (the divisions they would need are
/// undefined).
pub open spec fn sphere_hit_spec(s: Sphere, ray: Ray, tmin: int, tmax: int) -> Option<HitRecord> {
    let oc = vsub(s.center, ray.origin);
    let a = len_sq_raw(ray.dir);
    let h = dot_raw(ray.dir, oc);
    let c = sub_raw(len_sq_raw(oc), mul_raw(s.radius.raw as int, s.radius.raw as int));
    let disc = sub_raw(mul_raw(h, h), mul_raw(a, c));
    if s.radius.raw <= 0 || a <= 0 {
        None::<HitRecord>
    } else if disc < 0 {
        None::<HitRecord>
    } else {
        let sq = sqrt_raw(disc);
        let root1 = div_raw(sub_raw(h, sq), a);
        let root = if surrounds_raw(tmin, tmax, root1) {
            root1
        } else {
            div_raw(add_raw(h, sq), a)
        };
        if !surrounds_raw(tmin, tmax, root) {
            None::<HitRecord>
        } else {
            let p = ray_at(ray, root);
            let outward = vdiv(vsub(p, s.center), s.radius.raw as int);
            Some(
                set_face_normal_spec(
                    HitRecord {
                        p,
                        normal: outward,
                        mat: Some(s.mat),
                        t: fx(root),
                        front_face: false,
                    },
                    ray,
                    outward,
                ),
            )
        }
    }
}

/// Every front-face hit carries a normal that opposes the incoming ray: the
/// facing flag is set exactly when the ray direction and the outward normal
/// have a negative dot product, and the stored normal is then the outward
/// normal itself.
pub proof fn lemma_front_face_normal_opposes_ray(s: Sphere, ray: Ray, tmin: int, tmax: int)
    ensures
        match sphere_hit_spec(s, ray, tmin, tmax) {
            Some(r) => r.front_face ==> dot_raw(ray.dir, r.normal) < 0,
            None => true,
        },
{
}

/// The magnitude of a rounded fixed-point product is bounded by the product
/// of the factors' bounds, rescaled.
proof fn lemma_mul_raw_mag_bound(t: int, d: int, tb: int, db: int)
    requires
        mag(t) <= tb,
        mag(d) <= db,
        0 <= tb,
        0 <= db,
    ensures
        mag(mul_raw(t, d)) <= tb * db / 65536,
{
    lemma_sign_mag_mul(t, d);
    vstd::arithmetic::mul::lemma_mul_upper_bound(mag(t), tb, mag(d), db);
    vstd::arithmetic::div_mod::lemma_div_is_ordered(mag(t) * mag(d), tb * db, 65536);
    vstd::arithmetic::div_mod::lemma_div_is_ordered(0, mag(t) * mag(d), 65536);
}

/// For bounded coordinates and ray parameters the translated component sums
/// commute: subtracting the center before or after walking along the ray
/// lands on the same raw value, because none of the sums saturate.
proof fn lemma_translate_component(o: int, c: int, d: int, t: int)
    requires
        mag(o) <= 0x40000000,
        mag(c) <= 0x40000000,
        mag(d) <= 0x40000000,
        mag(t) <= 0x10000000000,
    ensures
        sub_raw(0, sub_raw(o, c)) == sub_raw(c, o),
        add_raw(sub_raw(o, c), mul_raw(t, d)) == sub_raw(add_raw(o, mul_raw(t, d)), c),
{
    lemma_mul_raw_mag_bound(t, d, 0x10000000000, 0x40000000);
}

/// Sphere intersection is translation-consistent: a ray tested against a
/// sphere at `center` and the same ray translated by `-center` tested
/// against the same sphere at the origin agree on whether they hit, on the
/// ray parameter, the facing flag, the normal and the material, and their
/// hit points differ exactly by the translation. Stated for coordinates and
/// parameter bounds small enough that none of the component sums saturate
/// (at the saturation rim the two computations clamp differently).
pub proof fn lemma_sphere_hit_translation(s: Sphere, ray: Ray, tmin: int, tmax: int)
    requires
        mag(s.center.x.raw as int) <= 0x40000000,
        mag(s.center.y.raw as int) <= 0x40000000,
        mag(s.center.z.raw as int) <= 0x40000000,
        mag(ray.origin.x.raw as int) <= 0x40000000,
        mag(ray.origin.y.raw as int) <= 0x40000000,
        mag(ray.origin.z.raw as int) <= 0x40000000,
        mag(ray.dir.x.raw as int) <= 0x40000000,
        mag(ray.dir.y.raw as int) <= 0x40000000,
        mag(ray.dir.z.raw as int) <= 0x40000000,
        mag(tmin) <= 0x10000000000,
        mag(tmax) <= 0x10000000000,
    ensures
        ({
            let moved_ray = Ray { origin: vsub(ray.origin, s.center), dir: ray.dir };
            let moved_sphere = Sphere { center: vec_raw(0, 0, 0), radius: s.radius, mat: s.mat };
            match (
                sphere_hit_spec(s, ray, tmin, tmax),
                sphere_hit_spec(moved_sphere, moved_ray, tmin, tmax),
            ) {
                (Some(r1), Some(r2)) => r2.t == r1.t && r2.normal == r1.normal && r2.front_face
                    == r1.front_face && r2.mat == r1.mat && r2.p == vsub(r1.p, s.center),
                (None, None) => true,
                _ => false,
            }
        }),
{
    let moved_ray = Ray { origin: vsub(ray.origin, s.center), dir: ray.dir };
    let moved_sphere = Sphere { center: vec_raw(0, 0, 0), radius: s.radius, mat: s.mat };
    lemma_translate_component(
        ray.origin.x.raw as int,
        s.center.x.raw as int,
        ray.dir.x.raw as int,
        tmin,
    );
    lemma_translate_component(
        ray.origin.y.raw as int,
        s.center.y.raw as int,
        ray.dir.y.raw as int,
        tmin,
    );
    lemma_translate_component(
        ray.origin.z.raw as int,
        s.center.z.raw as int,
        ray.dir.z.raw as int,
        tmin,
    );
    let oc = vsub(s.center, ray.origin);
    assert(vsub(moved_sphere.center, moved_ray.origin) == oc);
    let a = len_sq_raw(ray.dir);
    let h = dot_raw(ray.dir, oc);
    let cc = sub_raw(len_sq_raw(oc), mul_raw(s.radius.raw as int, s.radius.raw as int));
    let disc = sub_raw(mul_raw(h, h), mul_raw(a, cc));
    if s.radius.raw > 0 && a > 0 && disc >= 0 {
        let sq = sqrt_raw(disc);
        let root1 = div_raw(sub_raw(h, sq), a);
        let root = if surrounds_raw(tmin, tmax, root1) {
            root1
        } else {
            div_raw(add_raw(h, sq), a)
        };
        if surrounds_raw(tmin, tmax, root) {
            lemma_translate_component(
                ray.origin.x.raw as int,
                s.center.x.raw as int,
                ray.dir.x.raw as int,
                root,
            );
            lemma_translate_component(
                ray.origin.y.raw as int,
                s.center.y.raw as int,
                ray.dir.y.raw as int,
                root,
            );
            lemma_translate_component(
                ray.origin.z.raw as int,
                s.center.z.raw as int,
                ray.dir.z.raw as int,
                root,
            );
            let p1 = ray_at(ray, root);
            let p2 = ray_at(moved_ray, root);
            assert(p2 == vsub(p1, s.center));
            assert(vsub(p2, moved_sphere.center) == vsub(p1, s.center));
        }
    }
}

impl Sphere {
    /// The sphere with the given center, radius and material; a negative
    /// radius is clamped to zero.
    pub fn new(center: Point3, radius: Fx, material: Material) -> (r: Sphere)
        ensures
            r.center == center,
            r.radius.raw as int == max_raw(radius.raw as int, 0),
            r.mat == material,
    {
        Sphere { center, radius: radius.max(Fx { raw: 0 }), mat: material }
    }

    /// Tests the ray against the sphere within the interval; on a hit the
    /// record is filled in, otherwise it is left unchanged.
    pub fn hit(&self, ray: &Ray, ray_t: Interval, rec: &mut HitRecord) -> (b: bool)
        ensures
            match sphere_hit_spec(*self, *ray, ray_t.min.raw as int, ray_t.max.raw as int) {
                Some(r) => b && *final(rec) == r,
                None => !b && *final(rec) == *old(rec),
            },
    {
        let oc: Point3 = self.center.sub(ray.origin());
        let a: Fx = ray.dir().get_len_squared();
        let h: Fx = dot(&ray.dir(), &oc);
        let c: Fx = oc.get_len_squared().sub(self.radius.mul(self.radius));
        let discriminant: Fx = h.mul(h).sub(a.mul(c));
        if self.radius.raw <= 0 || a.raw <= 0 {
            return false;
        }
        if discriminant.raw < 0 {
            return false;
        }
        let sqrtd: Fx = discriminant.sqrt();
        let mut root: Fx = h.sub(sqrtd).div(a);
        if !ray_t.surrounds(root) {
            root = h.add(sqrtd).div(a);
            if !ray_t.surrounds(root) {
                return false;
            }
        }
        rec.t = root;
        rec.p = ray.at(rec.t);
        let outward_normal = rec.p.sub(self.center).div_scalar(self.radius);
        rec.set_face_normal(ray, &outward_normal);
        rec.mat = Some(self.mat);
        true
    }
}

} // verus!
