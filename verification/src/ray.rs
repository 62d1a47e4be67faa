//! Rays, intersection records, and the scene aggregate that reports the
//! nearest hit among its primitives.

use vstd::prelude::*;
use crate::fixed::Fx;
use crate::interval::Interval;
use crate::material::Material;
use crate::sphere::{sphere_hit_spec, Sphere};
use crate::vec3::{dot, dot_raw, vadd, vneg, vscale, Point3, Vec3};

verus! {

/// A half line: origin plus scaled direction.
#[derive(Clone, Copy, Debug, PartialEq, Eq, Structural)]
pub struct Ray {
    pub origin: Point3,
    pub dir: Vec3,
}

/// The point `origin + t * dir` reached at parameter `t`.
pub open spec fn ray_at(r: Ray, t: int) -> Point3 {
    vadd(r.origin, vscale(r.dir, t))
}

impl Ray {
    /// The ray with the given origin and direction.
    pub fn new(orig: Point3, direction: Vec3) -> (r: Ray)
        ensures
            r == (Ray { origin: orig, dir: direction }),
    {
        Ray { origin: orig, dir: direction }
    }

    /// The degenerate ray at the origin.
    pub fn new_empty() -> (r: Ray)
        ensures
            r.origin.x.raw == 0 && r.origin.y.raw == 0 && r.origin.z.raw == 0,
            r.dir.x.raw == 0 && r.dir.y.raw == 0 && r.dir.z.raw == 0,
    {
        Ray { origin: Vec3::new_empty(), dir: Vec3::new_empty() }
    }

    /// The ray's origin.
    pub fn origin(&self) -> (r: Point3)
        ensures
            r == self.origin,
    {
        self.origin
    }

    /// The ray's direction.
    pub fn dir(&self) -> (r: Vec3)
        ensures
            r == self.dir,
    {
        self.dir
    }

    /// The point reached at parameter `t`.
    pub fn at(&self, t: Fx) -> (r: Point3)
        ensures
            r == ray_at(*self, t.raw as int),
    {
        self.origin.add(self.dir.scale(t))
    }
}

/// The transient result of a successful intersection: the hit point, the
/// unit-ish normal oriented against the incoming ray, the material hit, the
/// ray parameter and the facing flag.
#[derive(Clone, Copy, Debug, PartialEq, Eq, Structural)]
pub struct HitRecord {
    pub p: Point3,
    pub normal: Vec3,
    pub mat: Option<Material>,
    pub t: Fx,
    pub front_face: bool,
}

/// A hit record with the facing flag and oriented normal filled in from an
/// outward normal: the record faces front when the incoming ray opposes the
/// outward normal, and the stored normal always opposes the ray.
pub open spec fn set_face_normal_spec(rec: HitRecord, ray: Ray, outward: Vec3) -> HitRecord {
    let ff = dot_raw(ray.dir, outward) < 0;
    HitRecord {
        front_face: ff,
        normal: if ff {
            outward
        } else {
            vneg(outward)
        },
        ..rec
    }
}

impl HitRecord {
    /// An empty record, to be populated by an intersection test.
    pub fn new_empty() -> (r: HitRecord)
        ensures
            r.p.x.raw == 0 && r.p.y.raw == 0 && r.p.z.raw == 0,
            r.normal.x.raw == 0 && r.normal.y.raw == 0 && r.normal.z.raw == 0,
            r.mat.is_none(),
            r.t.raw == 0,
            !r.front_face,
    {
        HitRecord {
            p: Vec3::new_empty(),
            normal: Vec3::new_empty(),
            mat: None,
            t: Fx { raw: 0 },
            front_face: false,
        }
    }

    /// Orients the record's normal against the incoming ray and sets the
    /// facing flag.
    pub fn set_face_normal(&mut self, ray: &Ray, outward_normal: &Vec3)
        ensures
            *final(self) == set_face_normal_spec(*old(self), *ray, *outward_normal),
    {
        let d: Fx = dot(&ray.dir(), outward_normal);
        self.front_face = d.raw < 0;
        if self.front_face {
            self.normal = *outward_normal;
        } else {
            self.normal = outward_normal.neg();
        }
    }
}

/// The nearest hit among the spheres, scanning them in order while narrowing
/// the upper parameter bound to the closest hit found so far. `None` when no
/// sphere is hit inside the interval.
pub open spec fn list_hit_spec(objects: Seq<Sphere>, ray: Ray, tmin: int, tmax: int) -> Option<
    HitRecord,
>
    decreases objects.len(),
{
    if objects.len() == 0 {
        None::<HitRecord>
    } else {
        let prev = list_hit_spec(objects.drop_last(), ray, tmin, tmax);
        let cur_max = match prev {
            Some(r) => r.t.raw as int,
            None => tmax,
        };
        match sphere_hit_spec(objects.last(), ray, tmin, cur_max) {
            Some(r2) => Some(r2),
            None => prev,
        }
    }
}

/// An append-only aggregate of primitives.
pub struct HittableList {
    pub objects: Vec<Sphere>,
}

impl HittableList {
    /// An empty scene.
    pub fn new() -> (r: HittableList)
        ensures
            r.objects@.len() == 0,
    {
        HittableList { objects: Vec::new() }
    }

    /// Appends a primitive to the scene.
    pub fn add(&mut self, object: Sphere)
        ensures
            final(self).objects@ == old(self).objects@.push(object),
    {
        self.objects.push(object);
    }

    /// Tests the ray against every member and reports the nearest accepted
    /// hit; on a hit the record is filled in, otherwise it is left unchanged.
    pub fn hit(&self, ray: &Ray, ray_t: Interval, rec: &mut HitRecord) -> (b: bool)
        ensures
            match list_hit_spec(self.objects@, *ray, ray_t.min.raw as int, ray_t.max.raw as int) {
                Some(r) => b && *final(rec) == r,
                None => !b && *final(rec) == *old(rec),
            },
    {
        let ghost tmin: int = ray_t.min.raw as int;
        let ghost tmax: int = ray_t.max.raw as int;
        let mut temp_rec: HitRecord = HitRecord::new_empty();
        let mut hit_anything: bool = false;
        let mut closest_so_far: Fx = ray_t.max;
        let mut i: usize = 0;
        while i < self.objects.len()
            invariant
                i <= self.objects.len(),
                tmin == ray_t.min.raw as int,
                tmax == ray_t.max.raw as int,
                match list_hit_spec(self.objects@.subrange(0, i as int), *ray, tmin, tmax) {
                    Some(r) => hit_anything && *rec == r && closest_so_far == r.t,
                    None => !hit_anything && *rec == *old(rec) && closest_so_far == ray_t.max,
                },
            decreases self.objects.len() - i,
        {
            let narrowed: Interval = Interval::new(ray_t.min, closest_so_far);
            if self.objects[i].hit(ray, narrowed, &mut temp_rec) {
                hit_anything = true;
                closest_so_far = temp_rec.t;
                *rec = temp_rec;
            }
            proof {
                assert(self.objects@.subrange(0, i + 1 as int).drop_last() =~= self.objects@
                    .subrange(0, i as int));
                assert(self.objects@.subrange(0, i + 1 as int).last() == self.objects@[i as int]);
            }
            i = i + 1;
        }
        proof {
            assert(self.objects@.subrange(0, self.objects@.len() as int) =~= self.objects@);
        }
        hit_anything
    }
}

} // verus!
