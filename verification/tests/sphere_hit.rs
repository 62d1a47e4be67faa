use raytracer::fixed::Fx;
use raytracer::interval::Interval;
use raytracer::material::{Lambertian, Material};
use raytracer::ray::{HitRecord, HittableList, Ray};
use raytracer::sphere::Sphere;
use raytracer::vec3::Vec3;

fn v(x: i64, y: i64, z: i64) -> Vec3 {
    Vec3::new(Fx::from_int(x), Fx::from_int(y), Fx::from_int(z))
}

fn gray() -> Material {
    Material::Lambertian(Lambertian::new(Vec3::new(
        Fx::from_raw(32768),
        Fx::from_raw(32768),
        Fx::from_raw(32768),
    )))
}

fn shading_interval() -> Interval {
    Interval::new(Fx::from_raw(66), Fx::from_raw(i64::MAX))
}

#[test]
fn ray_aimed_at_center_from_outside_hits_front_face() {
    // camera two units before a unit sphere, aimed straight at its center
    let sphere = Sphere::new(v(0, 0, -3), Fx::from_int(1), gray());
    let ray = Ray::new(v(0, 0, 0), v(0, 0, -1));
    let mut rec = HitRecord::new_empty();
    assert!(sphere.hit(&ray, shading_interval(), &mut rec));
    assert_eq!(rec.t.raw, 131072); // enters at t == 2
    assert!(rec.front_face);
    // the normal points back toward the ray origin
    assert_eq!(rec.normal.x.raw, 0);
    assert_eq!(rec.normal.y.raw, 0);
    assert_eq!(rec.normal.z.raw, 65536);
    assert_eq!(rec.p.z.raw, -131072);
}

#[test]
fn ray_from_inside_hits_back_face() {
    let sphere = Sphere::new(v(0, 0, -1), Fx::from_int(1), gray());
    let ray = Ray::new(v(0, 0, 0), v(0, 0, -1));
    let mut rec = HitRecord::new_empty();
    assert!(sphere.hit(&ray, shading_interval(), &mut rec));
    assert_eq!(rec.t.raw, 131072); // leaves through the far side at t == 2
    assert!(!rec.front_face);
    assert_eq!(rec.normal.z.raw, 65536); // oriented against the ray
}

#[test]
fn ray_that_misses_reports_no_hit_and_leaves_the_record() {
    let sphere = Sphere::new(v(0, 0, -3), Fx::from_int(1), gray());
    let ray = Ray::new(v(0, 0, 0), v(0, 1, 0));
    let mut rec = HitRecord::new_empty();
    let before = rec;
    assert!(!sphere.hit(&ray, shading_interval(), &mut rec));
    assert_eq!(rec, before);
}

#[test]
fn intersection_is_translation_consistent() {
    let center = v(5, -2, -7);
    let sphere_there = Sphere::new(center, Fx::from_int(1), gray());
    let sphere_origin = Sphere::new(v(0, 0, 0), Fx::from_int(1), gray());
    let origin = v(5, -2, -3);
    let dir = v(0, 0, -1);
    let ray_there = Ray::new(origin, dir);
    let ray_moved = Ray::new(origin.sub(center), dir);
    let mut rec1 = HitRecord::new_empty();
    let mut rec2 = HitRecord::new_empty();
    assert!(sphere_there.hit(&ray_there, shading_interval(), &mut rec1));
    assert!(sphere_origin.hit(&ray_moved, shading_interval(), &mut rec2));
    assert_eq!(rec1.t, rec2.t);
    assert_eq!(rec1.front_face, rec2.front_face);
    assert_eq!(rec1.normal, rec2.normal);
    assert_eq!(rec1.p.sub(center), rec2.p);
}

#[test]
fn negative_radius_is_clamped_and_hits_nothing() {
    let sphere = Sphere::new(v(0, 0, -3), Fx::from_int(-1), gray());
    assert_eq!(sphere.radius.raw, 0);
    let ray = Ray::new(v(0, 0, 0), v(0, 0, -1));
    let mut rec = HitRecord::new_empty();
    assert!(!sphere.hit(&ray, shading_interval(), &mut rec));
}

#[test]
fn aggregate_returns_the_nearest_hit() {
    let mut world = HittableList::new();
    world.add(Sphere::new(v(0, 0, -9), Fx::from_int(1), gray()));
    world.add(Sphere::new(v(0, 0, -3), Fx::from_int(1), gray()));
    let ray = Ray::new(v(0, 0, 0), v(0, 0, -1));
    let mut rec = HitRecord::new_empty();
    assert!(world.hit(&ray, shading_interval(), &mut rec));
    assert_eq!(rec.t.raw, 131072); // the nearer sphere wins, whatever the order
}

#[test]
fn lower_interval_bound_suppresses_grazing_self_hits() {
    // a hit exactly at the surface (t == 0) is outside the open interval
    let sphere = Sphere::new(v(0, 0, -1), Fx::from_int(1), gray());
    let ray = Ray::new(v(0, 0, 0), v(0, 0, -1));
    let mut rec = HitRecord::new_empty();
    assert!(sphere.hit(&ray, shading_interval(), &mut rec));
    assert!(rec.t.raw > 66); // the near root at t == 0 was rejected
}
