use raytracer::fixed::Fx;
use raytracer::interval::Interval;
use raytracer::material::{Dielectric, Lambertian, Material, Metal};
use raytracer::ray::{HitRecord, Ray};
use raytracer::rng::Rng;
use raytracer::sphere::Sphere;
use raytracer::vec3::{random_unit_vector, reflect, unit_vector, Vec3};

fn v(x: i64, y: i64, z: i64) -> Vec3 {
    Vec3::new(Fx::from_int(x), Fx::from_int(y), Fx::from_int(z))
}

fn hit_at_origin_facing_up() -> HitRecord {
    let sphere = Sphere::new(
        v(0, -3, 0),
        Fx::from_int(1),
        Material::Lambertian(Lambertian::new(v(1, 1, 1))),
    );
    let ray = Ray::new(v(0, 0, 0), v(0, -1, 0));
    let mut rec = raytracer::ray::HitRecord::new_empty();
    let i = Interval::new(Fx::from_raw(66), Fx::from_raw(i64::MAX));
    assert!(sphere.hit(&ray, i, &mut rec));
    rec
}

#[test]
fn lambertian_always_scatters_with_its_albedo() {
    let albedo = Vec3::new(Fx::from_raw(32768), Fx::from_raw(45875), Fx::from_raw(65536));
    let mat = Material::Lambertian(Lambertian::new(albedo));
    let rec = hit_at_origin_facing_up();
    let ray_in = Ray::new(v(0, 0, 0), v(0, -1, 0));
    let mut rng = Rng::new(3);
    let mut shadow_rng = Rng::new(3);
    for _ in 0..8 {
        let out = mat.scatter(&ray_in, &rec, &mut rng);
        let (attenuation, scattered) = out.expect("diffuse scattering always succeeds");
        assert_eq!(attenuation, albedo);
        assert_eq!(scattered.origin(), rec.p);
        // the direction is the normal plus the unit vector the same draws give
        let expected_dir = rec.normal.add(random_unit_vector(&mut shadow_rng));
        if expected_dir.near_zero() {
            assert_eq!(scattered.dir(), rec.normal);
        } else {
            assert_eq!(scattered.dir(), expected_dir);
        }
    }
}

#[test]
fn polished_metal_reflects_exactly() {
    let albedo = v(1, 1, 1);
    let mat = Material::Metal(Metal::new(albedo, Fx::from_int(0)));
    let rec = hit_at_origin_facing_up();
    // grazing in at 45 degrees: (1, -1, 0) reflects to (1, 1, 0)
    let ray_in = Ray::new(v(-1, 1, 0), v(1, -1, 0));
    let mut rng = Rng::new(5);
    let (attenuation, scattered) = mat.scatter(&ray_in, &rec, &mut rng).expect("must reflect");
    assert_eq!(attenuation, albedo);
    let expected = unit_vector(&reflect(&v(1, -1, 0), &rec.normal));
    assert_eq!(scattered.dir(), expected);
}

#[test]
fn fuzz_is_clamped_into_the_unit_range() {
    assert_eq!(Metal::new(v(1, 1, 1), Fx::from_int(7)).fuzz.raw, 65536);
    assert_eq!(Metal::new(v(1, 1, 1), Fx::from_int(-7)).fuzz.raw, 0);
    assert_eq!(Metal::new(v(1, 1, 1), Fx::from_raw(100)).fuzz.raw, 100);
}

#[test]
fn metal_absorbs_rays_scattered_into_the_surface() {
    // full fuzz can push a grazing reflection below the horizon; a ray along
    // the surface reflects to itself, and any downward fuzz absorbs it --
    // here check the clean case instead: incoming from below the horizon
    // reflects to below the horizon and is absorbed.
    let mat = Material::Metal(Metal::new(v(1, 1, 1), Fx::from_int(0)));
    let mut rec = hit_at_origin_facing_up();
    // force a normal pointing away from the reflection to exercise absorption
    rec.normal = v(0, -1, 0);
    let ray_in = Ray::new(v(-1, 1, 0), v(1, -1, 0));
    let mut rng = Rng::new(5);
    assert!(mat.scatter(&ray_in, &rec, &mut rng).is_none());
}

#[test]
fn schlick_reflectance_at_normal_incidence_equals_r0() {
    // refraction index 1.5: r0 == ((1 - 1.5) / (1 + 1.5))^2 == 0.04
    let d = Dielectric::new(Fx::from_raw(98304));
    let r = d.reflectance(Fx::from_int(1));
    assert_eq!(r.raw, 2621); // 0.04 truncated at the sixteenth bit
}

#[test]
fn dielectric_beyond_critical_angle_reflects() {
    // inside glass (back face => relative index 1.5), hitting the surface at
    // sin(theta) == 0.8 > 1/1.5: total internal reflection
    let d = Dielectric::new(Fx::from_raw(98304));
    let mat = Material::Dielectric(d);
    let mut rec = hit_at_origin_facing_up();
    rec.front_face = false;
    rec.normal = v(0, 1, 0);
    let dir = Vec3::new(Fx::from_raw(52429), Fx::from_raw(-39322), Fx::from_raw(0));
    let ray_in = Ray::new(v(0, 1, 0), dir);
    let mut rng = Rng::new(9);
    let (attenuation, scattered) = mat.scatter(&ray_in, &rec, &mut rng).expect("no absorption");
    assert_eq!(attenuation, v(1, 1, 1));
    let expected = reflect(&unit_vector(&dir), &rec.normal);
    assert_eq!(scattered.dir(), expected);
    // reflection keeps the ray on its side of the surface
    assert!(scattered.dir().y.raw > 0);
}

#[test]
fn dielectric_near_normal_incidence_refracts() {
    // entering glass head on: reflectance is 0.04, so a draw above it refracts
    let d = Dielectric::new(Fx::from_raw(98304));
    let mat = Material::Dielectric(d);
    let mut rec = hit_at_origin_facing_up();
    rec.front_face = true;
    rec.normal = v(0, 1, 0);
    let ray_in = Ray::new(v(0, 1, 0), v(0, -1, 0));
    let mut refracted = 0;
    let mut rng = Rng::new(1);
    for _ in 0..32 {
        let (_, scattered) = mat.scatter(&ray_in, &rec, &mut rng).expect("no absorption");
        if scattered.dir().y.raw < 0 {
            refracted += 1;
        }
    }
    // at four percent reflectance almost every draw refracts
    assert!(refracted >= 24, "only {refracted} of 32 samples refracted");
}
