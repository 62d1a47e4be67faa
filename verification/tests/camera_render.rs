use raytracer::camera::Camera;
use raytracer::fixed::Fx;
use raytracer::helper::deg_to_rad;
use raytracer::interval::Interval;
use raytracer::material::{Lambertian, Material};
use raytracer::ray::{HitRecord, HittableList, Ray};
use raytracer::rng::Rng;
use raytracer::sphere::Sphere;
use raytracer::vec3::Vec3;

fn v(x: i64, y: i64, z: i64) -> Vec3 {
    Vec3::new(Fx::from_int(x), Fx::from_int(y), Fx::from_int(z))
}

fn single_sphere_scene() -> HittableList {
    let albedo = Vec3::new(Fx::from_raw(32768), Fx::from_raw(32768), Fx::from_raw(32768));
    let mut world = HittableList::new();
    world.add(Sphere::new(
        v(0, 0, -1),
        Fx::from_int(1),
        Material::Lambertian(Lambertian::new(albedo)),
    ));
    world
}

fn test_camera() -> Camera {
    // square aspect, three by three pixels, one sample, one bounce,
    // ninety-degree field of view, camera at the origin looking down -z
    let mut cam = Camera::new(Fx::from_int(1), 3, 1, 1, Fx::from_int(90));
    cam.focus_dist = Fx::from_int(1);
    cam
}

#[test]
fn render_buffer_has_width_height_three_bytes() {
    let mut cam = Camera::new(Fx::from_int(2), 7, 1, 1, Fx::from_int(90));
    cam.focus_dist = Fx::from_int(1);
    let image = cam.render(&single_sphere_scene());
    // height == width / aspect == 3 (truncated)
    assert_eq!(image.len(), 7 * 3 * 3);
}

#[test]
fn center_ray_hits_the_single_sphere() {
    let world = single_sphere_scene();
    let ray = Ray::new(v(0, 0, 0), v(0, 0, -1));
    let mut rec = HitRecord::new_empty();
    let i = Interval::new(Fx::from_raw(66), Fx::from_raw(i64::MAX));
    assert!(world.hit(&ray, i, &mut rec));
    assert_eq!(rec.t.raw, 131072);
}

#[test]
fn depth_one_hits_are_black_and_darker_than_background() {
    // the camera sits on the sphere's surface: every ray toward the focal
    // plane enters the sphere, and with a single bounce every hit is black
    let mut cam = test_camera();
    let image = cam.render(&single_sphere_scene());
    assert_eq!(image.len(), 27);
    for byte in &image {
        assert_eq!(*byte, 0);
    }
    // the same camera over an empty scene sees only the background gradient,
    // whose blue channel is saturated: strictly brighter than any hit pixel
    let mut cam2 = test_camera();
    let background = cam2.render(&HittableList::new());
    assert_eq!(background.len(), 27);
    for pixel in 0..9 {
        let red = background[3 * pixel];
        let blue = background[3 * pixel + 2];
        assert_eq!(blue, 255);
        assert!(red >= 150); // between half (sky) and full (white), gamma-lifted
    }
}

#[test]
fn renders_with_the_same_seed_are_identical() {
    let world = single_sphere_scene();
    let mut cam1 = Camera::new(Fx::from_int(1), 8, 4, 6, Fx::from_int(90));
    cam1.focus_dist = Fx::from_int(1);
    cam1.set_seed(42);
    let mut cam2 = Camera::new(Fx::from_int(1), 8, 4, 6, Fx::from_int(90));
    cam2.focus_dist = Fx::from_int(1);
    cam2.set_seed(42);
    let a = cam1.render(&world);
    let b = cam2.render(&world);
    assert_eq!(a, b);
    // and a render is repeatable on the same camera
    let c = cam1.render(&world);
    assert_eq!(a, c);
}

#[test]
fn movement_translates_viewpoint_and_target_together() {
    let mut cam = Camera::new(Fx::from_int(1), 3, 1, 1, Fx::from_int(90));
    cam.lookfrom = v(0, 0, 0);
    cam.lookat = v(0, 0, -2);
    cam.move_fwd(Fx::from_raw(98304)); // 1.5 units forward along -z
    assert_eq!(cam.lookfrom, v(0, 0, 0).add(Vec3::new(
        Fx::from_raw(0),
        Fx::from_raw(0),
        Fx::from_raw(-98304),
    )));
    assert_eq!(cam.lookat.z.raw, -229376);
    cam.move_backward(Fx::from_raw(98304));
    assert_eq!(cam.lookfrom, v(0, 0, 0));
    assert_eq!(cam.lookat, v(0, 0, -2));
}

#[test]
fn adjust_view_keeps_the_viewpoint_and_the_distance() {
    let mut cam = Camera::new(Fx::from_int(1), 3, 1, 1, Fx::from_int(90));
    cam.lookfrom = v(0, 0, 0);
    cam.lookat = v(0, 0, -2);
    cam.focus_dist = Fx::from_int(1);
    let yaw = deg_to_rad(Fx::from_int(45));
    cam.adjust_view(yaw, Fx::from_raw(0));
    assert_eq!(cam.lookfrom, v(0, 0, 0));
    // the look-at point stays at (approximately) the original distance
    let d = cam.lookat.sub(cam.lookfrom).get_len().raw;
    assert!(129000 <= d && d <= 133000, "distance drifted to {d}");
    // and the view direction actually turned
    assert!(cam.lookat.x.raw != 0);
}

#[test]
fn generator_streams_are_deterministic() {
    let mut a = Rng::new(1234);
    let mut b = Rng::new(1234);
    for _ in 0..64 {
        assert_eq!(a.next_u64(), b.next_u64());
    }
    let mut c = Rng::new(0);
    for _ in 0..64 {
        let u = c.next_unit();
        assert!(0 <= u.raw && u.raw < 65536);
    }
}
