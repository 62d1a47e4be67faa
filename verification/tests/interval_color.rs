use raytracer::color::write_color;
use raytracer::fixed::Fx;
use raytracer::interval::Interval;
use raytracer::vec3::Vec3;

#[test]
fn interval_containment_and_clamp() {
    let i = Interval::new(Fx::from_int(0), Fx::from_int(2));
    assert!(i.contains(Fx::from_int(0)));
    assert!(i.contains(Fx::from_int(2)));
    assert!(!i.contains(Fx::from_int(3)));
    assert!(i.surrounds(Fx::from_int(1)));
    assert!(!i.surrounds(Fx::from_int(0)));
    assert!(!i.surrounds(Fx::from_int(2)));
    assert_eq!(i.clamp(Fx::from_int(-5)).raw, 0);
    assert_eq!(i.clamp(Fx::from_int(5)).raw, 131072);
    assert_eq!(i.clamp(Fx::from_int(1)).raw, 65536);
    assert_eq!(i.size().raw, 131072);
}

#[test]
fn empty_interval_surrounds_nothing() {
    let e = Interval::new_empty();
    assert!(!e.surrounds(Fx::from_int(0)));
    assert!(!e.contains(Fx::from_int(0)));
}

#[test]
fn gamma_clamp_zero_input_gives_zero_byte() {
    let c = write_color(&Vec3::new(Fx::from_int(0), Fx::from_int(0), Fx::from_int(0)));
    assert_eq!(c, (0, 0, 0));
}

#[test]
fn gamma_clamp_negative_input_gives_zero_byte() {
    let c = write_color(&Vec3::new(Fx::from_int(-1), Fx::from_raw(-1), Fx::from_int(-100)));
    assert_eq!(c, (0, 0, 0));
}

#[test]
fn gamma_clamp_saturated_input_gives_full_byte() {
    let c = write_color(&Vec3::new(Fx::from_int(1), Fx::from_int(2), Fx::from_raw(i64::MAX)));
    assert_eq!(c, (255, 255, 255));
}

#[test]
fn gamma_transform_exact_mid_value() {
    // 0.25 -> sqrt -> 0.5 -> 256 * 0.5 -> 128
    let c = write_color(&Vec3::new(Fx::from_raw(16384), Fx::from_raw(16384), Fx::from_raw(16384)));
    assert_eq!(c, (128, 128, 128));
}
