use raytracer::fixed::Fx;
use raytracer::rng::Rng;
use raytracer::vec3::{cross, dot, random_in_unit_disk, random_unit_vector, reflect, refract,
    unit_vector, Vec3};

fn v(x: i64, y: i64, z: i64) -> Vec3 {
    Vec3::new(Fx::from_int(x), Fx::from_int(y), Fx::from_int(z))
}

#[test]
fn dot_and_cross_exact_values() {
    let a = v(1, 2, 3);
    let b = v(4, -5, 6);
    assert_eq!(dot(&a, &b).raw, 12 * 65536);
    let c = cross(&a, &b);
    assert_eq!(c.x.raw, 27 * 65536);
    assert_eq!(c.y.raw, 6 * 65536);
    assert_eq!(c.z.raw, -13 * 65536);
}

#[test]
fn cross_is_orthogonal_to_both_factors() {
    let a = v(3, -7, 2);
    let b = v(5, 1, -4);
    let c = cross(&a, &b);
    assert_eq!(dot(&c, &a).raw, 0);
    assert_eq!(dot(&c, &b).raw, 0);
}

#[test]
fn cross_stays_orthogonal_within_rounding_on_fractional_inputs() {
    let a = Vec3::new(Fx::from_raw(32768), Fx::from_raw(45875), Fx::from_raw(-19661));
    let b = Vec3::new(Fx::from_raw(-7864), Fx::from_raw(26214), Fx::from_raw(58982));
    let c = cross(&a, &b);
    let d = dot(&c, &a).raw;
    // bounded by two parts in 2^16 of the component sum, plus three steps
    let allowance = 2 * (32768 + 45875 + 19661) / 65536 + 3;
    assert!(d.abs() <= allowance, "dot was {d}, allowance {allowance}");
}

#[test]
fn unit_vector_of_a_unit_vector_has_length_one() {
    let axis = v(0, 0, 1);
    let u = unit_vector(&axis);
    assert_eq!(u.x.raw, 0);
    assert_eq!(u.y.raw, 0);
    assert_eq!(u.z.raw, 65536);
    assert_eq!(u.get_len().raw, 65536);
}

#[test]
fn unit_vector_rescales_exactly_representable_lengths() {
    // |(0, 3, 4)| == 5
    let a = v(0, 3, 4);
    let u = unit_vector(&a);
    assert_eq!(u.y.raw, 39321); // 3/5 truncated at the sixteenth bit
    assert_eq!(u.z.raw, 52428); // 4/5 truncated
    // length of the result is one within the rounding of the division
    let len = u.get_len().raw;
    assert!(65530 <= len && len <= 65542);
}

#[test]
fn near_zero_detects_only_the_zero_vector() {
    assert!(v(0, 0, 0).near_zero());
    assert!(!Vec3::new(Fx::from_raw(1), Fx::from_raw(0), Fx::from_raw(0)).near_zero());
}

#[test]
fn reflect_exact_value() {
    // reflecting (1, -1, 0) about the up normal flips the vertical component
    let r = reflect(&v(1, -1, 0), &v(0, 1, 0));
    assert_eq!(r.x.raw, 65536);
    assert_eq!(r.y.raw, 65536);
    assert_eq!(r.z.raw, 0);
}

#[test]
fn refract_straight_in_passes_through() {
    // normal incidence with a relative index of one is undeflected
    let r = refract(&v(0, 0, -1), &v(0, 0, 1), Fx::from_int(1));
    assert_eq!(r.x.raw, 0);
    assert_eq!(r.y.raw, 0);
    assert_eq!(r.z.raw, -65536);
}

#[test]
fn random_unit_vector_has_unit_length_within_rounding() {
    let mut rng = Rng::new(7);
    for _ in 0..16 {
        let u = random_unit_vector(&mut rng);
        let lensq = u.get_len_squared().raw;
        assert!(65000 <= lensq && lensq <= 66000, "squared length was {lensq}");
    }
}

#[test]
fn random_in_unit_disk_stays_in_the_disk() {
    let mut rng = Rng::new(11);
    for _ in 0..16 {
        let p = random_in_unit_disk(&mut rng);
        assert_eq!(p.z.raw, 0);
        assert!(p.get_len_squared().raw < 65536);
    }
}
