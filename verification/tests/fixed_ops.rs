use raytracer::fixed::Fx;

#[test]
fn from_int_scales_by_the_representation() {
    assert_eq!(Fx::from_int(1).raw, 65536);
    assert_eq!(Fx::from_int(-3).raw, -196608);
    assert_eq!(Fx::from_int(0).raw, 0);
}

#[test]
fn addition_is_exact_and_saturates() {
    let a = Fx::from_raw(100);
    let b = Fx::from_raw(-300);
    assert_eq!(a.add(b).raw, -200);
    assert_eq!(Fx::from_raw(i64::MAX).add(Fx::from_raw(1)).raw, i64::MAX);
    assert_eq!(Fx::from_raw(i64::MIN).sub(Fx::from_raw(1)).raw, i64::MIN);
}

#[test]
fn multiplication_rescales_and_rounds_toward_zero() {
    // 1.5 * 2.5 == 3.75
    let a = Fx::from_raw(98304);
    let b = Fx::from_raw(163840);
    assert_eq!(a.mul(b).raw, 245760);
    // (1/65536) * (1/65536) rounds to zero
    assert_eq!(Fx::from_raw(1).mul(Fx::from_raw(1)).raw, 0);
    // negative products round toward zero, not down
    assert_eq!(Fx::from_raw(-1).mul(Fx::from_raw(1)).raw, 0);
}

#[test]
fn division_rescales_and_rounds_toward_zero() {
    // 3 / 2 == 1.5
    assert_eq!(Fx::from_int(3).div(Fx::from_int(2)).raw, 98304);
    // 1 / 3 == 0.333... truncated at the sixteenth bit
    assert_eq!(Fx::from_int(1).div(Fx::from_int(3)).raw, 21845);
    // -1 / 3 truncates toward zero
    assert_eq!(Fx::from_int(-1).div(Fx::from_int(3)).raw, -21845);
}

#[test]
fn square_root_is_exact_on_perfect_squares() {
    assert_eq!(Fx::from_int(4).sqrt().raw, 131072);
    assert_eq!(Fx::from_int(1).sqrt().raw, 65536);
    // 0.25 -> 0.5
    assert_eq!(Fx::from_raw(16384).sqrt().raw, 32768);
    // negative inputs map to zero
    assert_eq!(Fx::from_int(-1).sqrt().raw, 0);
}

#[test]
fn truncation_and_ordering_helpers() {
    assert_eq!(Fx::from_raw(98304).trunc(), 1);
    assert_eq!(Fx::from_raw(-98304).trunc(), -1);
    assert_eq!(Fx::from_int(2).min(Fx::from_int(3)).raw, 131072);
    assert_eq!(Fx::from_int(2).max(Fx::from_int(3)).raw, 196608);
    assert_eq!(Fx::from_int(-2).abs().raw, 131072);
    assert_eq!(Fx::from_int(2).neg().raw, -131072);
}
