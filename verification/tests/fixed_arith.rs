use trajectory_rs::fixed::{Fixed, SCALE};
use trajectory_rs::vector::{Vec2, Vec3};

fn fx(v: f64) -> Fixed {
    Fixed::from_raw((v * SCALE as f64).round() as i64)
}

fn raw(r: i64) -> Fixed {
    Fixed::from_raw(r)
}

#[test]
fn scale_is_ten_decimal_places() {
    assert_eq!(SCALE, 10_000_000_000);
    assert_eq!(Fixed::from_int(3), raw(30_000_000_000));
    assert_eq!(Fixed::zero(), raw(0));
}

#[test]
fn whole_numbers_saturate() {
    assert_eq!(Fixed::from_int(i64::MAX), raw(i64::MAX));
    assert_eq!(Fixed::from_int(i64::MIN), raw(i64::MIN));
    assert_eq!(Fixed::from_int(922_337_203), raw(9_223_372_030_000_000_000));
    assert_eq!(Fixed::from_int(922_337_204), raw(i64::MAX));
}

#[test]
fn sum_and_difference_saturate_at_the_ends() {
    assert_eq!(fx(1.25).plus(fx(2.5)), fx(3.75));
    assert_eq!(fx(1.25).minus(fx(2.5)), fx(-1.25));
    assert_eq!(raw(i64::MAX).plus(raw(1)), raw(i64::MAX));
    assert_eq!(raw(i64::MIN).minus(raw(1)), raw(i64::MIN));
    assert_eq!(raw(i64::MIN).plus(raw(i64::MIN)), raw(i64::MIN));
    assert_eq!(raw(i64::MAX).minus(raw(i64::MIN)), raw(i64::MAX));
}

#[test]
fn negation_and_magnitude() {
    assert_eq!(fx(2.0).neg(), fx(-2.0));
    assert_eq!(raw(i64::MIN).neg(), raw(i64::MAX));
    assert_eq!(fx(-2.0).abs(), fx(2.0));
    assert_eq!(fx(2.0).abs(), fx(2.0));
    assert_eq!(raw(i64::MIN).abs(), raw(i64::MAX));
}

#[test]
fn product_rounds_down_to_the_grid() {
    assert_eq!(fx(1.5).times(fx(2.0)), fx(3.0));
    assert_eq!(fx(-1.5).times(fx(2.0)), fx(-3.0));
    assert_eq!(raw(1).times(raw(1)), raw(0));
    assert_eq!(raw(-1).times(raw(1)), raw(-1));
    assert_eq!(raw(15_000_000_001).times(raw(5_000_000_000)), raw(7_500_000_000));
    assert_eq!(raw(-15_000_000_001).times(raw(5_000_000_000)), raw(-7_500_000_001));
}

#[test]
fn product_saturates() {
    assert_eq!(raw(i64::MAX).times(fx(2.0)), raw(i64::MAX));
    assert_eq!(raw(i64::MAX).times(fx(-2.0)), raw(i64::MIN));
    assert_eq!(raw(i64::MIN).times(raw(i64::MIN)), raw(i64::MAX));
}

#[test]
fn quotient_rounds_down_to_the_grid() {
    assert_eq!(fx(3.0).over(fx(2.0)), fx(1.5));
    assert_eq!(fx(1.0).over(fx(3.0)), raw(3_333_333_333));
    assert_eq!(fx(-1.0).over(fx(3.0)), raw(-3_333_333_334));
    assert_eq!(fx(1.0).over(fx(-3.0)), raw(-3_333_333_334));
    assert_eq!(fx(-1.0).over(fx(-3.0)), raw(3_333_333_333));
    assert_eq!(raw(7).over(fx(2.0)), raw(3));
    assert_eq!(raw(-7).over(fx(2.0)), raw(-4));
}

#[test]
fn quotient_by_zero_saturates() {
    assert_eq!(fx(1.0).over(raw(0)), raw(i64::MAX));
    assert_eq!(fx(-1.0).over(raw(0)), raw(i64::MIN));
    assert_eq!(raw(0).over(raw(0)), raw(0));
    assert_eq!(raw(i64::MAX).over(raw(1)), raw(i64::MAX));
}

#[test]
fn square_root_rounds_down() {
    assert_eq!(fx(2.0).sqrt(), raw(14_142_135_623));
    assert_eq!(fx(4.0).sqrt(), fx(2.0));
    assert_eq!(fx(-2.0).sqrt(), raw(0));
    assert_eq!(raw(0).sqrt(), raw(0));
    assert_eq!(raw(1).sqrt(), raw(100_000));
    assert_eq!(raw(i64::MAX).sqrt(), raw(303_700_049_997_604));
}

#[test]
fn smaller_larger_and_clamp() {
    assert_eq!(fx(1.0).min(fx(2.0)), fx(1.0));
    assert_eq!(fx(1.0).max(fx(2.0)), fx(2.0));
    assert_eq!(fx(5.0).clamp(fx(1.0), fx(2.0)), fx(2.0));
    assert_eq!(fx(-5.0).clamp(fx(1.0), fx(2.0)), fx(1.0));
    assert_eq!(fx(1.5).clamp(fx(1.0), fx(2.0)), fx(1.5));
}

#[test]
fn length_of_a_vector_is_exact() {
    assert_eq!(Vec2::new(fx(3.0), fx(4.0)).norm(), fx(5.0));
    assert_eq!(Vec3::new(fx(1.0), fx(2.0), fx(2.0)).norm(), fx(3.0));
    assert_eq!(Vec3::new(raw(1), raw(0), raw(0)).norm(), raw(1));
    assert_eq!(Vec3::new(raw(-3), raw(4), raw(0)).norm(), raw(5));
    assert_eq!(Vec3::zero().norm(), raw(0));
    assert_eq!(Vec2::new(fx(1.0), fx(1.0)).norm(), raw(14_142_135_623));
    assert_eq!(
        Vec3::new(raw(i64::MIN), raw(i64::MIN), raw(i64::MIN)).norm(),
        raw(i64::MAX)
    );
}

#[test]
fn vector_arithmetic() {
    let a = Vec3::new(fx(1.0), fx(2.0), fx(3.0));
    let b = Vec3::new(fx(-4.0), fx(0.5), fx(2.0));
    assert_eq!(a.plus(b), Vec3::new(fx(-3.0), fx(2.5), fx(5.0)));
    assert_eq!(a.minus(b), Vec3::new(fx(5.0), fx(1.5), fx(1.0)));
    assert_eq!(a.scale(fx(2.0)), Vec3::new(fx(2.0), fx(4.0), fx(6.0)));
    assert_eq!(a.unscale(fx(2.0)), Vec3::new(fx(0.5), fx(1.0), fx(1.5)));
    assert_eq!(a.cross(b), Vec3::new(fx(2.5), fx(-14.0), fx(8.5)));
    let x = Vec3::new(fx(1.0), fx(0.0), fx(0.0));
    let y = Vec3::new(fx(0.0), fx(1.0), fx(0.0));
    assert_eq!(x.cross(y), Vec3::new(fx(0.0), fx(0.0), fx(1.0)));
}
