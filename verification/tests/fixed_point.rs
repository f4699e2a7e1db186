//! Exact behavior of the saturating fixed-point scalar.

use fluid_grid::fixed::{Fx, MANTISSA_MAX, MANTISSA_MIN, SCALE};

#[test]
fn scale_is_one_million() {
    assert_eq!(SCALE, 1_000_000);
    assert_eq!(Fx::from_int(1).mantissa(), SCALE);
    assert_eq!(Fx::from_int(-3).mantissa(), -3_000_000);
    assert_eq!(Fx::zero().mantissa(), 0);
}

#[test]
fn add_and_sub_are_exact_in_range() {
    let a = Fx::new(2_500_000);
    let b = Fx::new(-1_000_000);
    assert_eq!(a.add(b).mantissa(), 1_500_000);
    assert_eq!(a.sub(b).mantissa(), 3_500_000);
}

#[test]
fn mul_truncates_toward_zero() {
    // 1.5 * 1.5 = 2.25
    assert_eq!(Fx::new(1_500_000).mul(Fx::new(1_500_000)).mantissa(), 2_250_000);
    // (-1.000001) * 0.5 = -0.5000005 -> truncated toward zero
    assert_eq!(Fx::new(-1_000_001).mul(Fx::new(500_000)).mantissa(), -500_000);
    assert_eq!(Fx::new(1_000_001).mul(Fx::new(500_000)).mantissa(), 500_000);
}

#[test]
fn div_int_truncates_toward_zero() {
    assert_eq!(Fx::new(5).div_int(2).mantissa(), 2);
    assert_eq!(Fx::new(-5).div_int(2).mantissa(), -2);
    assert_eq!(Fx::new(-100).div_int(3).mantissa(), -33);
}

#[test]
fn div_is_exact_fixed_point_quotient() {
    // 3 / 2 = 1.5
    let r = Fx::from_int(3).div(Fx::from_int(2));
    assert_eq!(r.mantissa(), 1_500_000);
    // 0 / x = 0
    assert_eq!(Fx::zero().div(Fx::from_int(7)).mantissa(), 0);
}

#[test]
fn mul_int_and_mul_frac() {
    assert_eq!(Fx::from_int(2).mul_int(50).mantissa(), 100_000_000);
    // 30 * (4*2*3) / 25 = 28.8
    assert_eq!(Fx::from_int(30).mul_frac(24, 25).mantissa(), 28_800_000);
}

#[test]
fn saturation_at_the_range_edges() {
    let big = Fx::new(MANTISSA_MAX);
    assert_eq!(big.add(big).mantissa(), MANTISSA_MAX);
    assert_eq!(big.mul_int(2).mantissa(), MANTISSA_MAX);
    let small = Fx::new(MANTISSA_MIN);
    assert_eq!(small.sub(big).mantissa(), MANTISSA_MIN);
    assert_eq!(Fx::new(i64::MIN).mantissa(), MANTISSA_MIN);
    assert_eq!(big.mul(big).mantissa(), MANTISSA_MAX);
    assert_eq!(big.mul(small).mantissa(), MANTISSA_MIN);
}

#[test]
fn div_rounds_negative_quotients_toward_zero() {
    let r = Fx::from_int(-3).div(Fx::from_int(2));
    assert_eq!(r.mantissa(), -1_500_000);
}

#[test]
fn abs_and_comparisons() {
    assert_eq!(Fx::new(-7).abs().mantissa(), 7);
    assert_eq!(Fx::new(7).abs().mantissa(), 7);
    assert!(Fx::new(1).gt(Fx::zero()));
    assert!(Fx::new(-1).lt(Fx::zero()));
    assert!(Fx::new(3).is_positive());
    assert!(!Fx::zero().is_positive());
}
