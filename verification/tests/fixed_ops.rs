use raytrace_rs::fixed::{
    add_fp, div_fp, int_fp, mul_fp, neg_fp, sqrt_fp, sub_fp, trunc_fp, SCALE,
};

#[test]
fn mul_exact() {
    // 1.5 * 2.0 == 3.0
    assert_eq!(mul_fp(1_500_000, 2_000_000), 3_000_000);
    // 0.5 * 0.5 == 0.25
    assert_eq!(mul_fp(500_000, 500_000), 250_000);
    assert_eq!(mul_fp(-1_000_000, 4_000_000), -4_000_000);
}

#[test]
fn mul_truncates_toward_zero() {
    // (1 / SCALE) * (1 / SCALE) underflows to zero
    assert_eq!(mul_fp(1, 1), 0);
    assert_eq!(mul_fp(-1, 1), 0);
}

#[test]
fn mul_saturates() {
    assert_eq!(mul_fp(i64::MAX, 2_000_000), i64::MAX);
    assert_eq!(mul_fp(i64::MAX, -2_000_000), i64::MIN);
}

#[test]
fn add_sub_neg() {
    assert_eq!(add_fp(2_500_000, 1_500_000), 4_000_000);
    assert_eq!(sub_fp(1_000_000, 3_000_000), -2_000_000);
    assert_eq!(neg_fp(7), -7);
    assert_eq!(add_fp(i64::MAX, 1), i64::MAX);
    assert_eq!(neg_fp(i64::MIN), i64::MAX);
}

#[test]
fn div_exact() {
    assert_eq!(div_fp(3_000_000, 2_000_000), 1_500_000);
    assert_eq!(div_fp(-3_000_000, 2_000_000), -1_500_000);
}

#[test]
fn div_by_zero_saturates() {
    assert_eq!(div_fp(5, 0), i64::MAX);
    assert_eq!(div_fp(-5, 0), i64::MIN);
    assert_eq!(div_fp(0, 0), 0);
}

#[test]
fn sqrt_values() {
    assert_eq!(sqrt_fp(4 * SCALE), 2 * SCALE);
    assert_eq!(sqrt_fp(SCALE), SCALE);
    assert_eq!(sqrt_fp(0), 0);
    assert_eq!(sqrt_fp(-3), 0);
    // sqrt(2) truncated at six decimals
    assert_eq!(sqrt_fp(2 * SCALE), 1_414_213);
    // sqrt(0.25) == 0.5
    assert_eq!(sqrt_fp(250_000), 500_000);
}

#[test]
fn trunc_and_int() {
    assert_eq!(trunc_fp(2_550_000), 2);
    assert_eq!(trunc_fp(-1_500_000), -1);
    assert_eq!(trunc_fp(999_999), 0);
    assert_eq!(int_fp(5), 5_000_000);
    assert_eq!(int_fp(-2), -2_000_000);
}
