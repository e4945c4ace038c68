use pathtracer::fixed::{
    fp_add, fp_div, fp_div_count, fp_mul, fp_neg, fp_sqrt, fp_sub, HALF, MAX_FP, ONE,
};
use pathtracer::math::{clamp, deg_to_rad, PI_FP};

#[test]
fn mul_by_one_is_identity() {
    assert_eq!(fp_mul(ONE, 12345), 12345);
    assert_eq!(fp_mul(-98765, ONE), -98765);
}

#[test]
fn mul_of_halves() {
    // 0.5 * 0.5 == 0.25
    assert_eq!(fp_mul(HALF, HALF), 16384);
}

#[test]
fn mul_rounds_toward_zero() {
    // 3 * 3 fixed-point steps is far below one step; positive and negative
    // products both round to zero.
    assert_eq!(fp_mul(3, 3), 0);
    assert_eq!(fp_mul(-3, 3), 0);
}

#[test]
fn div_of_one_by_two() {
    assert_eq!(fp_div(ONE, 2 * ONE), HALF);
}

#[test]
fn add_saturates_at_the_top() {
    assert_eq!(fp_add(MAX_FP, ONE), MAX_FP);
    assert_eq!(fp_sub(-MAX_FP, ONE), -MAX_FP);
    assert_eq!(fp_neg(MAX_FP), -MAX_FP);
}

#[test]
fn sqrt_exact_squares() {
    assert_eq!(fp_sqrt(0), 0);
    assert_eq!(fp_sqrt(ONE), ONE);
    assert_eq!(fp_sqrt(4 * ONE), 2 * ONE);
}

#[test]
fn sqrt_of_two_rounds_down() {
    // sqrt(2) = 1.41421..., i.e. 92681.9 fixed-point steps.
    assert_eq!(fp_sqrt(2 * ONE), 92681);
}

#[test]
fn averaging_divides_by_the_count() {
    assert_eq!(fp_div_count(10 * ONE, 4), (10 * ONE) / 4);
    assert_eq!(fp_div_count(-3 * ONE, 2), -(3 * ONE / 2));
}

#[test]
fn clamp_cases() {
    assert_eq!(clamp(5, 0, 10), 5);
    assert_eq!(clamp(-5, 0, 10), 0);
    assert_eq!(clamp(15, 0, 10), 10);
}

#[test]
fn half_turn_in_radians_is_pi() {
    assert_eq!(deg_to_rad(180 * ONE), PI_FP);
}
