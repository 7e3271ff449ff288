use pt::fixed::{fx_abs, fx_add, fx_div, fx_mul, fx_sqrt, fx_sub, SCALE};
use pt::scene::wrap;

#[test]
fn add_and_sub_are_exact_in_range() {
    assert_eq!(fx_add(3 * SCALE, 2 * SCALE), 5 * SCALE);
    assert_eq!(fx_sub(3 * SCALE, 5 * SCALE), -2 * SCALE);
}

#[test]
fn add_saturates_at_the_extremes() {
    assert_eq!(fx_add(i64::MAX, 1), i64::MAX);
    assert_eq!(fx_add(i64::MIN, -1), i64::MIN);
    assert_eq!(fx_sub(i64::MIN, 1), i64::MIN);
}

#[test]
fn mul_rescales_and_truncates_toward_zero() {
    assert_eq!(fx_mul(3 * SCALE, 2 * SCALE), 6 * SCALE);
    assert_eq!(fx_mul(SCALE / 2, SCALE / 2), SCALE / 4);
    // -3/65536 times 1/65536 is a hair below zero and truncates to zero.
    assert_eq!(fx_mul(-3, 1), 0);
    assert_eq!(fx_mul(i64::MAX, 2 * SCALE), i64::MAX);
}

#[test]
fn div_rescales() {
    assert_eq!(fx_div(SCALE, 2 * SCALE), SCALE / 2);
    assert_eq!(fx_div(-SCALE, 2 * SCALE), -SCALE / 2);
    assert_eq!(fx_div(6 * SCALE, 3 * SCALE), 2 * SCALE);
}

#[test]
fn sqrt_is_exact_on_squares_and_rounds_down() {
    assert_eq!(fx_sqrt(0), 0);
    assert_eq!(fx_sqrt(4 * SCALE), 2 * SCALE);
    assert_eq!(fx_sqrt(SCALE), SCALE);
    // sqrt(2) rounded down to the fixed-point grid.
    assert_eq!(fx_sqrt(2 * SCALE), 92681);
}

#[test]
fn abs_clamps_the_unrepresentable_magnitude() {
    assert_eq!(fx_abs(-5), 5);
    assert_eq!(fx_abs(7), 7);
    assert_eq!(fx_abs(i64::MIN), i64::MAX);
}

#[test]
fn wrap_folds_coordinates_into_the_grid() {
    // 0.5 of a 4-pixel span lands on pixel 2.
    assert_eq!(wrap(SCALE / 2, 4), 2);
    // -0.25 of 4 pixels is -1 after truncation, folded to 3 from the far edge.
    assert_eq!(wrap(-SCALE / 4, 4), 3);
    // A negative coordinate that truncates to zero stays at pixel 0.
    assert_eq!(wrap(-1, 4), 0);
    // 1.25 of 4 pixels is 5, wrapped to 1.
    assert_eq!(wrap(SCALE + SCALE / 4, 4), 1);
}
