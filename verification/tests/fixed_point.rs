use star_arena::fixed::{clamp, difference, mean, opposite, product, saturate, sum, UNIT};

#[test]
fn one_unit_is_a_thousand_steps() {
    assert_eq!(UNIT, 1000);
}

#[test]
fn saturate_keeps_values_in_range() {
    assert_eq!(saturate(0), 0);
    assert_eq!(saturate(-17), -17);
    assert_eq!(saturate(i64::MAX as i128), i64::MAX);
    assert_eq!(saturate(i64::MIN as i128), i64::MIN);
}

#[test]
fn saturate_clips_values_out_of_range() {
    assert_eq!(saturate(i64::MAX as i128 + 1), i64::MAX);
    assert_eq!(saturate(i64::MIN as i128 - 1), i64::MIN);
    assert_eq!(saturate(i128::MAX), i64::MAX);
    assert_eq!(saturate(i128::MIN), i64::MIN);
}

#[test]
fn sum_and_difference_saturate() {
    assert_eq!(sum(2, 3), 5);
    assert_eq!(sum(i64::MAX, 1), i64::MAX);
    assert_eq!(sum(i64::MIN, -1), i64::MIN);
    assert_eq!(difference(2, 3), -1);
    assert_eq!(difference(i64::MIN, 1), i64::MIN);
    assert_eq!(difference(i64::MAX, -1), i64::MAX);
    assert_eq!(difference(0, i64::MIN), i64::MAX);
}

#[test]
fn opposite_saturates_at_the_lowest_value() {
    assert_eq!(opposite(5), -5);
    assert_eq!(opposite(-5), 5);
    assert_eq!(opposite(0), 0);
    assert_eq!(opposite(i64::MAX), -i64::MAX);
    assert_eq!(opposite(i64::MIN), i64::MAX);
}

#[test]
fn mean_rounds_down() {
    assert_eq!(mean(4_000, -2_000), 1_000);
    assert_eq!(mean(1, 2), 1);
    assert_eq!(mean(-1, -2), -2);
    assert_eq!(mean(-1, 0), -1);
    assert_eq!(mean(3, 3), 3);
    assert_eq!(mean(i64::MAX, i64::MAX), i64::MAX);
    assert_eq!(mean(i64::MIN, i64::MIN), i64::MIN);
    assert_eq!(mean(i64::MIN, i64::MAX), -1);
}

#[test]
fn product_scales_by_the_unit() {
    assert_eq!(product(100_000, 1_000), 100_000);
    assert_eq!(product(2_500, 4_000), 10_000);
    assert_eq!(product(1_000, 16), 16);
    assert_eq!(product(0, i64::MAX), 0);
    assert_eq!(product(-2_000, 3_000), -6_000);
    assert_eq!(product(-2_000, -3_000), 6_000);
}

#[test]
fn product_rounds_down() {
    assert_eq!(product(1, 1), 0);
    assert_eq!(product(999, 1), 0);
    assert_eq!(product(1_999, 1), 1);
    assert_eq!(product(-1, 1), -1);
    assert_eq!(product(-1_000, 1), -1);
    assert_eq!(product(-1_001, 1), -2);
    assert_eq!(product(7, -143), -2);
}

#[test]
fn product_saturates() {
    assert_eq!(product(i64::MAX, i64::MAX), i64::MAX);
    assert_eq!(product(i64::MIN, i64::MAX), i64::MIN);
    assert_eq!(product(i64::MIN, i64::MIN), i64::MAX);
    assert_eq!(product(i64::MAX, 1_000), i64::MAX);
    assert_eq!(product(i64::MAX, 1_001), i64::MAX);
    assert_eq!(product(i64::MAX, 999), 9_214_148_664_817_921_031);
}

#[test]
fn clamp_limits_to_the_interval() {
    assert_eq!(clamp(5, 0, 10), 5);
    assert_eq!(clamp(-5, 0, 10), 0);
    assert_eq!(clamp(15, 0, 10), 10);
    assert_eq!(clamp(0, 0, 0), 0);
    assert_eq!(clamp(7, 7, 7), 7);
    assert_eq!(clamp(i64::MIN, -1, 1), -1);
}
