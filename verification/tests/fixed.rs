use keysynth::fixed::{lerp, product, samples_for, saturate, ONE};

const K: i64 = 1_000_000_000;

#[test]
fn one_counts_a_million_millionths() {
    assert_eq!(ONE, 1_000_000_000_000);
    assert_eq!(1000 * K, ONE);
}

#[test]
fn product_multiplies_in_fixed_point() {
    assert_eq!(product(1500 * K, 500 * K), 750 * K);
    assert_eq!(product(ONE, ONE), ONE);
    assert_eq!(product(-3 * ONE, 2500 * K), -7500 * K);
    assert_eq!(product(123_456, 0), 0);
    assert_eq!(product(440 * ONE, ONE), 440 * ONE);
}

#[test]
fn product_rounds_toward_zero() {
    assert_eq!(product(3, 333_333_333_333), 0);
    assert_eq!(product(-3, 333_333_333_333), 0);
    assert_eq!(product(1, 1_999_999_999_999), 1);
    assert_eq!(product(-1, 1_999_999_999_999), -1);
    assert_eq!(product(-1, 500 * K), 0);
}

#[test]
fn product_saturates_at_both_ends() {
    assert_eq!(product(i64::MAX, 2 * ONE), i64::MAX);
    assert_eq!(product(i64::MIN, 2 * ONE), i64::MIN);
    assert_eq!(product(i64::MIN, -2 * ONE), i64::MAX);
    assert_eq!(product(i64::MAX, i64::MAX), i64::MAX);
    assert_eq!(product(i64::MIN, i64::MAX), i64::MIN);
    assert_eq!(product(i64::MAX, ONE), i64::MAX);
}

#[test]
fn saturate_keeps_what_fits() {
    assert_eq!(saturate(0), 0);
    assert_eq!(saturate(-17), -17);
    assert_eq!(saturate(i64::MAX as i128), i64::MAX);
    assert_eq!(saturate(i64::MAX as i128 + 1), i64::MAX);
    assert_eq!(saturate(i64::MIN as i128 - 1), i64::MIN);
    assert_eq!(saturate(i128::MAX), i64::MAX);
    assert_eq!(saturate(i128::MIN), i64::MIN);
}

#[test]
fn lerp_walks_the_line_in_equal_steps() {
    assert_eq!(lerp(0, ONE, 1, 3), 333_333_333_333);
    assert_eq!(lerp(0, ONE, 2, 3), 666_666_666_666);
    assert_eq!(lerp(0, ONE, 3, 3), ONE);
    assert_eq!(lerp(0, ONE, 0, 3), 0);
    assert_eq!(lerp(ONE, 800 * K, 25, 50), 900 * K);
    assert_eq!(lerp(600 * K, 0, 1, 4), 450 * K);
    assert_eq!(lerp(250 * K, ONE, 1, 100), 257_500_000_000);
}

#[test]
fn lerp_rounds_the_distance_toward_zero() {
    assert_eq!(lerp(1, 0, 1, 2), 1);
    assert_eq!(lerp(0, 1, 1, 2), 0);
    assert_eq!(lerp(ONE, 0, 1, 3), 666_666_666_667);
}

#[test]
fn lerp_has_a_level_for_every_step_of_the_longest_line() {
    assert_eq!(lerp(0, ONE, 1, u32::MAX), 232);
    assert_eq!(lerp(0, ONE, 2, u32::MAX), 465);
    assert_eq!(lerp(0, ONE, 3, u32::MAX), 698);
    assert_eq!(lerp(0, ONE, u32::MAX - 1, u32::MAX), 999_999_999_767);
    assert_eq!(lerp(0, ONE, u32::MAX, u32::MAX), ONE);
    assert_eq!(lerp(ONE, 0, u32::MAX - 1, u32::MAX), 233);
}

#[test]
fn samples_for_converts_seconds() {
    assert_eq!(samples_for(100 * K, 1000), 100);
    assert_eq!(samples_for(50 * K, 1000), 50);
    assert_eq!(samples_for(250 * K, 1000), 250);
    assert_eq!(samples_for(50 * K, 48000), 2400);
    assert_eq!(samples_for(600 * K, 48000), 28800);
    assert_eq!(samples_for(999_999_999, 1000), 0);
    assert_eq!(samples_for(K, 1000), 1);
    assert_eq!(samples_for(1, u32::MAX), 0);
    assert_eq!(samples_for(0, 48000), 0);
    assert_eq!(samples_for(ONE, 0), 0);
}

#[test]
fn samples_for_stays_within_u32() {
    assert_eq!(samples_for(-1, 48000), 0);
    assert_eq!(samples_for(-ONE, 48000), 0);
    assert_eq!(samples_for(i64::MIN, u32::MAX), 0);
    assert_eq!(samples_for(i64::MAX, u32::MAX), u32::MAX);
    assert_eq!(samples_for(ONE, u32::MAX), u32::MAX);
    assert_eq!(samples_for(2 * ONE, u32::MAX), u32::MAX);
}
