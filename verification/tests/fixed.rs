use flight_core::fixed::{floor_div, isqrt, saturate_i64, saturate_u64, scale};

#[test]
fn floor_div_rounds_down() {
    assert_eq!(floor_div(7, 2), 3);
    assert_eq!(floor_div(-7, 2), -4);
    assert_eq!(floor_div(-8, 2), -4);
    assert_eq!(floor_div(0, 5), 0);
    assert_eq!(floor_div(-1, 1000), -1);
    assert_eq!(floor_div(999, 1000), 0);
    assert_eq!(floor_div(i128::MIN, 1), i128::MIN);
    assert_eq!(floor_div(i128::MIN, 3), i128::MIN / 3 - 1);
    assert_eq!(floor_div(i128::MAX, i128::MAX), 1);
}

#[test]
fn isqrt_rounds_down() {
    assert_eq!(isqrt(0), 0);
    assert_eq!(isqrt(1), 1);
    assert_eq!(isqrt(3), 1);
    assert_eq!(isqrt(4), 2);
    assert_eq!(isqrt(99), 9);
    assert_eq!(isqrt(100), 10);
    assert_eq!(isqrt(u64::MAX), u32::MAX);
    assert_eq!(isqrt(0xffff_fffe_0000_0001), u32::MAX);
    assert_eq!(isqrt(0xffff_fffe_0000_0000), u32::MAX - 1);
}

#[test]
fn saturation_stops_at_the_ends() {
    assert_eq!(saturate_i64(5), 5);
    assert_eq!(saturate_i64(i64::MAX as i128 + 1), i64::MAX);
    assert_eq!(saturate_i64(i64::MIN as i128 - 1), i64::MIN);
    assert_eq!(saturate_i64(i128::MIN), i64::MIN);
    assert_eq!(saturate_u64(5), 5);
    assert_eq!(saturate_u64(u64::MAX as u128 + 1), u64::MAX);
    assert_eq!(saturate_u64(u128::MAX), u64::MAX);
}

#[test]
fn scale_rounds_down_on_both_sides_of_zero() {
    assert_eq!(scale(10, 1, 3), 3);
    assert_eq!(scale(-10, 1, 3), -4);
    assert_eq!(scale(-9, 1, 3), -3);
    assert_eq!(scale(0, 1, 3), 0);
    assert_eq!(scale(7, 5, 5), 7);
    assert_eq!(scale(-7, 0, 5), 0);
    let wide: i128 = (1i128 << 64) - 1;
    assert_eq!(scale(wide, u64::MAX, u64::MAX as u128), wide);
    // (2^64 - 1)^2 / 2^64 lies just above 2^64 - 2
    assert_eq!(scale(wide, u64::MAX, u64::MAX as u128 + 1), wide - 1);
    assert_eq!(scale(-wide, u64::MAX, u64::MAX as u128 + 1), -wide);
}
