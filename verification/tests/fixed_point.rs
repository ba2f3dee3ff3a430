use rocket_flight::fixed::{isqrt, isqrt_ceil, rescale_exec, saturate_exec, SCALE};

#[test]
fn scale_is_a_million() {
    assert_eq!(SCALE, 1_000_000);
}

#[test]
fn rescale_rounds_toward_zero() {
    assert_eq!(rescale_exec(0), 0);
    assert_eq!(rescale_exec(1_000_000), 1);
    assert_eq!(rescale_exec(1_999_999), 1);
    assert_eq!(rescale_exec(999_999), 0);
    assert_eq!(rescale_exec(-999_999), 0);
    assert_eq!(rescale_exec(-1_000_000), -1);
    assert_eq!(rescale_exec(-1_999_999), -1);
    assert_eq!(rescale_exec(26_175_523_500), 26_175);
}

#[test]
fn rescale_takes_the_whole_range() {
    assert_eq!(rescale_exec(i128::MAX), i128::MAX / 1_000_000);
    assert_eq!(rescale_exec(i128::MIN), i128::MIN / 1_000_000);
}

#[test]
fn saturate_limits_to_64_bits() {
    assert_eq!(saturate_exec(0), 0);
    assert_eq!(saturate_exec(-5), -5);
    assert_eq!(saturate_exec(i64::MAX as i128), i64::MAX);
    assert_eq!(saturate_exec(i64::MAX as i128 + 1), i64::MAX);
    assert_eq!(saturate_exec(i64::MIN as i128), i64::MIN);
    assert_eq!(saturate_exec(i64::MIN as i128 - 1), i64::MIN);
    assert_eq!(saturate_exec(i128::MAX), i64::MAX);
    assert_eq!(saturate_exec(i128::MIN), i64::MIN);
}

#[test]
fn isqrt_rounds_down() {
    assert_eq!(isqrt(0), 0);
    assert_eq!(isqrt(1), 1);
    assert_eq!(isqrt(2), 1);
    assert_eq!(isqrt(3), 1);
    assert_eq!(isqrt(4), 2);
    assert_eq!(isqrt(15), 3);
    assert_eq!(isqrt(16), 4);
    assert_eq!(isqrt(17), 4);
    assert_eq!(isqrt(1_000_000_000_000), 1_000_000);
    assert_eq!(isqrt(999_999_999_999), 999_999);
}

#[test]
fn isqrt_of_the_largest_values() {
    assert_eq!(isqrt(u128::MAX), u64::MAX);
    let m = u64::MAX as u128;
    assert_eq!(isqrt(m * m), u64::MAX);
    assert_eq!(isqrt(m * m - 1), u64::MAX - 1);
}

#[test]
fn isqrt_brackets_every_small_number() {
    for n in 0u128..5_000 {
        let r = isqrt(n) as u128;
        assert!(r * r <= n && n < (r + 1) * (r + 1));
    }
}

#[test]
fn isqrt_ceil_rounds_up() {
    assert_eq!(isqrt_ceil(0), 0);
    assert_eq!(isqrt_ceil(1), 1);
    assert_eq!(isqrt_ceil(2), 2);
    assert_eq!(isqrt_ceil(15), 4);
    assert_eq!(isqrt_ceil(16), 4);
    assert_eq!(isqrt_ceil(17), 5);
    assert_eq!(isqrt_ceil(u128::MAX), 1u128 << 64);
}
