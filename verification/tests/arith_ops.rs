use dex_soon::arith::{
    checked_add_u64, checked_div_u128, checked_mul_u128, checked_sub_u64, isqrt_u128,
    narrow_u128_to_u64,
};
use dex_soon::error::AmmError;

#[test]
fn checked_add_detects_overflow() {
    assert_eq!(checked_add_u64(3, 4), Ok(7));
    assert_eq!(checked_add_u64(u64::MAX, 0), Ok(u64::MAX));
    assert_eq!(checked_add_u64(u64::MAX, 1), Err(AmmError::ArithmeticOverflow));
}

#[test]
fn checked_sub_detects_underflow() {
    assert_eq!(checked_sub_u64(7, 4), Ok(3));
    assert_eq!(checked_sub_u64(4, 4), Ok(0));
    assert_eq!(checked_sub_u64(3, 5), Err(AmmError::ArithmeticOverflow));
}

#[test]
fn checked_mul_detects_overflow() {
    assert_eq!(checked_mul_u128(1 << 100, 4), Ok(1 << 102));
    assert_eq!(checked_mul_u128(u128::MAX, 1), Ok(u128::MAX));
    assert_eq!(checked_mul_u128(u128::MAX, 2), Err(AmmError::ArithmeticOverflow));
}

#[test]
fn checked_div_detects_zero_divisor() {
    assert_eq!(checked_div_u128(17, 5), Ok(3));
    assert_eq!(checked_div_u128(17, 0), Err(AmmError::DivisionByZero));
}

#[test]
fn narrowing_refuses_to_truncate() {
    assert_eq!(narrow_u128_to_u64(u64::MAX as u128), Ok(u64::MAX));
    assert_eq!(narrow_u128_to_u64(u64::MAX as u128 + 1), Err(AmmError::ArithmeticOverflow));
}

#[test]
fn isqrt_exact_squares_and_floors() {
    assert_eq!(isqrt_u128(0), 0);
    assert_eq!(isqrt_u128(1), 1);
    assert_eq!(isqrt_u128(2), 1);
    assert_eq!(isqrt_u128(3), 1);
    assert_eq!(isqrt_u128(4), 2);
    assert_eq!(isqrt_u128(10_000), 100);
    assert_eq!(isqrt_u128(10_001), 100);
    assert_eq!(isqrt_u128(9_999), 99);
}

#[test]
fn isqrt_largest_product() {
    let n = u64::MAX as u128 * u64::MAX as u128;
    assert_eq!(isqrt_u128(n), u64::MAX);
    assert_eq!(isqrt_u128(n - 1), u64::MAX - 1);
}
