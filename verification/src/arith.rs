//! Arithmetic safety layer: checked integer operations with explicit
//! overflow and zero-division signalling, widened-to-narrow conversion that
//! refuses to truncate, and a floor square root over the widened domain.

use vstd::prelude::*;

use crate::error::AmmError;

verus! {

/// `r` is the floor of the square root of `n`.
pub open spec fn is_sqrt_floor(n: nat, r: nat) -> bool {
    r * r <= n && n < (r + 1) * (r + 1)
}

/// The product of two 64-bit values always fits in the 128-bit widened domain.
pub proof fn lemma_u64_mul_fits_u128(x: u64, y: u64)
    by (nonlinear_arith)
    ensures
        (x as int) * (y as int) <= u64::MAX * u64::MAX,
        (x as int) * (y as int) <= u128::MAX as int,
{
}

/// Addition of two balances, failing on overflow instead of wrapping.
pub fn checked_add_u64(a: u64, b: u64) -> (r: Result<u64, AmmError>)
    ensures
        a + b <= u64::MAX ==> r == Ok::<u64, AmmError>((a + b) as u64),
        a + b > u64::MAX ==> r == Err::<u64, AmmError>(AmmError::ArithmeticOverflow),
{
    match a.checked_add(b) {
        Some(v) => Ok(v),
        None => Err(AmmError::ArithmeticOverflow),
    }
}

/// Subtraction of two balances, failing on underflow instead of wrapping.
pub fn checked_sub_u64(a: u64, b: u64) -> (r: Result<u64, AmmError>)
    ensures
        b <= a ==> r == Ok::<u64, AmmError>((a - b) as u64),
        b > a ==> r == Err::<u64, AmmError>(AmmError::ArithmeticOverflow),
{
    match a.checked_sub(b) {
        Some(v) => Ok(v),
        None => Err(AmmError::ArithmeticOverflow),
    }
}

/// Widened multiplication, failing when the product exceeds even the
/// 128-bit intermediate range.
pub fn checked_mul_u128(a: u128, b: u128) -> (r: Result<u128, AmmError>)
    ensures
        a * b <= u128::MAX ==> r == Ok::<u128, AmmError>((a * b) as u128),
        a * b > u128::MAX ==> r == Err::<u128, AmmError>(AmmError::ArithmeticOverflow),
{
    match a.checked_mul(b) {
        Some(v) => Ok(v),
        None => Err(AmmError::ArithmeticOverflow),
    }
}

/// Division in the widened domain, failing explicitly on a zero divisor.
pub fn checked_div_u128(a: u128, b: u128) -> (r: Result<u128, AmmError>)
    ensures
        b > 0 ==> r == Ok::<u128, AmmError>(a / b),
        b == 0 ==> r == Err::<u128, AmmError>(AmmError::DivisionByZero),
{
    if b == 0 {
        Err(AmmError::DivisionByZero)
    } else {
        Ok(a / b)
    }
}

/// Narrowing from the widened domain back to a balance, failing instead of
/// truncating when the value does not fit.
pub fn narrow_u128_to_u64(a: u128) -> (r: Result<u64, AmmError>)
    ensures
        a <= u64::MAX ==> r == Ok::<u64, AmmError>(a as u64),
        a > u64::MAX ==> r == Err::<u64, AmmError>(AmmError::ArithmeticOverflow),
{
    if a <= u64::MAX as u128 {
        Ok(a as u64)
    } else {
        Err(AmmError::ArithmeticOverflow)
    }
}

/// Floor square root over the widened domain, for products of two 64-bit
/// values; the root of such a product always fits in 64 bits.
pub fn isqrt_u128(n: u128) -> (r: u64)
    requires
        n <= u64::MAX * u64::MAX,
    ensures
        is_sqrt_floor(n as nat, r as nat),
{
    let mut lo: u64 = 0;
    let mut hi: u64 = u64::MAX;
    proof {
        assert((hi as nat + 1) * (hi as nat + 1) > n as nat) by (nonlinear_arith)
            requires
                n <= u64::MAX * u64::MAX,
                hi == u64::MAX,
        ;
    }
    while lo < hi
        invariant
            lo <= hi,
            (lo as nat) * (lo as nat) <= n as nat,
            (n as nat) < (hi as nat + 1) * (hi as nat + 1),
        decreases hi - lo,
    {
        let d: u64 = hi - lo;
        let mid: u64 = lo + d / 2 + d % 2;
        proof {
            lemma_u64_mul_fits_u128(mid, mid);
        }
        let sq: u128 = (mid as u128) * (mid as u128);
        if sq <= n {
            lo = mid;
        } else {
            hi = mid - 1;
        }
    }
    lo
}

} // verus!
