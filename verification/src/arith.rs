use vstd::prelude::*;

use crate::errors::CycleError;

verus! {

/// Checked multiplication on balances: rejects with `ArithmeticOverflow`
/// instead of wrapping, so pot and stake accounting can never be corrupted
/// silently.
pub fn mul_u64(a: u64, b: u64) -> (r: Result<u64, CycleError>)
    ensures
        a * b <= u64::MAX ==> r == Ok::<u64, CycleError>((a * b) as u64),
        a * b > u64::MAX ==> r == Err::<u64, CycleError>(CycleError::ArithmeticOverflow),
{
    match a.checked_mul(b) {
        Some(v) => Ok(v),
        None => Err(CycleError::ArithmeticOverflow),
    }
}

/// Checked addition on balances: rejects with `ArithmeticOverflow` instead of
/// wrapping.
pub fn add_u64(a: u64, b: u64) -> (r: Result<u64, CycleError>)
    ensures
        a + b <= u64::MAX ==> r == Ok::<u64, CycleError>((a + b) as u64),
        a + b > u64::MAX ==> r == Err::<u64, CycleError>(CycleError::ArithmeticOverflow),
{
    match a.checked_add(b) {
        Some(v) => Ok(v),
        None => Err(CycleError::ArithmeticOverflow),
    }
}

/// Checked subtraction on balances: rejects with `ArithmeticUnderflow` instead
/// of wrapping.
pub fn sub_u64(a: u64, b: u64) -> (r: Result<u64, CycleError>)
    ensures
        a >= b ==> r == Ok::<u64, CycleError>((a - b) as u64),
        a < b ==> r == Err::<u64, CycleError>(CycleError::ArithmeticUnderflow),
{
    match a.checked_sub(b) {
        Some(v) => Ok(v),
        None => Err(CycleError::ArithmeticUnderflow),
    }
}

/// Checked addition on timestamps: rejects with `ArithmeticOverflow` when the
/// sum leaves the signed 64-bit range.
pub fn add_i64(a: i64, b: i64) -> (r: Result<i64, CycleError>)
    ensures
        i64::MIN <= a + b <= i64::MAX ==> r == Ok::<i64, CycleError>((a + b) as i64),
        !(i64::MIN <= a + b <= i64::MAX) ==> r == Err::<i64, CycleError>(
            CycleError::ArithmeticOverflow,
        ),
{
    match a.checked_add(b) {
        Some(v) => Ok(v),
        None => Err(CycleError::ArithmeticOverflow),
    }
}

} // verus!
