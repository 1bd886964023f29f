//! Arithmetic on balances.
//!
//! The executable functions here hand the work to the numeric traits that
//! `sp_runtime` offers for every balance type. Their contracts are not proved:
//! each states what the trait's implementation for `u128` computes.
use vstd::prelude::*;
use crate::Balance;
use sp_runtime::traits::{CheckedAdd, CheckedSub, Saturating, Zero};

verus! {

/// `a + b`, or the largest balance where the sum does not fit.
pub open spec fn saturating_sum(a: Balance, b: Balance) -> Balance {
    if a + b > Balance::MAX {
        Balance::MAX
    } else {
        (a + b) as Balance
    }
}

/// `a - b`, or zero where `b` exceeds `a`.
pub open spec fn saturating_difference(a: Balance, b: Balance) -> Balance {
    if a < b {
        0
    } else {
        (a - b) as Balance
    }
}

/// Calls `Saturating::saturating_add` of `sp_runtime`, which for `u128` is the
/// integer's own saturating addition. Trusted: the result is the sum, capped
/// at the largest balance.
#[verifier::external_body]
pub(crate) fn saturating_add(a: Balance, b: Balance) -> (r: Balance)
    ensures
        r == saturating_sum(a, b),
{
    Saturating::saturating_add(a, b)
}

/// Calls `Saturating::saturating_sub` of `sp_runtime`, which for `u128` is the
/// integer's own saturating subtraction. Trusted: the result is the
/// difference, or zero where it would be negative.
#[verifier::external_body]
pub(crate) fn saturating_sub(a: Balance, b: Balance) -> (r: Balance)
    ensures
        r == saturating_difference(a, b),
{
    Saturating::saturating_sub(a, b)
}

/// Calls `CheckedAdd::checked_add`, as `sp_runtime` re-exports it. Trusted:
/// the result is the sum where it fits in a balance, and `None` where it does
/// not.
#[verifier::external_body]
pub(crate) fn checked_add(a: Balance, b: Balance) -> (r: Option<Balance>)
    ensures
        r == if a + b <= Balance::MAX {
            Some((a + b) as Balance)
        } else {
            None
        },
{
    CheckedAdd::checked_add(&a, &b)
}

/// Calls `CheckedSub::checked_sub`, as `sp_runtime` re-exports it. Trusted:
/// the result is the difference where `b` does not exceed `a`, and `None`
/// where it does.
#[verifier::external_body]
pub(crate) fn checked_sub(a: Balance, b: Balance) -> (r: Option<Balance>)
    ensures
        r == if b <= a {
            Some((a - b) as Balance)
        } else {
            None
        },
{
    CheckedSub::checked_sub(&a, &b)
}

/// Calls `Zero::zero`, as `sp_runtime` re-exports it. Trusted: the result is
/// the balance 0.
#[verifier::external_body]
pub(crate) fn zero() -> (r: Balance)
    ensures
        r == 0,
{
    Zero::zero()
}

/// Calls `Zero::is_zero`, as `sp_runtime` re-exports it. Trusted: the result
/// tells whether the balance is 0.
#[verifier::external_body]
pub(crate) fn is_zero(a: Balance) -> (r: bool)
    ensures
        r == (a == 0),
{
    Zero::is_zero(&a)
}

} // verus!
