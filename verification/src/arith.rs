use vstd::prelude::*;
use crate::types::Balance;

verus! {

/// Saturating addition on balances: the exact sum, clamped at `u64::MAX`.
pub open spec fn spec_sat_add(a: Balance, b: Balance) -> Balance {
    if a + b <= u64::MAX {
        (a + b) as Balance
    } else {
        u64::MAX
    }
}

/// Saturating subtraction on balances: the exact difference, clamped at zero.
pub open spec fn spec_sat_sub(a: Balance, b: Balance) -> Balance {
    if a >= b {
        (a - b) as Balance
    } else {
        0
    }
}

/// The smaller of two balances.
pub open spec fn min_bal(a: Balance, b: Balance) -> Balance {
    if a <= b {
        a
    } else {
        b
    }
}

/// Adds two balances, clamping at `u64::MAX`.
pub fn sat_add(a: Balance, b: Balance) -> (r: Balance)
    ensures
        r == spec_sat_add(a, b),
{
    if a <= u64::MAX - b {
        a + b
    } else {
        u64::MAX
    }
}

/// Subtracts `b` from `a`, clamping at zero.
pub fn sat_sub(a: Balance, b: Balance) -> (r: Balance)
    ensures
        r == spec_sat_sub(a, b),
{
    if a >= b {
        a - b
    } else {
        0
    }
}

} // verus!
