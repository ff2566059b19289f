use cosmwasm_std::Uint128;
use vstd::prelude::*;

verus! {

/// `a * b / c`, rounded down.
pub open spec fn ratio_floor(a: int, b: int, c: int) -> int {
    (a * b) / c
}

/// Relies on `cosmwasm_std::Uint128::checked_multiply_ratio`: `a * b / c` with a
/// 256-bit intermediate product, rounded down; an error when `c` is zero or the
/// quotient does not fit in 128 bits.
#[verifier::external_body]
pub(crate) fn checked_multiply_ratio(a: u128, b: u128, c: u128) -> (r: Option<u128>)
    ensures
        c == 0 ==> r is None,
        c != 0 && ratio_floor(a as int, b as int, c as int) <= u128::MAX ==> r == Some(
            ratio_floor(a as int, b as int, c as int) as u128,
        ),
        c != 0 && ratio_floor(a as int, b as int, c as int) > u128::MAX ==> r is None,
{
    match Uint128::new(a).checked_multiply_ratio(b, c) {
        Ok(v) => Some(v.u128()),
        Err(_) => None,
    }
}

} // verus!
