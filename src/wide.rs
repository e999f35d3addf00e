use vstd::prelude::*;

verus! {

/// `a * n / d` rounded down, when `d` is non-zero and the result fits in a
/// `u128`.
pub open spec fn ratio_floor(a: int, n: int, d: int) -> Option<u128> {
    if d == 0 || a * n / d > u128::MAX {
        None
    } else {
        Some((a * n / d) as u128)
    }
}

/// Relies on cosmwasm_std's `Uint128::checked_multiply_ratio`: `a * n / d`
/// computed with a 256-bit intermediate and rounded down; an error when `d` is
/// zero or the result exceeds `u128`.
#[verifier::external_body]
pub(crate) fn mul_ratio(a: u128, n: u128, d: u128) -> (r: Option<u128>)
    ensures
        r == ratio_floor(a as int, n as int, d as int),
{
    match cosmwasm_std::Uint128::new(a).checked_multiply_ratio(n, d) {
        Ok(v) => Some(v.u128()),
        Err(_) => None,
    }
}

/// Relies on cosmwasm_std's `Uint128::full_mul`, the exact 256-bit product,
/// and on its `Isqrt::isqrt` for `Uint256`, the integer square root (the
/// largest `r` with `r * r <= n`). A root of a product of two `u128` values
/// always fits in a `u128`.
#[verifier::external_body]
pub(crate) fn sqrt_of_product(a: u128, b: u128) -> (r: u128)
    ensures
        r * r <= a * b < (r + 1) * (r + 1),
{
    let root = cosmwasm_std::Isqrt::isqrt(cosmwasm_std::Uint128::new(a).full_mul(b));
    match cosmwasm_std::Uint128::try_from(root) {
        Ok(v) => v.u128(),
        Err(_) => u128::MAX,
    }
}

} // verus!
