use vstd::prelude::*;

use crate::wide::{mul_ratio, ratio_floor};

verus! {

/// Number of atomic units in one whole unit of a [`Decimal`].
pub const DECIMAL_FRACTIONAL: u128 = 1_000_000_000_000_000_000;

/// A non-negative fixed-point number with 18 fractional digits: its value is
/// `atomics / 10^18`.
#[derive(Debug, Clone, Copy, PartialEq, Eq, Structural)]
pub struct Decimal {
    pub atomics: u128,
}

/// The decimal `n / d`, rounded down to an atomic unit.
pub open spec fn decimal_ratio(n: int, d: int) -> Option<Decimal> {
    match ratio_floor(n, DECIMAL_FRACTIONAL as int, d) {
        Some(v) => Some(Decimal { atomics: v }),
        None => None,
    }
}

/// `amount * d`, rounded down.
pub open spec fn mul_floor_spec(amount: int, d: Decimal) -> int {
    amount * d.atomics / DECIMAL_FRACTIONAL as int
}

/// Relies on cosmwasm_std's `Decimal::checked_from_ratio`: `n * 10^18 / d`
/// atomics, rounded down; an error when `d` is zero or the result exceeds
/// `u128`.
#[verifier::external_body]
fn checked_from_ratio(n: u128, d: u128) -> (r: Option<Decimal>)
    ensures
        r == decimal_ratio(n as int, d as int),
{
    match cosmwasm_std::Decimal::checked_from_ratio(n, d) {
        Ok(v) => Some(Decimal { atomics: v.atomics().u128() }),
        Err(_) => None,
    }
}

/// Relies on cosmwasm_std's `Decimal::checked_div`: the ratio of the two
/// atomics counts as a decimal, rounded down; an error when `b` is zero or the
/// result exceeds `u128` atomics.
#[verifier::external_body]
fn checked_div(a: Decimal, b: Decimal) -> (r: Option<Decimal>)
    ensures
        r == decimal_ratio(a.atomics as int, b.atomics as int),
{
    let x = cosmwasm_std::Decimal::raw(a.atomics);
    match x.checked_div(cosmwasm_std::Decimal::raw(b.atomics)) {
        Ok(v) => Some(Decimal { atomics: v.atomics().u128() }),
        Err(_) => None,
    }
}

impl Decimal {
    pub fn zero() -> (r: Decimal)
        ensures
            r.atomics == 0,
    {
        Decimal { atomics: 0 }
    }

    pub fn one() -> (r: Decimal)
        ensures
            r.atomics == DECIMAL_FRACTIONAL,
    {
        Decimal { atomics: DECIMAL_FRACTIONAL }
    }

    /// A decimal from its atomic units.
    pub fn raw(atomics: u128) -> (r: Decimal)
        ensures
            r.atomics == atomics,
    {
        Decimal { atomics }
    }

    /// `x` percent.
    pub fn percent(x: u64) -> (r: Decimal)
        ensures
            r.atomics == x * 10_000_000_000_000_000,
    {
        Decimal { atomics: x as u128 * 10_000_000_000_000_000 }
    }

    /// The ratio `n / d`, rounded down to an atomic unit; `None` when `d` is
    /// zero or the ratio does not fit.
    pub fn checked_from_ratio(n: u128, d: u128) -> (r: Option<Decimal>)
        ensures
            r == decimal_ratio(n as int, d as int),
    {
        checked_from_ratio(n, d)
    }

    /// The ratio `n / d`, rounded down to an atomic unit.
    pub fn from_ratio(n: u128, d: u128) -> (r: Decimal)
        requires
            decimal_ratio(n as int, d as int) is Some,
        ensures
            Some(r) == decimal_ratio(n as int, d as int),
    {
        match checked_from_ratio(n, d) {
            Some(v) => v,
            None => Decimal { atomics: 0 },
        }
    }

    /// `self / other`, rounded down to an atomic unit; `None` when `other` is
    /// zero or the quotient does not fit.
    pub fn checked_div(self, other: Decimal) -> (r: Option<Decimal>)
        ensures
            r == decimal_ratio(self.atomics as int, other.atomics as int),
    {
        checked_div(self, other)
    }

    /// `amount * self`, rounded down; `None` when it does not fit.
    pub fn checked_mul_floor(self, amount: u128) -> (r: Option<u128>)
        ensures
            r == ratio_floor(amount as int, self.atomics as int, DECIMAL_FRACTIONAL as int),
    {
        mul_ratio(amount, self.atomics, DECIMAL_FRACTIONAL)
    }

    /// `amount * self`, rounded down.
    pub fn mul_floor(self, amount: u128) -> (r: u128)
        requires
            mul_floor_spec(amount as int, self) <= u128::MAX,
        ensures
            r == mul_floor_spec(amount as int, self),
    {
        match mul_ratio(amount, self.atomics, DECIMAL_FRACTIONAL) {
            Some(v) => v,
            None => 0,
        }
    }
}

} // verus!
