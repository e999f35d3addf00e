use vstd::prelude::*;

verus! {

/// Errors of the pool engine.
#[derive(Debug, Clone, Copy, PartialEq, Eq, Structural)]
pub enum ContractError {
    /// An intermediate or final amount does not fit the working integer width,
    /// or a subtraction would go below zero.
    Overflow {},
    /// A division whose divisor is zero.
    DivideByZero {},
    /// A Newton iteration did not settle within its iteration cap.
    NoConvergence {},
    Unauthorized {},
    DoublingAssets {},
    InvalidZeroAmount {},
    LiquidityAmountTooSmall {},
    AllowedSpreadAssertion {},
    MaxSpreadAssertion {},
    AssetMismatch {},
    PairTypeMismatch {},
    IncorrectAmp {},
    MaxAmpChangeAssertion {},
    MinAmpChangingTimeAssertion {},
    InitParamsNotFound {},
    InvalidProvideLPsWithSingleToken {},
    /// The amount of a native asset does not match the funds sent with it.
    NativeTokenBalanceMismatch {},
    /// A native denomination outside the `ibc/` namespace is not in lower
    /// case.
    NonLowercaseDenom {},
}

} // verus!
