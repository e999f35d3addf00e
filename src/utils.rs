use vstd::prelude::*;

use crate::asset::{same_asset, Asset};
use crate::decimal::{mul_floor_spec, Decimal, DECIMAL_FRACTIONAL};
use crate::error::ContractError;
use crate::math::{ask_amount, calc_ask_amount, calc_offer_amount, offer_amount};
use crate::wide::ratio_floor;

verus! {

/// Numerator of the pool's swap fee.
pub const GLOBAL_FEE_NUMERATOR: u128 = 30;

/// Denominator of the pool's swap fee.
pub const GLOBAL_FEE_DENOMINATOR: u128 = 10000;

/// `10^n`.
pub open spec fn pow10(n: nat) -> int
    decreases n,
{
    if n == 0 {
        1
    } else {
        10 * pow10((n - 1) as nat)
    }
}

proof fn lemma_pow10_positive(n: nat)
    ensures
        pow10(n) >= 1,
    decreases n,
{
    if n > 0 {
        lemma_pow10_positive((n - 1) as nat);
    }
}

proof fn lemma_pow10_monotone(a: nat, b: nat)
    requires
        a <= b,
    ensures
        pow10(a) <= pow10(b),
    decreases b - a,
{
    if a < b {
        lemma_pow10_monotone(a, (b - 1) as nat);
        lemma_pow10_positive((b - 1) as nat);
    }
}

/// `value` moved from `current` decimal places to `new` ones: multiplied by
/// `10^(new - current)` when that fits, or divided by `10^(current - new)`
/// rounding down.
pub open spec fn adjusted(value: int, current: int, new: int) -> Result<u128, ContractError> {
    if current == new {
        Ok(value as u128)
    } else if current < new {
        if value * pow10((new - current) as nat) > u128::MAX {
            Err(ContractError::Overflow {})
        } else {
            Ok((value * pow10((new - current) as nat)) as u128)
        }
    } else {
        Ok((value / pow10((current - new) as nat)) as u128)
    }
}

/// `10^n` when it fits in a `u128`.
fn checked_pow10(n: u8) -> (r: Option<u128>)
    ensures
        match r {
            Some(p) => p == pow10(n as nat),
            None => pow10(n as nat) > u128::MAX,
        },
{
    let mut p: u128 = 1;
    let mut i: u8 = 0;
    while i < n
        invariant
            i <= n,
            p == pow10(i as nat),
        decreases n - i,
    {
        if p > u128::MAX / 10 {
            proof {
                lemma_pow10_monotone((i + 1) as nat, n as nat);
            }
            return None;
        }
        p = p * 10;
        i = i + 1;
    }
    Some(p)
}

/// Moves `value` from `current_precision` decimal places to `new_precision`.
pub fn adjust_precision(value: u128, current_precision: u8, new_precision: u8) -> (r: Result<
    u128,
    ContractError,
>)
    ensures
        r == adjusted(value as int, current_precision as int, new_precision as int),
{
    if current_precision == new_precision {
        Ok(value)
    } else if current_precision < new_precision {
        match checked_pow10(new_precision - current_precision) {
            Some(p) => match value.checked_mul(p) {
                Some(v) => {
                    assert(v == value * pow10((new_precision - current_precision) as nat));
                    Ok(v)
                },
                None => Err(ContractError::Overflow {}),
            },
            None => {
                if value == 0 {
                    assert(value * pow10((new_precision - current_precision) as nat) == 0);
                    Ok(0)
                } else {
                    proof {
                        let p = pow10((new_precision - current_precision) as nat);
                        assert(value * p >= p) by (nonlinear_arith)
                            requires
                                value >= 1,
                                p >= 0,
                        ;
                    }
                    Err(ContractError::Overflow {})
                }
            },
        }
    } else {
        match checked_pow10(current_precision - new_precision) {
            Some(p) => {
                proof {
                    lemma_pow10_positive((current_precision - new_precision) as nat);
                }
                assert(value / p == value as int / pow10((current_precision - new_precision) as nat));
                Ok(value / p)
            },
            None => {
                proof {
                    let p = pow10((current_precision - new_precision) as nat);
                    assert(value as int / p == 0) by (nonlinear_arith)
                        requires
                            0 <= value < p,
                    ;
                }
                Ok(0)
            },
        }
    }
}

/// The pool's swap fee rate: 30 / 10000.
pub fn compute_global_fee() -> (r: Decimal)
    ensures
        r.atomics == 3_000_000_000_000_000,
{
    Decimal::from_ratio(GLOBAL_FEE_NUMERATOR, GLOBAL_FEE_DENOMINATOR)
}

/// The larger of two precisions.
pub open spec fn greater(a: u8, b: u8) -> u8 {
    if a >= b {
        a
    } else {
        b
    }
}

/// `value` moved down from `from` decimal places to `to <= from`.
pub open spec fn scaled_down(value: int, from: int, to: int) -> u128 {
    (value / pow10((from - to) as nat)) as u128
}

pub(crate) proof fn lemma_adjust_down(value: u128, from: u8, to: u8)
    requires
        to <= from,
    ensures
        adjusted(value as int, from as int, to as int) == Ok::<u128, ContractError>(
            scaled_down(value as int, from as int, to as int),
        ),
        scaled_down(value as int, from as int, to as int) <= value,
{
    lemma_pow10_positive((from - to) as nat);
    let p = pow10((from - to) as nat);
    assert(value as int / p <= value) by (nonlinear_arith)
        requires
            p >= 1,
            value >= 0,
    ;
    assert(pow10(0) == 1);
}

/// The outcome of selling `offer_amount` to a pool holding `offer_pool` and
/// `ask_pool`: the amount returned after commission, the spread (shortfall
/// below a one-to-one rate) and the commission, all in the ask asset's
/// precision. The invariant math runs at the greater of the two precisions.
pub open spec fn swap_outcome(
    offer_pool: u128,
    offer_precision: u8,
    ask_pool: u128,
    ask_precision: u8,
    offer_amount: u128,
    commission_rate: Decimal,
    amp: u64,
) -> Result<(u128, u128, u128), ContractError> {
    let g = greater(offer_precision, ask_precision);
    match (
        adjusted(offer_pool as int, offer_precision as int, g as int),
        adjusted(ask_pool as int, ask_precision as int, g as int),
        adjusted(offer_amount as int, offer_precision as int, g as int),
    ) {
        (Ok(p_offer), Ok(p_ask), Ok(amount)) => match ask_amount(
            p_offer as int,
            p_ask as int,
            amount as int,
            amp as int,
        ) {
            Err(e) => Err(e),
            Ok(gross) => {
                let spread = if amount > gross {
                    amount - gross
                } else {
                    0
                };
                let commission = mul_floor_spec(gross as int, commission_rate);
                Ok(
                    (
                        scaled_down(gross - commission, g as int, ask_precision as int),
                        scaled_down(spread, g as int, ask_precision as int),
                        scaled_down(commission, g as int, ask_precision as int),
                    ),
                )
            },
        },
        _ => Err(ContractError::Overflow {}),
    }
}

/// Sells `offer_amount` of the offer asset to the pool: returns the amount
/// paid out after commission, the spread, and the commission.
pub fn compute_swap(
    offer_pool: u128,
    offer_precision: u8,
    ask_pool: u128,
    ask_precision: u8,
    offer_amount: u128,
    commission_rate: Decimal,
    amp: u64,
) -> (r: Result<(u128, u128, u128), ContractError>)
    requires
        commission_rate.atomics <= DECIMAL_FRACTIONAL,
    ensures
        r == swap_outcome(
            offer_pool,
            offer_precision,
            ask_pool,
            ask_precision,
            offer_amount,
            commission_rate,
            amp,
        ),
{
    let g = if offer_precision >= ask_precision {
        offer_precision
    } else {
        ask_precision
    };
    let p_offer = adjust_precision(offer_pool, offer_precision, g)?;
    let p_ask = adjust_precision(ask_pool, ask_precision, g)?;
    let amount = adjust_precision(offer_amount, offer_precision, g)?;
    let gross = calc_ask_amount(p_offer, p_ask, amount, amp)?;
    let spread = amount.saturating_sub(gross);
    assert(mul_floor_spec(gross as int, commission_rate) <= gross) by (nonlinear_arith)
        requires
            commission_rate.atomics <= DECIMAL_FRACTIONAL,
            gross >= 0,
    ;
    let commission = commission_rate.mul_floor(gross);
    let net = gross - commission;
    proof {
        lemma_adjust_down(net, g, ask_precision);
        lemma_adjust_down(spread, g, ask_precision);
        lemma_adjust_down(commission, g, ask_precision);
    }
    let net = adjust_precision(net, g, ask_precision)?;
    let spread = adjust_precision(spread, g, ask_precision)?;
    let commission = adjust_precision(commission, g, ask_precision)?;
    Ok((net, spread, commission))
}

/// `1 / (1 - rate)` as a decimal, rounded down.
pub open spec fn gross_up_factor(rate: Decimal) -> Decimal {
    Decimal {
        atomics: (DECIMAL_FRACTIONAL * DECIMAL_FRACTIONAL / (DECIMAL_FRACTIONAL - rate.atomics))
            as u128,
    }
}

/// What must be offered to the pool to receive `ask_amount` after
/// commission: the offer amount (in the offer asset's precision), the spread
/// and the commission (in the ask asset's precision). The wanted amount is
/// first grossed up by `1 / (1 - commission_rate)`.
pub open spec fn reverse_swap_outcome(
    offer_pool: u128,
    offer_precision: u8,
    ask_pool: u128,
    ask_precision: u8,
    ask_amount: u128,
    commission_rate: Decimal,
    amp: u64,
) -> Result<(u128, u128, u128), ContractError> {
    let g = greater(offer_precision, ask_precision);
    match (
        adjusted(offer_pool as int, offer_precision as int, g as int),
        adjusted(ask_pool as int, ask_precision as int, g as int),
        adjusted(ask_amount as int, ask_precision as int, g as int),
    ) {
        (Ok(p_offer), Ok(p_ask), Ok(amount)) => match ratio_floor(
            amount as int,
            gross_up_factor(commission_rate).atomics as int,
            DECIMAL_FRACTIONAL as int,
        ) {
            None => Err(ContractError::Overflow {}),
            Some(before) => match offer_amount(
                p_offer as int,
                p_ask as int,
                before as int,
                amp as int,
            ) {
                Err(e) => Err(e),
                Ok(offer) => {
                    let spread = if offer > before {
                        offer - before
                    } else {
                        0
                    };
                    let commission = mul_floor_spec(before as int, commission_rate);
                    Ok(
                        (
                            scaled_down(offer as int, g as int, offer_precision as int),
                            scaled_down(spread, g as int, ask_precision as int),
                            scaled_down(commission, g as int, ask_precision as int),
                        ),
                    )
                },
            },
        },
        _ => Err(ContractError::Overflow {}),
    }
}

/// Returns the amount of the offer asset needed to receive `ask_amount` of
/// the ask asset after commission, with the spread and the commission.
pub fn compute_offer_amount(
    offer_pool: u128,
    offer_precision: u8,
    ask_pool: u128,
    ask_precision: u8,
    ask_amount: u128,
    commission_rate: Decimal,
    amp: u64,
) -> (r: Result<(u128, u128, u128), ContractError>)
    requires
        commission_rate.atomics < DECIMAL_FRACTIONAL,
    ensures
        r == reverse_swap_outcome(
            offer_pool,
            offer_precision,
            ask_pool,
            ask_precision,
            ask_amount,
            commission_rate,
            amp,
        ),
{
    let g = if offer_precision >= ask_precision {
        offer_precision
    } else {
        ask_precision
    };
    let p_offer = adjust_precision(offer_pool, offer_precision, g)?;
    let p_ask = adjust_precision(ask_pool, ask_precision, g)?;
    let amount = adjust_precision(ask_amount, ask_precision, g)?;
    let one_minus_commission = Decimal::raw(DECIMAL_FRACTIONAL - commission_rate.atomics);
    let factor = match Decimal::one().checked_div(one_minus_commission) {
        Some(f) => f,
        None => {
            proof {
                let m = one_minus_commission.atomics as int;
                assert((DECIMAL_FRACTIONAL * DECIMAL_FRACTIONAL) as int / m <= DECIMAL_FRACTIONAL
                    * DECIMAL_FRACTIONAL) by (nonlinear_arith)
                    requires
                        m >= 1,
                ;
            }
            return Err(ContractError::Overflow {});
        },
    };
    let before = match factor.checked_mul_floor(amount) {
        Some(v) => v,
        None => return Err(ContractError::Overflow {}),
    };
    let offer = calc_offer_amount(p_offer, p_ask, before, amp)?;
    let spread = offer.saturating_sub(before);
    assert(mul_floor_spec(before as int, commission_rate) <= before) by (nonlinear_arith)
        requires
            commission_rate.atomics <= DECIMAL_FRACTIONAL,
            before >= 0,
    ;
    let commission = commission_rate.mul_floor(before);
    proof {
        lemma_adjust_down(offer, g, offer_precision);
        lemma_adjust_down(spread, g, ask_precision);
        lemma_adjust_down(commission, g, ask_precision);
    }
    let offer = adjust_precision(offer, g, offer_precision)?;
    let spread = adjust_precision(spread, g, ask_precision)?;
    let commission = adjust_precision(commission, g, ask_precision)?;
    Ok((offer, spread, commission))
}

/// The spread allowed when the caller names none: 0.005.
pub const DEFAULT_SLIPPAGE: u128 = 5_000_000_000_000_000;

/// The largest spread a caller may allow: 0.5.
pub const MAX_ALLOWED_SLIPPAGE: u128 = 500_000_000_000_000_000;

/// What the offer buys at the believed price `belief_price` (ask units per
/// offer unit inverted): `offer_amount * (1 / belief_price)`, rounded down.
pub open spec fn expected_return(offer_amount: int, belief_price: Decimal) -> int {
    offer_amount * (DECIMAL_FRACTIONAL * DECIMAL_FRACTIONAL / belief_price.atomics as int)
        / DECIMAL_FRACTIONAL as int
}

/// The slippage check of a swap. The allowed spread (`max_spread`, else the
/// default) may not exceed the platform ceiling. With a believed price, the
/// shortfall of `return_amount` below the return that price implies, as a
/// share of that return, may not exceed it; without one, `spread_amount` as a
/// share of `return_amount + spread_amount` may not.
pub open spec fn spread_check(
    belief_price: Option<Decimal>,
    max_spread: Option<Decimal>,
    offer_amount: u128,
    return_amount: u128,
    spread_amount: u128,
) -> Result<(), ContractError> {
    let allowed = match max_spread {
        Some(m) => m.atomics,
        None => DEFAULT_SLIPPAGE,
    };
    if allowed > MAX_ALLOWED_SLIPPAGE {
        Err(ContractError::AllowedSpreadAssertion {})
    } else {
        match belief_price {
            Some(bp) => {
                let expected = expected_return(offer_amount as int, bp);
                if return_amount < expected && (expected - return_amount) * DECIMAL_FRACTIONAL
                    / expected > allowed {
                    Err(ContractError::MaxSpreadAssertion {})
                } else {
                    Ok(())
                }
            },
            None => if spread_amount * DECIMAL_FRACTIONAL / (return_amount + spread_amount)
                > allowed {
                Err(ContractError::MaxSpreadAssertion {})
            } else {
                Ok(())
            },
        }
    }
}

/// Refuses a swap whose spread exceeds what the caller allows.
pub fn assert_max_spread(
    belief_price: Option<Decimal>,
    max_spread: Option<Decimal>,
    offer_amount: u128,
    return_amount: u128,
    spread_amount: u128,
) -> (r: Result<(), ContractError>)
    requires
        match belief_price {
            Some(bp) => bp.atomics > 0 && expected_return(offer_amount as int, bp) <= u128::MAX,
            None => 0 < return_amount + spread_amount <= u128::MAX,
        },
    ensures
        r == spread_check(belief_price, max_spread, offer_amount, return_amount, spread_amount),
{
    let allowed = match max_spread {
        Some(m) => m,
        None => Decimal::raw(DEFAULT_SLIPPAGE),
    };
    if allowed.atomics > MAX_ALLOWED_SLIPPAGE {
        return Err(ContractError::AllowedSpreadAssertion {});
    }
    match belief_price {
        Some(bp) => {
            proof {
                let b = bp.atomics as int;
                assert((DECIMAL_FRACTIONAL * DECIMAL_FRACTIONAL) as int / b <= DECIMAL_FRACTIONAL
                    * DECIMAL_FRACTIONAL) by (nonlinear_arith)
                    requires
                        b >= 1,
                ;
            }
            let inverse = match Decimal::one().checked_div(bp) {
                Some(v) => v,
                None => return Ok(()),
            };
            let expected = inverse.mul_floor(offer_amount);
            if return_amount < expected {
                let shortfall = expected - return_amount;
                proof {
                    let sh = shortfall as int;
                    let ex = expected as int;
                    assert(sh * DECIMAL_FRACTIONAL / ex <= DECIMAL_FRACTIONAL) by (nonlinear_arith)
                        requires
                            0 <= sh <= ex,
                            ex > 0,
                    ;
                }
                let ratio = Decimal::from_ratio(shortfall, expected);
                if ratio.atomics > allowed.atomics {
                    return Err(ContractError::MaxSpreadAssertion {});
                }
            }
            Ok(())
        },
        None => {
            let total = return_amount + spread_amount;
            proof {
                let sp = spread_amount as int;
                let t = total as int;
                assert(sp * DECIMAL_FRACTIONAL / t <= DECIMAL_FRACTIONAL) by (nonlinear_arith)
                    requires
                        0 <= sp <= t,
                        t > 0,
                ;
            }
            let ratio = Decimal::from_ratio(spread_amount, total);
            if ratio.atomics > allowed.atomics {
                Err(ContractError::MaxSpreadAssertion {})
            } else {
                Ok(())
            }
        },
    }
}

/// The decimal share `amount / total_share`, zero when nothing is
/// outstanding.
pub open spec fn share_ratio(amount: int, total_share: int) -> int {
    if total_share == 0 {
        0
    } else {
        amount * DECIMAL_FRACTIONAL / total_share
    }
}

/// The part of a reserve `pool` that `amount` of `total_share` pool shares
/// stand for, rounded down.
pub open spec fn share_of(pool: int, amount: int, total_share: int) -> int {
    pool * share_ratio(amount, total_share) / DECIMAL_FRACTIONAL as int
}

/// Pro-rata part of both reserves that `amount` of `total_share` pool shares
/// stand for.
pub fn get_share_in_assets(pools: &[Asset; 2], amount: u128, total_share: u128) -> (r: [Asset; 2])
    requires
        share_ratio(amount as int, total_share as int) <= u128::MAX,
        share_of(pools@[0].amount as int, amount as int, total_share as int) <= u128::MAX,
        share_of(pools@[1].amount as int, amount as int, total_share as int) <= u128::MAX,
    ensures
        r@[0].info == pools@[0].info,
        r@[1].info == pools@[1].info,
        r@[0].amount == share_of(pools@[0].amount as int, amount as int, total_share as int),
        r@[1].amount == share_of(pools@[1].amount as int, amount as int, total_share as int),
{
    let mut ratio = Decimal::zero();
    if total_share != 0 {
        ratio = Decimal::from_ratio(amount, total_share);
    }
    let first = Asset { info: pools[0].info.duplicate(), amount: ratio.mul_floor(pools[0].amount) };
    let second = Asset {
        info: pools[1].info.duplicate(),
        amount: ratio.mul_floor(pools[1].amount),
    };
    [first, second]
}

/// Burning every outstanding share pays out exactly the whole reserve.
pub proof fn lemma_withdraw_all(pool: int, total_share: int)
    requires
        pool >= 0,
        total_share > 0,
    ensures
        share_ratio(total_share, total_share) == DECIMAL_FRACTIONAL,
        share_of(pool, total_share, total_share) == pool,
{
    assert(total_share * DECIMAL_FRACTIONAL / total_share == DECIMAL_FRACTIONAL) by (nonlinear_arith)
        requires
            total_share > 0,
    ;
    assert(pool * DECIMAL_FRACTIONAL / DECIMAL_FRACTIONAL as int == pool) by (nonlinear_arith);
}

/// Which side of the pool `offer` is sold to (0 or 1), and both reserves
/// before the sale, given balances `pools` that already hold the offered
/// amount. An asset the pool does not hold is refused.
pub fn plan_swap(pools: &[Asset; 2], offer: &Asset) -> (r: Result<(usize, [u128; 2]), ContractError>)
    ensures
        ({
            let offered = |i: int|
                if same_asset(pools@[i].info, offer.info) {
                    pools@[i].amount - offer.amount
                } else {
                    pools@[i].amount as int
                };
            if !same_asset(pools@[0].info, offer.info) && !same_asset(pools@[1].info, offer.info) {
                r == Err::<(usize, [u128; 2]), ContractError>(ContractError::AssetMismatch {})
            } else if offered(0) < 0 || offered(1) < 0 {
                r == Err::<(usize, [u128; 2]), ContractError>(ContractError::Overflow {})
            } else {
                &&& r is Ok
                &&& r->Ok_0.0 == (if same_asset(pools@[0].info, offer.info) {
                    0usize
                } else {
                    1usize
                })
                &&& r->Ok_0.1@ == seq![offered(0) as u128, offered(1) as u128]
            }
        }),
{
    let first = pools[0].info.equal(&offer.info);
    let second = pools[1].info.equal(&offer.info);
    if !first && !second {
        return Err(ContractError::AssetMismatch {});
    }
    let mut before = [pools[0].amount, pools[1].amount];
    if first {
        if pools[0].amount < offer.amount {
            return Err(ContractError::Overflow {});
        }
        before[0] = pools[0].amount - offer.amount;
    }
    if second {
        if pools[1].amount < offer.amount {
            return Err(ContractError::Overflow {});
        }
        before[1] = pools[1].amount - offer.amount;
    }
    let side: usize = if first {
        0
    } else {
        1
    };
    Ok((side, before))
}

} // verus!
