use vstd::prelude::*;

use crate::error::ContractError;
use crate::math::{ask_amount, calc_ask_amount};
use crate::ramp::{compute_current_amp, current_amp};
use crate::state::Config;
use crate::utils::{adjust_precision, adjusted, scaled_down};

verus! {

/// Decimal places of the cumulative prices.
pub const TWAP_PRECISION: u8 = 6;

/// The greatest of two precisions and `TWAP_PRECISION`.
pub open spec fn twap_precision_of(a: u8, b: u8) -> u8 {
    let m = if a >= b {
        a
    } else {
        b
    };
    if m >= TWAP_PRECISION {
        m
    } else {
        TWAP_PRECISION
    }
}

/// `elapsed` times the price of one whole unit of the offer side, in
/// `TWAP_PRECISION` decimal places, given reserves normalised to `g` places.
pub open spec fn price_increment(
    offer: int,
    ask: int,
    unit: int,
    amp: int,
    elapsed: int,
    g: int,
) -> Result<u128, ContractError> {
    match ask_amount(offer, ask, unit, amp) {
        Err(e) => Err(e),
        Ok(price) => if elapsed * price > u128::MAX {
            Err(ContractError::Overflow {})
        } else {
            Ok(scaled_down(elapsed * price, g, TWAP_PRECISION as int))
        },
    }
}

/// The new cumulative prices and time after the pool sat at reserves `x`
/// and `y` from `block_time_last` to `now`; `None` when `now` is not later
/// than the last accumulation. Prices advance only while both reserves are
/// non-zero, and wrap around on overflow.
pub open spec fn accumulated(
    c: Config,
    now: u64,
    x: u128,
    x_precision: u8,
    y: u128,
    y_precision: u8,
) -> Result<Option<(u128, u128, u64)>, ContractError> {
    if now <= c.block_time_last {
        Ok(None)
    } else {
        let g = twap_precision_of(x_precision, y_precision);
        match (
            adjusted(x as int, x_precision as int, g as int),
            adjusted(y as int, y_precision as int, g as int),
        ) {
            (Ok(nx), Ok(ny)) => {
                let elapsed = now - c.block_time_last;
                if nx != 0 && ny != 0 {
                    match (current_amp(c, now as int), adjusted(1, 0, g as int)) {
                        (Err(e), _) => Err(e),
                        (Ok(_), Err(e)) => Err(e),
                        (Ok(amp), Ok(unit)) => match price_increment(
                            nx as int,
                            ny as int,
                            unit as int,
                            amp as int,
                            elapsed,
                            g as int,
                        ) {
                            Err(e) => Err(e),
                            Ok(d0) => match price_increment(
                                ny as int,
                                nx as int,
                                unit as int,
                                amp as int,
                                elapsed,
                                g as int,
                            ) {
                                Err(e) => Err(e),
                                Ok(d1) => Ok(
                                    Some(
                                        (
                                            vstd::wrapping::u128_specs::wrapping_add(
                                                c.price0_cumulative_last,
                                                d0,
                                            ),
                                            vstd::wrapping::u128_specs::wrapping_add(
                                                c.price1_cumulative_last,
                                                d1,
                                            ),
                                            now,
                                        ),
                                    ),
                                ),
                            },
                        },
                    }
                } else {
                    Ok(Some((c.price0_cumulative_last, c.price1_cumulative_last, now)))
                }
            },
            _ => Err(ContractError::Overflow {}),
        }
    }
}

fn price_increment_exec(offer: u128, ask: u128, unit: u128, amp: u64, elapsed: u128, g: u8) -> (r:
    Result<u128, ContractError>)
    requires
        g >= TWAP_PRECISION,
    ensures
        r == price_increment(
            offer as int,
            ask as int,
            unit as int,
            amp as int,
            elapsed as int,
            g as int,
        ),
{
    let price = calc_ask_amount(offer, ask, unit, amp)?;
    match elapsed.checked_mul(price) {
        None => Err(ContractError::Overflow {}),
        Some(total) => {
            proof {
                crate::utils::lemma_adjust_down(total, g, TWAP_PRECISION);
            }
            adjust_precision(total, g, TWAP_PRECISION)
        },
    }
}

/// Advances the time-weighted cumulative prices to `now`, given the reserves
/// held since the last accumulation. Returns the new cumulative prices and
/// time, or `None` when `now` is not later than the last accumulation.
pub fn accumulate_prices(
    now: u64,
    config: &Config,
    x: u128,
    x_precision: u8,
    y: u128,
    y_precision: u8,
) -> (r: Result<Option<(u128, u128, u64)>, ContractError>)
    ensures
        r == accumulated(*config, now, x, x_precision, y, y_precision),
{
    if now <= config.block_time_last {
        return Ok(None);
    }
    let m = if x_precision >= y_precision {
        x_precision
    } else {
        y_precision
    };
    let g = if m >= TWAP_PRECISION {
        m
    } else {
        TWAP_PRECISION
    };
    let nx = adjust_precision(x, x_precision, g)?;
    let ny = adjust_precision(y, y_precision, g)?;
    let elapsed = (now - config.block_time_last) as u128;
    let mut p0 = config.price0_cumulative_last;
    let mut p1 = config.price1_cumulative_last;
    if nx != 0 && ny != 0 {
        let amp = compute_current_amp(config, now)?;
        let unit = adjust_precision(1, 0, g)?;
        let d0 = price_increment_exec(nx, ny, unit, amp, elapsed, g)?;
        let d1 = price_increment_exec(ny, nx, unit, amp, elapsed, g)?;
        p0 = p0.wrapping_add(d0);
        p1 = p1.wrapping_add(d1);
    }
    Ok(Some((p0, p1, now)))
}

/// The state after an accumulation has been stored.
pub open spec fn with_prices(c: Config, prices: (u128, u128, u64)) -> Config {
    Config {
        price0_cumulative_last: prices.0,
        price1_cumulative_last: prices.1,
        block_time_last: prices.2,
        ..c
    }
}

/// Once an accumulation at `now` is stored, another at the same `now` changes
/// nothing, whatever the reserves.
pub proof fn lemma_accumulate_idempotent_in_block(
    c: Config,
    now: u64,
    x: u128,
    x_precision: u8,
    y: u128,
    y_precision: u8,
    x2: u128,
    x2_precision: u8,
    y2: u128,
    y2_precision: u8,
)
    requires
        accumulated(c, now, x, x_precision, y, y_precision) is Ok,
    ensures
        ({
            let c2 = match accumulated(c, now, x, x_precision, y, y_precision)->Ok_0 {
                Some(p) => with_prices(c, p),
                None => c,
            };
            accumulated(c2, now, x2, x2_precision, y2, y2_precision) == Ok::<
                Option<(u128, u128, u64)>,
                ContractError,
            >(None)
        }),
{
}

} // verus!
