use vstd::prelude::*;

use crate::wide::{mul_ratio, ratio_floor};
use crate::error::ContractError;

verus! {

/// Amplification values are stored multiplied by this factor.
pub const AMP_PRECISION: u64 = 100;

/// Largest amplification coefficient, before scaling by [`AMP_PRECISION`].
pub const MAX_AMP: u64 = 1_000_000;

/// Largest factor by which one ramp may raise or lower the amplification.
pub const MAX_AMP_CHANGE: u64 = 10;

/// Shortest time, in seconds, between two ramp starts and of a ramp itself.
pub const MIN_AMP_CHANGING_TIME: u64 = 86400;

/// The smallest amplification, already scaled by [`AMP_PRECISION`].
pub const MINIMUM_AMP: u64 = 100;

/// Number of assets in a pool.
pub const N_COINS: u8 = 2;

/// Iteration cap of both Newton solvers.
pub const ITERATIONS: u32 = 255;

/// `|a - b| <= 1`: the solvers' convergence test.
pub open spec fn close(a: int, b: int) -> bool {
    -1 <= a - b <= 1
}

/// `D^3 / (4 x y)`, computed as `(D^2 / 2x) * D / 2y` with each quotient
/// rounded down and required to fit in a `u128`.
pub open spec fn d_product(d: int, x: int, y: int) -> Option<u128> {
    if 2 * x > u128::MAX || 2 * y > u128::MAX {
        None
    } else {
        match ratio_floor(d, d, 2 * x) {
            Some(t) => ratio_floor(t as int, d, 2 * y),
            None => None,
        }
    }
}

/// One Newton step on the invariant:
/// `D' = (lev*S/AP + 2*D_P) * D / ((lev - AP)*D/AP + 3*D_P)`.
pub open spec fn d_step(leverage: int, x: int, y: int, d: int) -> Option<u128> {
    match d_product(d, x, y) {
        None => None,
        Some(dp) => match (ratio_floor(leverage, x + y, AMP_PRECISION as int), ratio_floor(
            d,
            leverage - AMP_PRECISION,
            AMP_PRECISION as int,
        )) {
            (Some(l1), Some(r1)) => if l1 + 2 * dp > u128::MAX || r1 + 3 * dp > u128::MAX {
                None
            } else {
                ratio_floor(l1 + 2 * dp, d, r1 + 3 * dp)
            },
            _ => None,
        },
    }
}

/// Newton iteration on the invariant from `d`, with `fuel` steps left.
pub open spec fn d_iterate(leverage: int, x: int, y: int, d: int, fuel: nat) -> Result<
    u128,
    ContractError,
>
    decreases fuel,
{
    if fuel == 0 {
        Err(ContractError::NoConvergence {})
    } else {
        match d_step(leverage, x, y, d) {
            None => Err(ContractError::Overflow {}),
            Some(next) => if close(next as int, d) {
                Ok(next)
            } else {
                d_iterate(leverage, x, y, next as int, (fuel - 1) as nat)
            },
        }
    }
}

/// The invariant `D` of reserves `x`, `y` at leverage `amp * N_COINS`: zero
/// when a reserve is empty, else the Newton iteration started at `x + y`.
/// A leverage below one unit of amplification (`AMP_PRECISION`) or a sum that
/// does not fit is refused as an overflow.
pub open spec fn solve_d(leverage: int, x: int, y: int) -> Result<u128, ContractError> {
    if x == 0 || y == 0 {
        Ok(0)
    } else if leverage < AMP_PRECISION || x + y > u128::MAX {
        Err(ContractError::Overflow {})
    } else {
        d_iterate(leverage, x, y, x + y, ITERATIONS as nat)
    }
}

/// One Newton step on the missing balance: `y' = (y^2 + c) / (2y + b - D)`,
/// where `c = c1 * dap / lev2` (see [`solve_y`]). The two parts are rounded
/// down separately, `c / den` as `(c1 * dap / den) / lev2`, which is the
/// same value; each part must fit in a `u128`.
pub open spec fn y_step(c1: int, dap: int, lev2: int, b: int, d: int, y: int) -> Option<u128> {
    let den = 2 * y + b - d;
    if 2 * y + b > u128::MAX || den <= 0 || lev2 == 0 {
        None
    } else {
        match (ratio_floor(y, y, den), ratio_floor(c1, dap, den)) {
            (Some(q), Some(t)) => if q + t as int / lev2 > u128::MAX {
                None
            } else {
                Some((q + t as int / lev2) as u128)
            },
            _ => None,
        }
    }
}

/// Newton iteration on the missing balance from `y`, with `fuel` steps left.
pub open spec fn y_iterate(c1: int, dap: int, lev2: int, b: int, d: int, y: int, fuel: nat) -> Result<
    u128,
    ContractError,
>
    decreases fuel,
{
    if fuel == 0 {
        Err(ContractError::NoConvergence {})
    } else {
        match y_step(c1, dap, lev2, b, d, y) {
            None => Err(ContractError::Overflow {}),
            Some(next) => if close(next as int, y) {
                Ok(next)
            } else {
                y_iterate(c1, dap, lev2, b, d, next as int, (fuel - 1) as nat)
            },
        }
    }
}

/// The other reserve consistent with known reserve `x` and invariant `d`:
/// the Newton iteration started at `d`, with `b = x + D * AP / lev` and
/// `c = D^3 * AP / (4 x lev)`, the latter carried as `c1 = D^2 / 2x`,
/// `dap = D * AP` and `lev2 = 2 lev`.
pub open spec fn solve_y(leverage: int, x: int, d: int) -> Result<u128, ContractError> {
    if x == 0 || leverage == 0 {
        Err(ContractError::DivideByZero {})
    } else if 2 * x > u128::MAX || d * AMP_PRECISION > u128::MAX {
        Err(ContractError::Overflow {})
    } else {
        match (ratio_floor(d, d, 2 * x), ratio_floor(d, AMP_PRECISION as int, leverage)) {
            (Some(c1), Some(e)) => if x + e > u128::MAX {
                Err(ContractError::Overflow {})
            } else {
                y_iterate(
                    c1 as int,
                    d * AMP_PRECISION,
                    2 * leverage,
                    x + e,
                    d,
                    d,
                    ITERATIONS as nat,
                )
            },
            _ => Err(ContractError::Overflow {}),
        }
    }
}

fn d_step_exec(leverage: u64, x: u128, y: u128, d: u128) -> (r: Option<u128>)
    requires
        leverage >= AMP_PRECISION,
    ensures
        r == d_step(leverage as int, x as int, y as int, d as int),
{
    if x > u128::MAX / 2 || y > u128::MAX / 2 {
        return None;
    }
    let dp = match mul_ratio(d, d, 2 * x) {
        Some(t) => match mul_ratio(t, d, 2 * y) {
            Some(v) => v,
            None => return None,
        },
        None => return None,
    };
    let l1 = match mul_ratio(leverage as u128, x + y, AMP_PRECISION as u128) {
        Some(v) => v,
        None => return None,
    };
    let r1 = match mul_ratio(d, (leverage - AMP_PRECISION) as u128, AMP_PRECISION as u128) {
        Some(v) => v,
        None => return None,
    };
    if dp > (u128::MAX - l1) / 2 || dp > (u128::MAX - r1) / 3 {
        return None;
    }
    mul_ratio(l1 + 2 * dp, d, r1 + 3 * dp)
}

/// Computes the invariant `D` of reserves `x` and `y` at `leverage`
/// (`amp * N_COINS`, amp scaled by `AMP_PRECISION`).
pub fn compute_d(leverage: u64, x: u128, y: u128) -> (r: Result<u128, ContractError>)
    ensures
        r == solve_d(leverage as int, x as int, y as int),
{
    if x == 0 || y == 0 {
        return Ok(0);
    }
    if leverage < AMP_PRECISION || x > u128::MAX - y {
        return Err(ContractError::Overflow {});
    }
    let s = x + y;
    let mut d = s;
    let mut i: u32 = 0;
    while i < ITERATIONS
        invariant
            leverage >= AMP_PRECISION,
            x > 0,
            y > 0,
            x + y <= u128::MAX,
            i <= ITERATIONS,
            d_iterate(leverage as int, x as int, y as int, d as int, (ITERATIONS - i) as nat)
                == solve_d(leverage as int, x as int, y as int),
        decreases ITERATIONS - i,
    {
        let next = match d_step_exec(leverage, x, y, d) {
            Some(v) => v,
            None => return Err(ContractError::Overflow {}),
        };
        if (next >= d && next - d <= 1) || (next < d && d - next <= 1) {
            return Ok(next);
        }
        d = next;
        i = i + 1;
    }
    Err(ContractError::NoConvergence {})
}

fn y_step_exec(c1: u128, dap: u128, lev2: u128, b: u128, d: u128, y: u128) -> (r: Option<u128>)
    ensures
        r == y_step(c1 as int, dap as int, lev2 as int, b as int, d as int, y as int),
{
    if y > (u128::MAX - b) / 2 || lev2 == 0 {
        return None;
    }
    let twice_plus_b = 2 * y + b;
    if twice_plus_b <= d {
        return None;
    }
    let den = twice_plus_b - d;
    match (mul_ratio(y, y, den), mul_ratio(c1, dap, den)) {
        (Some(q), Some(t)) => if q > u128::MAX - t / lev2 {
            None
        } else {
            Some(q + t / lev2)
        },
        _ => None,
    }
}

/// Computes the reserve that, beside the known reserve `x`, keeps the
/// invariant at `d` for `leverage` (`amp * N_COINS`).
pub fn calc_y(leverage: u64, x: u128, d: u128) -> (r: Result<u128, ContractError>)
    ensures
        r == solve_y(leverage as int, x as int, d as int),
{
    if x == 0 || leverage == 0 {
        return Err(ContractError::DivideByZero {});
    }
    if x > u128::MAX / 2 || d > u128::MAX / (AMP_PRECISION as u128) {
        return Err(ContractError::Overflow {});
    }
    let c1 = match mul_ratio(d, d, 2 * x) {
        Some(v) => v,
        None => return Err(ContractError::Overflow {}),
    };
    let e = match mul_ratio(d, AMP_PRECISION as u128, leverage as u128) {
        Some(v) => v,
        None => return Err(ContractError::Overflow {}),
    };
    if x > u128::MAX - e {
        return Err(ContractError::Overflow {});
    }
    let dap = d * (AMP_PRECISION as u128);
    let lev2 = 2 * (leverage as u128);
    let b = x + e;
    let mut y = d;
    let mut i: u32 = 0;
    while i < ITERATIONS
        invariant
            i <= ITERATIONS,
            y_iterate(
                c1 as int,
                dap as int,
                lev2 as int,
                b as int,
                d as int,
                y as int,
                (ITERATIONS - i) as nat,
            ) == solve_y(leverage as int, x as int, d as int),
        decreases ITERATIONS - i,
    {
        let next = match y_step_exec(c1, dap, lev2, b, d, y) {
            Some(v) => v,
            None => return Err(ContractError::Overflow {}),
        };
        if (next >= y && next - y <= 1) || (next < y && y - next <= 1) {
            return Ok(next);
        }
        y = next;
        i = i + 1;
    }
    Err(ContractError::NoConvergence {})
}

/// The invariant of a balanced pool is the sum of its reserves: the Newton
/// iteration from `2x` stays there.
pub proof fn lemma_balanced_invariant(leverage: int, x: int)
    requires
        AMP_PRECISION <= leverage,
        0 < x,
        2 * x * leverage / AMP_PRECISION as int + 4 * x <= u128::MAX,
    ensures
        solve_d(leverage, x, x) == Ok::<u128, ContractError>((2 * x) as u128),
{
    let ap = AMP_PRECISION as int;
    let d = 2 * x;
    assert(d * d / (2 * x) == d) by (nonlinear_arith)
        requires
            d == 2 * x,
            x > 0,
    ;
    assert(d * leverage / ap >= d) by (nonlinear_arith)
        requires
            d > 0,
            leverage >= ap,
            ap == 100,
    ;
    assert(d * (leverage - ap) / ap == d * leverage / ap - d) by (nonlinear_arith)
        requires
            ap == 100,
            d > 0,
    ;
    assert(leverage * (x + x) == d * leverage) by (nonlinear_arith)
        requires
            d == 2 * x,
    ;
    let l1 = d * leverage / ap;
    assert((l1 + 2 * d) * d / (l1 + 2 * d) == d) by (nonlinear_arith)
        requires
            l1 + 2 * d > 0,
    ;
    assert(d_product(d, x, x) == Some(d as u128));
    assert(d_step(leverage, x, x, d) == Some(d as u128));
    reveal_with_fuel(d_iterate, 2);
}

/// `amp * N_COINS`, when it fits in a `u64`.
pub open spec fn leverage_of(amp: int) -> Option<u64> {
    if amp * N_COINS > u64::MAX {
        None
    } else {
        Some((amp * N_COINS) as u64)
    }
}

/// What a pool with reserves `offer_pool` and `ask_pool` pays out for
/// `offer_amount`: the drop of the ask reserve that keeps the invariant.
pub open spec fn ask_amount(offer_pool: int, ask_pool: int, offer_amount: int, amp: int) -> Result<
    u128,
    ContractError,
> {
    match leverage_of(amp) {
        None => Err(ContractError::Overflow {}),
        Some(leverage) => if offer_pool + offer_amount > u128::MAX {
            Err(ContractError::Overflow {})
        } else {
            match solve_d(leverage as int, offer_pool, ask_pool) {
                Err(e) => Err(e),
                Ok(d) => match solve_y(leverage as int, offer_pool + offer_amount, d as int) {
                    Err(e) => Err(e),
                    Ok(new_ask) => if new_ask > ask_pool {
                        Err(ContractError::Overflow {})
                    } else {
                        Ok((ask_pool - new_ask) as u128)
                    },
                },
            }
        },
    }
}

/// What must be offered to a pool with reserves `offer_pool` and `ask_pool`
/// to take `ask_amount` out of it: the rise of the offer reserve that keeps
/// the invariant.
pub open spec fn offer_amount(offer_pool: int, ask_pool: int, ask_amount: int, amp: int) -> Result<
    u128,
    ContractError,
> {
    match leverage_of(amp) {
        None => Err(ContractError::Overflow {}),
        Some(leverage) => if ask_amount > ask_pool {
            Err(ContractError::Overflow {})
        } else {
            match solve_d(leverage as int, offer_pool, ask_pool) {
                Err(e) => Err(e),
                Ok(d) => match solve_y(leverage as int, ask_pool - ask_amount, d as int) {
                    Err(e) => Err(e),
                    Ok(new_offer) => if new_offer < offer_pool {
                        Err(ContractError::Overflow {})
                    } else {
                        Ok((new_offer - offer_pool) as u128)
                    },
                },
            }
        },
    }
}

/// The amount of the ask asset that `offer_amount` of the offer asset buys.
pub fn calc_ask_amount(offer_pool: u128, ask_pool: u128, offer_amount: u128, amp: u64) -> (r: Result<
    u128,
    ContractError,
>)
    ensures
        r == ask_amount(offer_pool as int, ask_pool as int, offer_amount as int, amp as int),
{
    if amp > u64::MAX / 2 {
        return Err(ContractError::Overflow {});
    }
    let leverage = amp * 2;
    if offer_pool > u128::MAX - offer_amount {
        return Err(ContractError::Overflow {});
    }
    let d = compute_d(leverage, offer_pool, ask_pool)?;
    let new_ask = calc_y(leverage, offer_pool + offer_amount, d)?;
    if new_ask > ask_pool {
        return Err(ContractError::Overflow {});
    }
    Ok(ask_pool - new_ask)
}

/// The amount of the offer asset needed to buy `ask_amount` of the ask asset.
pub fn calc_offer_amount(offer_pool: u128, ask_pool: u128, ask_amount: u128, amp: u64) -> (r: Result<
    u128,
    ContractError,
>)
    ensures
        r == offer_amount(offer_pool as int, ask_pool as int, ask_amount as int, amp as int),
{
    if amp > u64::MAX / 2 {
        return Err(ContractError::Overflow {});
    }
    let leverage = amp * 2;
    if ask_amount > ask_pool {
        return Err(ContractError::Overflow {});
    }
    let d = compute_d(leverage, offer_pool, ask_pool)?;
    let new_offer = calc_y(leverage, ask_pool - ask_amount, d)?;
    if new_offer < offer_pool {
        return Err(ContractError::Overflow {});
    }
    Ok(new_offer - offer_pool)
}

} // verus!
