use vstd::prelude::*;

use crate::error::ContractError;
use crate::math::{compute_d, lemma_balanced_invariant, leverage_of, solve_d, AMP_PRECISION, MINIMUM_AMP};
use crate::utils::{adjust_precision, adjusted};
use crate::wide::{mul_ratio, ratio_floor, sqrt_of_product};

verus! {

/// `a * n / d` rounded up, when `d` is non-zero and the result fits.
pub open spec fn ratio_ceil(a: int, n: int, d: int) -> Option<u128> {
    if d == 0 || (a * n + d - 1) / d > u128::MAX {
        None
    } else {
        Some(((a * n + d - 1) / d) as u128)
    }
}

proof fn lemma_wrapping_remainder(x: int, y: int)
    requires
        x >= 0,
        y >= 0,
        0 <= x - y < 0x1_0000_0000_0000_0000_0000_0000_0000_0000,
    ensures
        ({
            let m = 0x1_0000_0000_0000_0000_0000_0000_0000_0000int;
            let xm = x % m;
            let ym = y % m;
            (if xm - ym < 0 {
                xm - ym + m
            } else {
                xm - ym
            }) == x - y
        }),
{
    let m = 0x1_0000_0000_0000_0000_0000_0000_0000_0000int;
    vstd::arithmetic::div_mod::lemma_fundamental_div_mod(x, m);
    vstd::arithmetic::div_mod::lemma_fundamental_div_mod(y, m);
    vstd::arithmetic::div_mod::lemma_mod_pos_bound(x, m);
    vstd::arithmetic::div_mod::lemma_mod_pos_bound(y, m);
    let kx = x / m;
    let ky = y / m;
    assert(x - y == m * (kx - ky) + (x % m - y % m)) by (nonlinear_arith)
        requires
            x == m * kx + x % m,
            y == m * ky + y % m,
    ;
    if x % m - y % m < 0 {
        assert(kx - ky == 1) by (nonlinear_arith)
            requires
                x - y == m * (kx - ky) + (x % m - y % m),
                0 <= x - y < m,
                -m < x % m - y % m < 0,
                m > 0,
        ;
    } else {
        assert(kx - ky == 0) by (nonlinear_arith)
            requires
                x - y == m * (kx - ky) + (x % m - y % m),
                0 <= x - y < m,
                0 <= x % m - y % m < m,
                m > 0,
        ;
    }
}

/// `a * n / d` rounded up; `None` when `d` is zero or the result does not fit.
fn ceil_ratio(a: u128, n: u128, d: u128) -> (r: Option<u128>)
    ensures
        r == ratio_ceil(a as int, n as int, d as int),
{
    let q = match mul_ratio(a, n, d) {
        Some(q) => q,
        None => {
            proof {
                if d != 0 {
                    let (x, dd) = ((a * n) as int, d as int);
                    assert((x + dd - 1) / dd >= x / dd) by (nonlinear_arith)
                        requires
                            dd > 0,
                            x >= 0,
                    ;
                }
            }
            return None;
        },
    };
    let rem = a.wrapping_mul(n).wrapping_sub(q.wrapping_mul(d));
    proof {
        let x = (a * n) as int;
        let y = (q * d) as int;
        let dd = d as int;
        vstd::arithmetic::div_mod::lemma_fundamental_div_mod(x, dd);
        vstd::arithmetic::div_mod::lemma_mod_pos_bound(x, dd);
        assert(q == x / dd);
        assert(x - y == x % dd) by (nonlinear_arith)
            requires
                x == dd * (x / dd) + x % dd,
                q == x / dd,
                y == q * dd,
        ;
        assert(0 <= x - y < dd);
        lemma_wrapping_remainder(x, y);
        assert(rem == x - y);
        if rem == 0 {
            assert((x + dd - 1) / dd == q) by (nonlinear_arith)
                requires
                    x == q * dd,
                    dd > 0,
            ;
        } else {
            assert((x + dd - 1) / dd == q + 1) by (nonlinear_arith)
                requires
                    x == q * dd + rem,
                    0 < rem < dd,
            ;
        }
    }
    if rem == 0 {
        Some(q)
    } else if q == u128::MAX {
        None
    } else {
        Some(q + 1)
    }
}

/// `r` is the integer square root of `n`.
pub open spec fn is_isqrt(r: int, n: int) -> bool {
    r >= 0 && r * r <= n < (r + 1) * (r + 1)
}

/// The integer square root of `n >= 0`: the largest `r` with `r * r <= n`.
pub open spec fn isqrt(n: int) -> int {
    choose|r: int| is_isqrt(r, n)
}

proof fn lemma_isqrt_unique(r: int, n: int)
    requires
        is_isqrt(r, n),
    ensures
        isqrt(n) == r,
{
    let s = isqrt(n);
    assert(is_isqrt(s, n));
    if s < r {
        assert((s + 1) * (s + 1) <= r * r) by (nonlinear_arith)
            requires
                0 <= s < r,
        ;
    } else if s > r {
        assert((r + 1) * (r + 1) <= s * s) by (nonlinear_arith)
            requires
                0 <= r < s,
        ;
    }
}

/// The first deposit of equal normalised amounts `a` mints `a` shares, when
/// shares carry the same precision.
pub proof fn lemma_first_deposit_equal_amounts(a: int, g: int, amp: int)
    requires
        a > 0,
    ensures
        minted_shares(a, a, 0, 0, g, g, 0, amp) == Ok::<u128, ContractError>(a as u128),
{
    assert(a * a < (a + 1) * (a + 1)) by (nonlinear_arith)
        requires
            a > 0,
    ;
    lemma_isqrt_unique(a, a * a);
}

/// A deposit of `a` of each asset into a balanced pool holding `x` of each
/// mints shares in proportion: `s * a / x` for a supply of `s`, since the
/// invariant of a balanced pool is the sum of its reserves.
pub proof fn lemma_proportional_deposit(x: int, a: int, s: int, g: int, lp_precision: int, amp: int)
    requires
        0 < x,
        0 < a,
        0 < s,
        leverage_of(amp) is Some,
        AMP_PRECISION <= leverage_of(amp)->Some_0,
        2 * (x + a) * leverage_of(amp)->Some_0 / AMP_PRECISION as int + 4 * (x + a) <= u128::MAX,
        s * a / x <= u128::MAX,
    ensures
        minted_shares(a, a, x, x, g, lp_precision, s, amp) == Ok::<u128, ContractError>(
            (s * a / x) as u128,
        ),
{
    let lev = leverage_of(amp)->Some_0 as int;
    let ap = AMP_PRECISION as int;
    assert(2 * x * lev / ap + 4 * x <= 2 * (x + a) * lev / ap + 4 * (x + a)) by (nonlinear_arith)
        requires
            0 < x,
            0 < a,
            lev >= 0,
            ap == 100,
    ;
    lemma_balanced_invariant(lev, x);
    lemma_balanced_invariant(lev, x + a);
    assert(s * (2 * (x + a) - 2 * x) / (2 * x) == s * a / x) by (nonlinear_arith)
        requires
            x > 0,
    ;
}

/// What a deposit into the pool comes to.
#[derive(Debug, Clone, Copy, PartialEq, Eq)]
pub struct ProvideOutcome {
    /// The deposits taken, after the ratio cap at minimum amplification.
    pub deposits: [u128; 2],
    /// The reserves before the deposit.
    pub pools: [u128; 2],
    /// Pool shares minted for the deposit.
    pub share: u128,
}

/// The reserve before a deposit of `deposit`, from a balance that holds it
/// already when `pre_applied`.
pub open spec fn reserve_before(deposit: int, balance: int, pre_applied: bool) -> Option<u128> {
    if deposit != 0 && pre_applied {
        if deposit > balance {
            None
        } else {
            Some((balance - deposit) as u128)
        }
    } else {
        Some(balance as u128)
    }
}

/// The deposits after the ratio cap that applies at minimum amplification
/// with both reserves non-zero: the second deposit is lowered to what the
/// first one implies at the reserve ratio (rounded up), or else the first to
/// what the second implies.
pub open spec fn capped_deposits(d0: int, d1: int, pool0: int, pool1: int, amp: int) -> Option<
    (u128, u128),
> {
    if amp == MINIMUM_AMP && pool0 != 0 && pool1 != 0 {
        match (ratio_ceil(pool1, d0, pool0), ratio_ceil(pool0, d1, pool1)) {
            (Some(opt1), Some(opt0)) => if d1 > opt1 {
                Some((d0 as u128, opt1))
            } else if d0 > opt0 {
                Some((opt0, d1 as u128))
            } else {
                Some((d0 as u128, d1 as u128))
            },
            _ => None,
        }
    } else {
        Some((d0 as u128, d1 as u128))
    }
}

/// Shares minted for normalised deposits `dep0`, `dep1` into normalised
/// reserves `pool0`, `pool1`: the square root of the deposits' product for
/// the first deposit, else the supply scaled by the relative growth of the
/// invariant.
pub open spec fn minted_shares(
    dep0: int,
    dep1: int,
    pool0: int,
    pool1: int,
    g: int,
    lp_precision: int,
    total_supply: int,
    amp: int,
) -> Result<u128, ContractError> {
    if total_supply == 0 {
        adjusted(isqrt(dep0 * dep1), g, lp_precision)
    } else {
        match leverage_of(amp) {
            None => Err(ContractError::Overflow {}),
            Some(leverage) => match solve_d(leverage as int, pool0, pool1) {
                Err(e) => Err(e),
                Ok(d_before) => if pool0 + dep0 > u128::MAX || pool1 + dep1 > u128::MAX {
                    Err(ContractError::Overflow {})
                } else {
                    match solve_d(leverage as int, pool0 + dep0, pool1 + dep1) {
                        Err(e) => Err(e),
                        Ok(d_after) => if d_before >= d_after {
                            Err(ContractError::LiquidityAmountTooSmall {})
                        } else if d_before == 0 {
                            Err(ContractError::DivideByZero {})
                        } else {
                            match ratio_floor(total_supply, d_after - d_before, d_before as int) {
                                None => Err(ContractError::Overflow {}),
                                Some(v) => Ok(v),
                            }
                        },
                    }
                },
            },
        }
    }
}

/// The outcome of depositing `d0`, `d1` into a pool whose balances are `b0`,
/// `b1` (`n0`, `n1`: the balance already holds the deposit), with asset
/// precisions `p0`, `p1`, share precision `lp_precision`, share supply
/// `total_supply` and amplification `amp`: (deposits taken, reserves before
/// the deposit, shares minted).
pub open spec fn provided(
    d0: u128,
    d1: u128,
    b0: u128,
    b1: u128,
    n0: bool,
    n1: bool,
    p0: u8,
    p1: u8,
    lp_precision: u8,
    total_supply: u128,
    amp: u64,
) -> Result<(u128, u128, u128, u128, u128), ContractError> {
    if d0 == 0 && d1 == 0 {
        Err(ContractError::InvalidZeroAmount {})
    } else if d0 == 0 && b0 == 0 {
        Err(ContractError::InvalidProvideLPsWithSingleToken {})
    } else {
        match reserve_before(d0 as int, b0 as int, n0) {
            None => Err(ContractError::Overflow {}),
            Some(pool0) => if d1 == 0 && b1 == 0 {
                Err(ContractError::InvalidProvideLPsWithSingleToken {})
            } else {
                match reserve_before(d1 as int, b1 as int, n1) {
                    None => Err(ContractError::Overflow {}),
                    Some(pool1) => match capped_deposits(
                        d0 as int,
                        d1 as int,
                        pool0 as int,
                        pool1 as int,
                        amp as int,
                    ) {
                        None => Err(ContractError::Overflow {}),
                        Some((c0, c1)) => {
                            let g = if p0 >= p1 {
                                p0
                            } else {
                                p1
                            };
                            match (
                                adjusted(c0 as int, p0 as int, g as int),
                                adjusted(c1 as int, p1 as int, g as int),
                            ) {
                                (Ok(dep0), Ok(dep1)) => {
                                    let normalised = if total_supply == 0 {
                                        Ok((0u128, 0u128))
                                    } else {
                                        match (
                                            adjusted(pool0 as int, p0 as int, g as int),
                                            adjusted(pool1 as int, p1 as int, g as int),
                                        ) {
                                            (Ok(a0), Ok(a1)) => Ok((a0, a1)),
                                            _ => Err(ContractError::Overflow {}),
                                        }
                                    };
                                    match normalised {
                                        Err(e) => Err(e),
                                        Ok((a0, a1)) => match minted_shares(
                                            dep0 as int,
                                            dep1 as int,
                                            a0 as int,
                                            a1 as int,
                                            g as int,
                                            lp_precision as int,
                                            total_supply as int,
                                            amp as int,
                                        ) {
                                            Err(e) => Err(e),
                                            Ok(share) => if share == 0 {
                                                Err(ContractError::LiquidityAmountTooSmall {})
                                            } else {
                                                Ok((c0, c1, pool0, pool1, share))
                                            },
                                        },
                                    }
                                },
                                _ => Err(ContractError::Overflow {}),
                            }
                        },
                    },
                }
            },
        }
    }
}

/// Computes what a deposit of `deposits` into the pool comes to. `balances`
/// are the pool's balances, of which those marked in `pre_applied` already
/// hold the deposit (native coins arrive with the message).
#[verifier::rlimit(40)]
pub fn compute_provide_liquidity(
    deposits: [u128; 2],
    balances: [u128; 2],
    pre_applied: [bool; 2],
    precisions: [u8; 2],
    lp_precision: u8,
    total_supply: u128,
    amp: u64,
) -> (r: Result<ProvideOutcome, ContractError>)
    ensures
        match provided(
            deposits@[0],
            deposits@[1],
            balances@[0],
            balances@[1],
            pre_applied@[0],
            pre_applied@[1],
            precisions@[0],
            precisions@[1],
            lp_precision,
            total_supply,
            amp,
        ) {
            Ok(t) => r is Ok && r->Ok_0.deposits@ == seq![t.0, t.1] && r->Ok_0.pools@ == seq![
                t.2,
                t.3,
            ] && r->Ok_0.share == t.4,
            Err(e) => r == Err::<ProvideOutcome, ContractError>(e),
        },
{
    let d0 = deposits[0];
    let d1 = deposits[1];
    if d0 == 0 && d1 == 0 {
        return Err(ContractError::InvalidZeroAmount {});
    }
    if d0 == 0 && balances[0] == 0 {
        return Err(ContractError::InvalidProvideLPsWithSingleToken {});
    }
    let mut pool0 = balances[0];
    if d0 != 0 && pre_applied[0] {
        if d0 > pool0 {
            return Err(ContractError::Overflow {});
        }
        pool0 = pool0 - d0;
    }
    if d1 == 0 && balances[1] == 0 {
        return Err(ContractError::InvalidProvideLPsWithSingleToken {});
    }
    let mut pool1 = balances[1];
    if d1 != 0 && pre_applied[1] {
        if d1 > pool1 {
            return Err(ContractError::Overflow {});
        }
        pool1 = pool1 - d1;
    }
    let mut c0 = d0;
    let mut c1 = d1;
    if amp == MINIMUM_AMP && pool0 != 0 && pool1 != 0 {
        let opt1 = ceil_ratio(pool1, d0, pool0);
        let opt0 = ceil_ratio(pool0, d1, pool1);
        match (opt1, opt0) {
            (Some(o1), Some(o0)) => {
                if d1 > o1 {
                    c1 = o1;
                } else if d0 > o0 {
                    c0 = o0;
                }
            },
            _ => return Err(ContractError::Overflow {}),
        }
    }
    let g = if precisions[0] >= precisions[1] {
        precisions[0]
    } else {
        precisions[1]
    };
    let dep0 = adjust_precision(c0, precisions[0], g)?;
    let dep1 = adjust_precision(c1, precisions[1], g)?;
    let share = if total_supply == 0 {
        let root = sqrt_of_product(dep0, dep1);
        proof {
            lemma_isqrt_unique(root as int, dep0 * dep1);
        }
        adjust_precision(root, g, lp_precision)?
    } else {
        let a0 = adjust_precision(pool0, precisions[0], g)?;
        let a1 = adjust_precision(pool1, precisions[1], g)?;
        if amp > u64::MAX / 2 {
            return Err(ContractError::Overflow {});
        }
        let leverage = amp * 2;
        let d_before = compute_d(leverage, a0, a1)?;
        if a0 > u128::MAX - dep0 || a1 > u128::MAX - dep1 {
            return Err(ContractError::Overflow {});
        }
        let d_after = compute_d(leverage, a0 + dep0, a1 + dep1)?;
        if d_before >= d_after {
            return Err(ContractError::LiquidityAmountTooSmall {});
        }
        if d_before == 0 {
            return Err(ContractError::DivideByZero {});
        }
        match mul_ratio(total_supply, d_after - d_before, d_before) {
            Some(v) => v,
            None => return Err(ContractError::Overflow {}),
        }
    };
    if share == 0 {
        return Err(ContractError::LiquidityAmountTooSmall {});
    }
    Ok(ProvideOutcome { deposits: [c0, c1], pools: [pool0, pool1], share })
}

} // verus!
