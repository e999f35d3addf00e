use vstd::prelude::*;

use crate::error::ContractError;
use crate::math::{AMP_PRECISION, MAX_AMP, MAX_AMP_CHANGE, MIN_AMP_CHANGING_TIME};
use crate::state::Config;

verus! {

/// The amplification in force at time `now`: the ramp's target once its end
/// time is reached, else the linear interpolation between its two ends,
/// rounded toward the start value. Times before the ramp's start are refused.
pub open spec fn current_amp(c: Config, now: int) -> Result<u64, ContractError> {
    if now < c.next_amp_time {
        if now < c.init_amp_time {
            Err(ContractError::Overflow {})
        } else {
            let elapsed = now - c.init_amp_time;
            let range = c.next_amp_time - c.init_amp_time;
            if c.next_amp > c.init_amp {
                Ok((c.init_amp + (c.next_amp - c.init_amp) * elapsed / range) as u64)
            } else {
                Ok((c.init_amp - (c.init_amp - c.next_amp) * elapsed / range) as u64)
            }
        }
    } else {
        Ok(c.next_amp)
    }
}

/// The state after a ramp toward `next_amp` (unscaled), to be reached at
/// `next_amp_time`, is started at `now`; or the reason it is refused.
pub open spec fn ramp_started(c: Config, now: int, next_amp: int, next_amp_time: int) -> Result<
    Config,
    ContractError,
> {
    if next_amp == 0 || next_amp > MAX_AMP {
        Err(ContractError::IncorrectAmp {})
    } else {
        match current_amp(c, now) {
            Err(e) => Err(e),
            Ok(cur) => {
                let scaled = next_amp * AMP_PRECISION;
                if scaled * MAX_AMP_CHANGE < cur || scaled > cur * MAX_AMP_CHANGE {
                    Err(ContractError::MaxAmpChangeAssertion {})
                } else if now < c.init_amp_time + MIN_AMP_CHANGING_TIME || next_amp_time < now
                    + MIN_AMP_CHANGING_TIME {
                    Err(ContractError::MinAmpChangingTimeAssertion {})
                } else {
                    Ok(
                        Config {
                            init_amp: cur,
                            next_amp: scaled as u64,
                            init_amp_time: now as u64,
                            next_amp_time: next_amp_time as u64,
                            ..c
                        },
                    )
                }
            },
        }
    }
}

/// The state after the ramp is frozen at `now` at the amplification then in
/// force; or the reason it cannot be.
pub open spec fn ramp_stopped(c: Config, now: int) -> Result<Config, ContractError> {
    match current_amp(c, now) {
        Err(e) => Err(e),
        Ok(cur) => Ok(
            Config {
                init_amp: cur,
                next_amp: cur,
                init_amp_time: now as u64,
                next_amp_time: now as u64,
                ..c
            },
        ),
    }
}

proof fn lemma_scaled_part(a: int, e: int, r: int)
    requires
        a >= 0,
        0 <= e < r,
    ensures
        0 <= a * e / r <= a,
{
    assert(a * e <= a * r) by (nonlinear_arith)
        requires
            a >= 0,
            0 <= e < r,
    ;
    assert(0 <= a * e / r <= a * r / r) by (nonlinear_arith)
        requires
            0 <= a * e <= a * r,
            r > 0,
    ;
    assert(a * r / r == a) by (nonlinear_arith)
        requires
            r > 0,
    ;
}

/// The amplification in force at `now`, scaled by `AMP_PRECISION`.
pub fn compute_current_amp(config: &Config, now: u64) -> (r: Result<u64, ContractError>)
    ensures
        r == current_amp(*config, now as int),
        r is Ok ==> {
            ||| config.init_amp <= r->Ok_0 <= config.next_amp
            ||| config.next_amp <= r->Ok_0 <= config.init_amp
        },
{
    if now < config.next_amp_time {
        if now < config.init_amp_time {
            return Err(ContractError::Overflow {});
        }
        let elapsed = (now - config.init_amp_time) as u128;
        let range = (config.next_amp_time - config.init_amp_time) as u128;
        let init = config.init_amp as u128;
        let next = config.next_amp as u128;
        if next > init {
            let amp_range = next - init;
            assert(amp_range * elapsed <= u64::MAX * u64::MAX) by (nonlinear_arith)
                requires
                    amp_range <= u64::MAX,
                    elapsed <= u64::MAX,
            ;
            proof {
                lemma_scaled_part(amp_range as int, elapsed as int, range as int);
            }
            Ok((init + amp_range * elapsed / range) as u64)
        } else {
            let amp_range = init - next;
            assert(amp_range * elapsed <= u64::MAX * u64::MAX) by (nonlinear_arith)
                requires
                    amp_range <= u64::MAX,
                    elapsed <= u64::MAX,
            ;
            proof {
                lemma_scaled_part(amp_range as int, elapsed as int, range as int);
            }
            Ok((init - amp_range * elapsed / range) as u64)
        }
    } else {
        Ok(config.next_amp)
    }
}

/// Starts a ramp toward `next_amp` (unscaled), reached at `next_amp_time`.
/// On refusal the state is left as it was.
pub fn start_changing_amp(config: &mut Config, now: u64, next_amp: u64, next_amp_time: u64) -> (r:
    Result<(), ContractError>)
    ensures
        match ramp_started(*old(config), now as int, next_amp as int, next_amp_time as int) {
            Ok(c) => r is Ok && *final(config) == c,
            Err(e) => r == Err::<(), ContractError>(e) && *final(config) == *old(config),
        },
        r is Ok && old(config).wf() ==> final(config).wf(),
{
    if next_amp == 0 || next_amp > MAX_AMP {
        return Err(ContractError::IncorrectAmp {});
    }
    let current = compute_current_amp(config, now)?;
    let scaled = next_amp * AMP_PRECISION;
    if (scaled as u128) * (MAX_AMP_CHANGE as u128) < current as u128 || (scaled as u128) > (
    current as u128) * (MAX_AMP_CHANGE as u128) {
        return Err(ContractError::MaxAmpChangeAssertion {});
    }
    if (now as u128) < (config.init_amp_time as u128) + (MIN_AMP_CHANGING_TIME as u128)
        || (next_amp_time as u128) < (now as u128) + (MIN_AMP_CHANGING_TIME as u128) {
        return Err(ContractError::MinAmpChangingTimeAssertion {});
    }
    config.init_amp = current;
    config.next_amp = scaled;
    config.init_amp_time = now;
    config.next_amp_time = next_amp_time;
    Ok(())
}

/// Freezes the ramp at `now` at the amplification then in force.
/// On refusal the state is left as it was.
pub fn stop_changing_amp(config: &mut Config, now: u64) -> (r: Result<(), ContractError>)
    ensures
        match ramp_stopped(*old(config), now as int) {
            Ok(c) => r is Ok && *final(config) == c,
            Err(e) => r == Err::<(), ContractError>(e) && *final(config) == *old(config),
        },
        r is Ok && old(config).wf() ==> final(config).wf(),
{
    let current = compute_current_amp(config, now)?;
    config.init_amp = current;
    config.next_amp = current;
    config.init_amp_time = now;
    config.next_amp_time = now;
    Ok(())
}

proof fn lemma_scaled_part_ordered(a: int, e1: int, e2: int, r: int)
    requires
        a >= 0,
        0 <= e1 <= e2,
        r > 0,
    ensures
        a * e1 / r <= a * e2 / r,
{
    assert(a * e1 <= a * e2) by (nonlinear_arith)
        requires
            a >= 0,
            0 <= e1 <= e2,
    ;
    vstd::arithmetic::div_mod::lemma_div_is_ordered(a * e1, a * e2, r);
}

/// For a ramp that spans time, the amplification at its start time is its
/// start value.
pub proof fn lemma_amp_at_ramp_start(c: Config)
    requires
        c.init_amp_time < c.next_amp_time,
    ensures
        current_amp(c, c.init_amp_time as int) == Ok::<u64, ContractError>(c.init_amp),
{
    let range = c.next_amp_time - c.init_amp_time;
    assert((c.next_amp - c.init_amp) * 0int == 0);
    assert((c.init_amp - c.next_amp) * 0int == 0);
    assert(0int / range == 0);
}

/// From the ramp's end time on, the amplification is its target.
pub proof fn lemma_amp_after_ramp_end(c: Config, now: int)
    requires
        now >= c.next_amp_time,
    ensures
        current_amp(c, now) == Ok::<u64, ContractError>(c.next_amp),
{
}

/// From the ramp's start time on, the amplification moves monotonically
/// toward the target: never down on a rising ramp, never up on a falling one.
pub proof fn lemma_amp_monotone(c: Config, t1: int, t2: int)
    requires
        c.init_amp_time <= t1 <= t2,
    ensures
        current_amp(c, t1) is Ok,
        current_amp(c, t2) is Ok,
        c.init_amp <= c.next_amp ==> current_amp(c, t1)->Ok_0 <= current_amp(c, t2)->Ok_0,
        c.next_amp <= c.init_amp ==> current_amp(c, t1)->Ok_0 >= current_amp(c, t2)->Ok_0,
{
    let range = c.next_amp_time - c.init_amp_time;
    if t1 < c.next_amp_time {
        let up = (c.next_amp - c.init_amp) as int;
        let down = (c.init_amp - c.next_amp) as int;
        if t2 < c.next_amp_time {
            if c.next_amp > c.init_amp {
                lemma_scaled_part_ordered(up, t1 - c.init_amp_time, t2 - c.init_amp_time, range);
                lemma_scaled_part(up, t1 - c.init_amp_time, range);
                lemma_scaled_part(up, t2 - c.init_amp_time, range);
            } else {
                lemma_scaled_part_ordered(down, t1 - c.init_amp_time, t2 - c.init_amp_time, range);
                lemma_scaled_part(down, t1 - c.init_amp_time, range);
                lemma_scaled_part(down, t2 - c.init_amp_time, range);
            }
        } else {
            if c.next_amp > c.init_amp {
                lemma_scaled_part(up, t1 - c.init_amp_time, range);
            } else {
                lemma_scaled_part(down, t1 - c.init_amp_time, range);
            }
        }
    }
}

/// Once a ramp is started, no other can start within
/// `MIN_AMP_CHANGING_TIME` seconds of it.
pub proof fn lemma_no_second_ramp_too_soon(
    c: Config,
    t1: int,
    amp1: int,
    end1: int,
    t2: int,
    amp2: int,
    end2: int,
)
    requires
        ramp_started(c, t1, amp1, end1) is Ok,
        0 <= t1 <= u64::MAX,
        t2 < t1 + MIN_AMP_CHANGING_TIME,
    ensures
        ramp_started(ramp_started(c, t1, amp1, end1)->Ok_0, t2, amp2, end2) is Err,
{
}

/// A ramp whose target lies more than `MAX_AMP_CHANGE` times above or below
/// the amplification in force is refused.
pub proof fn lemma_ramp_factor_bounded(c: Config, now: int, next_amp: int, next_amp_time: int)
    requires
        0 < next_amp <= MAX_AMP,
        current_amp(c, now) is Ok,
        next_amp * AMP_PRECISION * MAX_AMP_CHANGE < current_amp(c, now)->Ok_0
            || next_amp * AMP_PRECISION > current_amp(c, now)->Ok_0 * MAX_AMP_CHANGE,
    ensures
        ramp_started(c, now, next_amp, next_amp_time) == Err::<Config, ContractError>(
            ContractError::MaxAmpChangeAssertion {},
        ),
{
}

} // verus!
