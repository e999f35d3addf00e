use vstd::prelude::*;

use crate::asset::same_asset;
use crate::error::ContractError;
use crate::math::{AMP_PRECISION, MAX_AMP};
use crate::pairinfo::PairInfo;

verus! {

/// The persistent state of a pool: what it is, the time-weighted price
/// accumulators, and the amplification ramp.
#[derive(Debug, Clone, PartialEq, Eq)]
pub struct Config {
    pub pair_info: PairInfo,
    pub factory_addr: String,
    /// Time, in seconds, of the last price accumulation.
    pub block_time_last: u64,
    pub price0_cumulative_last: u128,
    pub price1_cumulative_last: u128,
    /// Amplification (scaled by `AMP_PRECISION`) at the start of the ramp.
    pub init_amp: u64,
    pub init_amp_time: u64,
    /// Amplification (scaled by `AMP_PRECISION`) at the end of the ramp.
    pub next_amp: u64,
    pub next_amp_time: u64,
}

/// Largest scaled amplification.
pub open spec fn max_scaled_amp() -> int {
    MAX_AMP * AMP_PRECISION
}

impl Config {
    /// Both ramp ends are valid scaled amplifications, and the ramp does not
    /// end before it starts.
    pub open spec fn wf(&self) -> bool {
        &&& 0 < self.init_amp <= max_scaled_amp()
        &&& 0 < self.next_amp <= max_scaled_amp()
        &&& self.init_amp_time <= self.next_amp_time
    }

    /// The state of a pool created at `now` with amplification `amp`
    /// (unscaled): no ramp, no price accumulated yet. Refuses a pool of one
    /// asset twice and an amplification outside `1..=MAX_AMP`.
    pub fn new_pool(pair_info: PairInfo, factory_addr: String, amp: u64, now: u64) -> (r: Result<
        Config,
        ContractError,
    >)
        ensures
            same_asset(pair_info.asset_infos@[0], pair_info.asset_infos@[1]) ==> r == Err::<
                Config,
                ContractError,
            >(ContractError::DoublingAssets {}),
            !same_asset(pair_info.asset_infos@[0], pair_info.asset_infos@[1]) && (amp == 0 || amp
                > MAX_AMP) ==> r == Err::<Config, ContractError>(ContractError::IncorrectAmp {}),
            !same_asset(pair_info.asset_infos@[0], pair_info.asset_infos@[1]) && 0 < amp <= MAX_AMP
                ==> r == Ok::<Config, ContractError>(
                Config {
                    pair_info,
                    factory_addr,
                    block_time_last: 0,
                    price0_cumulative_last: 0,
                    price1_cumulative_last: 0,
                    init_amp: (amp * AMP_PRECISION) as u64,
                    init_amp_time: now,
                    next_amp: (amp * AMP_PRECISION) as u64,
                    next_amp_time: now,
                },
            ),
            r is Ok ==> r->Ok_0.wf(),
    {
        if pair_info.asset_infos[0].equal(&pair_info.asset_infos[1]) {
            return Err(ContractError::DoublingAssets {});
        }
        if amp == 0 || amp > MAX_AMP {
            return Err(ContractError::IncorrectAmp {});
        }
        let scaled = amp * AMP_PRECISION;
        Ok(
            Config {
                pair_info,
                factory_addr,
                block_time_last: 0,
                price0_cumulative_last: 0,
                price1_cumulative_last: 0,
                init_amp: scaled,
                init_amp_time: now,
                next_amp: scaled,
                next_amp_time: now,
            },
        )
    }
}

} // verus!
