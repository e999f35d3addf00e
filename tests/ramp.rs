use novaswap_pair_stable::asset::AssetInfo;
use novaswap_pair_stable::error::ContractError;
use novaswap_pair_stable::math::{AMP_PRECISION, MIN_AMP_CHANGING_TIME};
use novaswap_pair_stable::pairinfo::{PairInfo, PairType};
use novaswap_pair_stable::ramp::{compute_current_amp, start_changing_amp, stop_changing_amp};
use novaswap_pair_stable::state::Config;

fn pair_info() -> PairInfo {
    PairInfo {
        asset_infos: [
            AssetInfo::NativeToken { denom: "uusd".to_string() },
            AssetInfo::Token { contract_addr: "asset0000".to_string() },
        ],
        contract_addr: "pair".to_string(),
        liquidity_token: "lp_token".to_string(),
        pair_type: PairType::Stable {},
    }
}

fn ramp(init_amp: u64, init_amp_time: u64, next_amp: u64, next_amp_time: u64) -> Config {
    Config {
        pair_info: pair_info(),
        factory_addr: "factory".to_string(),
        block_time_last: 0,
        price0_cumulative_last: 0,
        price1_cumulative_last: 0,
        init_amp,
        init_amp_time,
        next_amp,
        next_amp_time,
    }
}

#[test]
fn current_amp_follows_the_ramp() {
    let up = ramp(100 * AMP_PRECISION, 1000, 200 * AMP_PRECISION, 2000);
    assert_eq!(compute_current_amp(&up, 1000), Ok(10000));
    assert_eq!(compute_current_amp(&up, 1500), Ok(15000));
    assert_eq!(compute_current_amp(&up, 1999), Ok(19990));
    assert_eq!(compute_current_amp(&up, 2000), Ok(20000));
    assert_eq!(compute_current_amp(&up, 9000), Ok(20000));
    assert_eq!(compute_current_amp(&up, 999), Err(ContractError::Overflow {}));

    let down = ramp(200 * AMP_PRECISION, 1000, 100 * AMP_PRECISION, 4000);
    assert_eq!(compute_current_amp(&down, 1000), Ok(20000));
    assert_eq!(compute_current_amp(&down, 2000), Ok(16667));
    assert_eq!(compute_current_amp(&down, 4000), Ok(10000));

    let mut last = 0u64;
    for t in (1000..=2100).step_by(7) {
        let a = compute_current_amp(&up, t).unwrap();
        assert!(a >= last);
        last = a;
    }
}

#[test]
fn start_ramp_checks() {
    let start = 100_000u64;
    let base = ramp(100 * AMP_PRECISION, 0, 100 * AMP_PRECISION, 0);

    let mut c = base.clone();
    assert_eq!(start_changing_amp(&mut c, start, 0, start + MIN_AMP_CHANGING_TIME), Err(ContractError::IncorrectAmp {}));
    assert_eq!(
        start_changing_amp(&mut c, start, 1_000_001, start + MIN_AMP_CHANGING_TIME),
        Err(ContractError::IncorrectAmp {})
    );
    assert_eq!(
        start_changing_amp(&mut c, start, 1001, start + MIN_AMP_CHANGING_TIME),
        Err(ContractError::MaxAmpChangeAssertion {})
    );
    assert_eq!(
        start_changing_amp(&mut c, start, 9, start + MIN_AMP_CHANGING_TIME),
        Err(ContractError::MaxAmpChangeAssertion {})
    );
    assert_eq!(
        start_changing_amp(&mut c, start, 200, start + MIN_AMP_CHANGING_TIME - 1),
        Err(ContractError::MinAmpChangingTimeAssertion {})
    );
    assert_eq!(c, base);

    assert_eq!(start_changing_amp(&mut c, start, 1000, start + MIN_AMP_CHANGING_TIME), Ok(()));
    assert_eq!(c.init_amp, 100 * AMP_PRECISION);
    assert_eq!(c.init_amp_time, start);
    assert_eq!(c.next_amp, 1000 * AMP_PRECISION);
    assert_eq!(c.next_amp_time, start + MIN_AMP_CHANGING_TIME);

    // a second start within the minimal interval is refused
    let before = c.clone();
    assert_eq!(
        start_changing_amp(&mut c, start + MIN_AMP_CHANGING_TIME - 1, 500, start + 3 * MIN_AMP_CHANGING_TIME),
        Err(ContractError::MinAmpChangingTimeAssertion {})
    );
    assert_eq!(c, before);

    // after it, the ramp restarts from the amplification then in force
    assert_eq!(
        start_changing_amp(&mut c, start + MIN_AMP_CHANGING_TIME, 500, start + 3 * MIN_AMP_CHANGING_TIME),
        Ok(())
    );
    assert_eq!(c.init_amp, 1000 * AMP_PRECISION);
    assert_eq!(c.next_amp, 500 * AMP_PRECISION);
}

#[test]
fn stop_ramp_freezes_the_amplification() {
    let mut c = ramp(100 * AMP_PRECISION, 1000, 200 * AMP_PRECISION, 2000);
    assert_eq!(stop_changing_amp(&mut c, 1250), Ok(()));
    assert_eq!((c.init_amp, c.next_amp), (12500, 12500));
    assert_eq!((c.init_amp_time, c.next_amp_time), (1250, 1250));
    assert_eq!(compute_current_amp(&c, 5000), Ok(12500));
}

#[test]
fn initialization_should_fail() {
    let mut info = pair_info();
    info.asset_infos = [
        AssetInfo::Token { contract_addr: "asset0000".to_string() },
        AssetInfo::Token { contract_addr: "asset0000".to_string() },
    ];
    assert_eq!(
        Config::new_pool(info, "factory0000".to_string(), 50, 7),
        Err(ContractError::DoublingAssets {})
    );

    let mut info = pair_info();
    info.asset_infos = [
        AssetInfo::Token { contract_addr: "asset0000".to_string() },
        AssetInfo::Token { contract_addr: "asset0001".to_string() },
    ];
    assert_eq!(
        Config::new_pool(info.clone(), "factory0000".to_string(), 0, 7),
        Err(ContractError::IncorrectAmp {})
    );

    let c = Config::new_pool(info, "factory0000".to_string(), 50, 7).unwrap();
    assert_eq!((c.init_amp, c.next_amp), (5000, 5000));
    assert_eq!((c.init_amp_time, c.next_amp_time), (7, 7));
    assert_eq!(c.block_time_last, 0);
}
