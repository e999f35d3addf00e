use novaswap_pair_stable::asset::AssetInfo;
use novaswap_pair_stable::math::AMP_PRECISION;
use novaswap_pair_stable::pairinfo::{PairInfo, PairType};
use novaswap_pair_stable::state::Config;
use novaswap_pair_stable::twap::{accumulate_prices, TWAP_PRECISION};

fn config(now: u64, block_time_last: u64, last0: u128, last1: u128) -> Config {
    Config {
        pair_info: PairInfo {
            asset_infos: [
                AssetInfo::NativeToken { denom: "uusd".to_string() },
                AssetInfo::Token { contract_addr: "asset0000".to_string() },
            ],
            contract_addr: "pair".to_string(),
            liquidity_token: "lp_token".to_string(),
            pair_type: PairType::Stable {},
        },
        factory_addr: "factory".to_string(),
        block_time_last,
        price0_cumulative_last: last0,
        price1_cumulative_last: last1,
        init_amp: 100 * AMP_PRECISION,
        init_amp_time: now,
        next_amp: 100 * AMP_PRECISION,
        next_amp_time: now,
    }
}

#[test]
fn test_accumulate_prices() {
    let price_precision = 10u128.pow(TWAP_PRECISION.into());
    // (block_time, block_time_last, last0, last1, x, y) and the expected
    // (block_time_last, cumulative x, cumulative y, is_some)
    let cases = [
        ((1000u64, 0u64, 0u128, 0u128, 250_000000u128, 500_000000u128), (1000u64, 1008u128, 991u128, true)),
        (
            (1000, 1000, price_precision, 2 * price_precision, 250_000000, 500_000000),
            (1000, 1, 2, false),
        ),
        (
            (1500, 1000, 500 * price_precision, 2000 * price_precision, 250_000000, 500_000000),
            (1500, 1004, 2495, true),
        ),
    ];
    for ((now, last, last0, last1, x, y), (time, cx, cy, is_some)) in cases {
        let c = config(now, last, last0, last1);
        let res = accumulate_prices(now, &c, x, 6, y, 6).unwrap();
        assert_eq!(res.is_some(), is_some);
        if let Some((p0, p1, t)) = res {
            assert_eq!(t, time);
            assert_eq!(p0 / price_precision, cx);
            assert_eq!(p1 / price_precision, cy);
        }
    }
}

#[test]
fn accumulate_twice_in_one_block_is_a_no_op() {
    let mut c = config(1000, 0, 0, 0);
    let (p0, p1, t) = accumulate_prices(1000, &c, 250_000000, 6, 500_000000, 6).unwrap().unwrap();
    c.price0_cumulative_last = p0;
    c.price1_cumulative_last = p1;
    c.block_time_last = t;
    assert_eq!(accumulate_prices(1000, &c, 1, 6, 999_000000, 6), Ok(None));
}

#[test]
fn empty_reserve_only_moves_the_time() {
    let c = config(1000, 10, 5, 6);
    assert_eq!(accumulate_prices(20, &c, 0, 6, 500, 6), Ok(Some((5, 6, 20))));
}

#[test]
fn cumulative_prices_wrap_around() {
    let c = config(1, 0, u128::MAX, u128::MAX - 1);
    let (p0, p1, _) = accumulate_prices(1, &c, 1_000_000, 6, 1_000_000, 6).unwrap().unwrap();
    // one second at a price of about one unit, in six decimals
    assert!(p0 < 1_000_000 && p1 < 1_000_000);
}
