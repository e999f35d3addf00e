use novaswap_pair_stable::asset::{native_asset, token_asset, Coin};
use novaswap_pair_stable::error::ContractError;
use novaswap_pair_stable::liquidity::compute_provide_liquidity;
use novaswap_pair_stable::math::{AMP_PRECISION, MINIMUM_AMP};
use novaswap_pair_stable::utils::get_share_in_assets;

const TOKEN_DECIMALS: u128 = 1_000000000000000000u128;

fn uusd(amount: u128) -> Coin {
    Coin { denom: "uusd".to_string(), amount }
}

#[test]
fn test_provide_liquidity() {
    let amp = 100 * AMP_PRECISION;
    // first deposit: the coins already sit in the pool's balance
    let out = compute_provide_liquidity(
        [100 * TOKEN_DECIMALS, 100 * TOKEN_DECIMALS],
        [200 * TOKEN_DECIMALS, 0],
        [true, false],
        [18, 18],
        18,
        0,
        amp,
    )
    .unwrap();
    assert_eq!(out.share, 100 * TOKEN_DECIMALS);
    assert_eq!(out.deposits, [100 * TOKEN_DECIMALS, 100 * TOKEN_DECIMALS]);
    assert_eq!(out.pools, [100 * TOKEN_DECIMALS, 0]);

    // more liquidity at a 1:2 ratio
    let out = compute_provide_liquidity(
        [200 * TOKEN_DECIMALS, 100 * TOKEN_DECIMALS],
        [400 * TOKEN_DECIMALS, 200 * TOKEN_DECIMALS],
        [true, false],
        [18, 18],
        18,
        100 * TOKEN_DECIMALS,
        amp,
    )
    .unwrap();
    assert_eq!(out.share, 74_981956874579206461u128);
    assert_eq!(out.pools, [200 * TOKEN_DECIMALS, 200 * TOKEN_DECIMALS]);

    // the amount named does not match the coins sent
    let asset = native_asset("uusd".to_string(), 50_000000000000000000u128);
    assert_eq!(
        asset.assert_sent_native_token_balance(&vec![uusd(100 * TOKEN_DECIMALS)]),
        Err(ContractError::NativeTokenBalanceMismatch {})
    );
}

#[test]
fn sent_native_balance_checks() {
    let asset = native_asset("uusd".to_string(), 7);
    assert_eq!(asset.assert_sent_native_token_balance(&vec![uusd(7)]), Ok(()));
    let other = Coin { denom: "uluna".to_string(), amount: 7 };
    assert_eq!(
        asset.assert_sent_native_token_balance(&vec![other.clone()]),
        Err(ContractError::NativeTokenBalanceMismatch {})
    );
    assert_eq!(asset.assert_sent_native_token_balance(&vec![other, uusd(7), uusd(9)]), Ok(()));
    let nothing = native_asset("uusd".to_string(), 0);
    assert_eq!(nothing.assert_sent_native_token_balance(&vec![]), Ok(()));
    let token = token_asset("asset0000".to_string(), 5);
    assert_eq!(token.assert_sent_native_token_balance(&vec![]), Ok(()));
}

#[test]
fn test_provide_liquidity_with_minimum_liquidity() {
    // deposits in the reserve ratio are taken whole
    let out = compute_provide_liquidity(
        [36 * TOKEN_DECIMALS, 54 * TOKEN_DECIMALS],
        [(100 + 36) * TOKEN_DECIMALS, 150 * TOKEN_DECIMALS],
        [true, false],
        [18, 18],
        18,
        100 * TOKEN_DECIMALS,
        MINIMUM_AMP,
    )
    .unwrap();
    assert_eq!(out.deposits, [36 * TOKEN_DECIMALS, 54 * TOKEN_DECIMALS]);
    assert_eq!(out.share, 35999999999999999999);

    // the excess of the second asset is left out
    let out = compute_provide_liquidity(
        [20 * TOKEN_DECIMALS, 54 * TOKEN_DECIMALS],
        [(100 + 20) * TOKEN_DECIMALS, 150 * TOKEN_DECIMALS],
        [true, false],
        [18, 18],
        18,
        100 * TOKEN_DECIMALS,
        MINIMUM_AMP,
    )
    .unwrap();
    assert_eq!(out.deposits, [20 * TOKEN_DECIMALS, 30 * TOKEN_DECIMALS]);
    assert_eq!(out.share, 20 * TOKEN_DECIMALS);
}

#[test]
fn test_calculate_optimal_price_ratio() {
    // reserves: 150 of the first asset, 100 of the second; 53 of the first
    // imply 36 of the second (35.33 rounded up)
    let out = compute_provide_liquidity([53, 80], [150, 100], [false, false], [6, 6], 6, 100, MINIMUM_AMP)
        .unwrap();
    assert_eq!(out.deposits, [53, 36]);
}

#[test]
fn minimum_amp_caps_the_first_deposit_too() {
    // 30 of the second asset imply 45 of the first
    let out = compute_provide_liquidity([60, 30], [150, 100], [false, false], [6, 6], 6, 100, MINIMUM_AMP)
        .unwrap();
    assert_eq!(out.deposits, [45, 30]);
}

#[test]
fn first_deposit_is_the_root_of_the_product() {
    let out = compute_provide_liquidity([100, 100], [0, 0], [false, false], [6, 6], 6, 0, 10000).unwrap();
    assert_eq!(out.share, 100);
    let out = compute_provide_liquidity([100, 400], [0, 0], [false, false], [6, 6], 6, 0, 10000).unwrap();
    assert_eq!(out.share, 200);
    // shares carry their own precision
    let out = compute_provide_liquidity([1000, 4000], [0, 0], [false, false], [6, 6], 3, 0, 10000).unwrap();
    assert_eq!(out.share, 2);
}

#[test]
fn proportional_deposit_scales_the_shares() {
    let out = compute_provide_liquidity([50, 50], [100, 100], [false, false], [6, 6], 6, 100, 10000).unwrap();
    assert_eq!(out.share, 50);
    let out = compute_provide_liquidity([50, 50], [100, 100], [false, false], [6, 6], 6, 100, MINIMUM_AMP)
        .unwrap();
    assert_eq!(out.share, 50);
}

#[test]
fn provide_liquidity_refusals() {
    assert_eq!(
        compute_provide_liquidity([0, 0], [10, 10], [false, false], [6, 6], 6, 10, 10000),
        Err(ContractError::InvalidZeroAmount {})
    );
    assert_eq!(
        compute_provide_liquidity([0, 10], [0, 10], [false, false], [6, 6], 6, 10, 10000),
        Err(ContractError::InvalidProvideLPsWithSingleToken {})
    );
    assert_eq!(
        compute_provide_liquidity([10, 0], [10, 0], [false, false], [6, 6], 6, 10, 10000),
        Err(ContractError::InvalidProvideLPsWithSingleToken {})
    );
    // a deposit too small to move the invariant
    assert_eq!(
        compute_provide_liquidity([1, 0], [10u128.pow(20), 10u128.pow(20)], [false, false], [6, 6], 6, 10, 10000),
        Err(ContractError::LiquidityAmountTooSmall {})
    );
    // a balance that cannot hold the deposit it is said to hold
    assert_eq!(
        compute_provide_liquidity([10, 10], [5, 10], [true, false], [6, 6], 6, 10, 10000),
        Err(ContractError::Overflow {})
    );
}

#[test]
fn withdraw_liquidity() {
    let pools = [native_asset("uusd".to_string(), 100), token_asset("asset0000".to_string(), 100)];
    let refund = get_share_in_assets(&pools, 100, 100);
    assert_eq!(refund[0], native_asset("uusd".to_string(), 100));
    assert_eq!(refund[1], token_asset("asset0000".to_string(), 100));
}

#[test]
fn withdraw_everything_returns_the_reserves() {
    let pools = [native_asset("uusd".to_string(), 123_456_789), token_asset("asset0000".to_string(), 987)];
    let refund = get_share_in_assets(&pools, 333, 333);
    assert_eq!(refund[0].amount, 123_456_789);
    assert_eq!(refund[1].amount, 987);
    let refund = get_share_in_assets(&pools, 5, 0);
    assert_eq!(refund[0].amount, 0);
    assert_eq!(refund[1].amount, 0);
}

#[test]
fn test_query_share() {
    let pools = [native_asset("uusd".to_string(), 250), token_asset("asset0000".to_string(), 1000)];
    let res = get_share_in_assets(&pools, 250, 500);
    assert_eq!(res[0].amount, 125);
    assert_eq!(res[1].amount, 500);
}
