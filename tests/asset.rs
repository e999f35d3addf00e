use novaswap_pair_stable::asset::{native_asset_info, token_asset_info, AssetInfo};
use novaswap_pair_stable::error::ContractError;
use novaswap_pair_stable::pairinfo::{PairInfo, PairType};
use novaswap_pair_stable::text::format_lp_token_name;

#[test]
fn lp_token_name_from_symbols() {
    assert_eq!(format_lp_token_name(&["snt".to_string(), "uusd".to_string()]), "SNT-UUSD-LP");
    assert_eq!(format_lp_token_name(&["mAAPL".to_string(), "uusdc".to_string()]), "MAAP-UUSD-LP");
    assert_eq!(format_lp_token_name(&["".to_string(), "ab".to_string()]), "-AB-LP");
}

#[test]
fn denomination_rule() {
    assert_eq!(native_asset_info("uusd".to_string()).check(), Ok(()));
    assert_eq!(native_asset_info("UUSD".to_string()).check(), Err(ContractError::NonLowercaseDenom {}));
    assert_eq!(native_asset_info("ibc/27394FB092".to_string()).check(), Ok(()));
    assert_eq!(token_asset_info("Asset0000".to_string()).check(), Ok(()));
}

#[test]
fn asset_identity() {
    let a = token_asset_info("asset0000".to_string());
    let b = native_asset_info("asset0000".to_string());
    assert!(!a.equal(&b));
    assert!(a.equal(&AssetInfo::Token { contract_addr: "asset0000".to_string() }));
    assert!(b.is_native_token());
    assert_eq!(a.as_bytes(), b"asset0000");
    assert_eq!(PairType::Stable {}.name(), "stable");
    assert_eq!(PairType::Xyk {}.name(), "xyk");
}

#[test]
fn only_pool_tokens_may_send() {
    let info = PairInfo {
        asset_infos: [native_asset_info("uusd".to_string()), token_asset_info("asset0000".to_string())],
        contract_addr: "pair".to_string(),
        liquidity_token: "liquidity0000".to_string(),
        pair_type: PairType::Stable {},
    };
    assert!(info.holds_token(&"asset0000".to_string()));
    assert!(!info.holds_token(&"uusd".to_string()));
    assert!(!info.holds_token(&"liquidtity0000".to_string()));
}
