use novaswap_pair_stable::asset::AssetInfo;
use novaswap_pair_stable::factory::{calc_range_start, check_create_pair, pair_key, validate_pair_configs, ContractError};
use novaswap_pair_stable::pairinfo::{PairConfig, PairType};

fn tokens() -> [AssetInfo; 2] {
    [
        AssetInfo::Token { contract_addr: "token0000".to_string() },
        AssetInfo::Token { contract_addr: "token0001".to_string() },
    ]
}

fn stable(is_disabled: bool) -> PairConfig {
    PairConfig { code_id: 1u64, pair_type: PairType::Stable {}, is_disabled }
}

#[test]
fn duplicated_initialization() {
    assert_eq!(validate_pair_configs(&vec![stable(false), stable(false)]), Err(ContractError::PairConfigDuplicate {}));
    let xyk = PairConfig { code_id: 2u64, pair_type: PairType::Xyk {}, is_disabled: false };
    assert_eq!(validate_pair_configs(&vec![stable(false), xyk]), Ok(()));
    assert_eq!(validate_pair_configs(&vec![]), Ok(()));
}

#[test]
fn create_pair() {
    let key = check_create_pair(&tokens(), false, Some(stable(false))).unwrap();
    assert_eq!(key, b"token0000token0001".to_vec());
}

#[test]
fn cannot_create_pair() {
    assert_eq!(check_create_pair(&tokens(), false, None), Err(ContractError::PairConfigNotFound {}));
    assert_eq!(check_create_pair(&tokens(), false, Some(stable(true))), Err(ContractError::PairConfigDisabled {}));
    assert_eq!(check_create_pair(&tokens(), true, Some(stable(false))), Err(ContractError::PairWasCreated {}));
    let same = [tokens()[0].clone(), tokens()[0].clone()];
    assert_eq!(check_create_pair(&same, false, Some(stable(false))), Err(ContractError::DoublingAssets {}));
}

#[test]
fn pair_key_ignores_the_order() {
    let [a, b] = tokens();
    let uusd = AssetInfo::NativeToken { denom: "uusd".to_string() };
    assert_eq!(pair_key(&[a.clone(), b.clone()]), pair_key(&[b.clone(), a.clone()]));
    assert_eq!(pair_key(&[uusd.clone(), a.clone()]), b"token0000uusd".to_vec());
    assert_eq!(pair_key(&[a.clone(), uusd]), b"token0000uusd".to_vec());
    let prefix = AssetInfo::Token { contract_addr: "token".to_string() };
    assert_eq!(pair_key(&[a, prefix]), b"tokentoken0000".to_vec());
}

#[test]
fn range_start_follows_the_key() {
    assert_eq!(calc_range_start(None), None);
    let mut expected = b"token0000token0001".to_vec();
    expected.push(1);
    assert_eq!(calc_range_start(Some(tokens())), Some(expected));
}
