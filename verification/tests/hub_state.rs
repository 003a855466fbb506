use gateway_core::amount::{NonZeroUint256, OverflowError, Uint256};
use gateway_core::its_hub::{
    freeze_chain, is_chain_frozen, load_all_its_contracts, load_chain_config, load_config,
    may_load_token_instance, remove_its_contract, save_chain_config, save_config,
    save_its_contract, save_token_instance, unfreeze_chain, Config, Error, HubStorage, TokenId,
    TokenInstance, TokenSupply,
};
use gateway_core::types::{Address, ChainName};

fn chain(s: &str) -> ChainName {
    ChainName::new(s.to_string())
}

fn address(s: &str) -> Address {
    Address::new(s.to_string())
}

fn amount(v: u128) -> NonZeroUint256 {
    NonZeroUint256::new(Uint256::from_u128(v)).unwrap()
}

#[test]
fn save_and_load_config_succeeds() {
    let mut deps = HubStorage::new();

    let config = Config { axelarnet_gateway: address("gateway-address") };

    assert!(save_config(&mut deps, &config).is_ok());
    assert_eq!(load_config(&deps), config);
}

#[test]
fn save_and_load_its_contract_succeeds() {
    let mut deps = HubStorage::new();

    let chain1 = chain("chain1");
    let chain2 = chain("chain2");
    let address1 = address("address1");
    let address2 = address("address2");

    assert!(matches!(
        gateway_core::its_hub::load_its_contract(&deps, &chain1),
        Err(Error::ItsContractNotFound(its_chain)) if its_chain == chain1
    ));
    assert_eq!(load_all_its_contracts(&deps).unwrap(), Vec::new());

    assert!(save_its_contract(&mut deps, &chain1, &address1).is_ok());
    assert!(save_its_contract(&mut deps, &chain2, &address2).is_ok());
    assert_eq!(
        gateway_core::its_hub::load_its_contract(&deps, &chain1).unwrap(),
        address1
    );
    assert_eq!(
        gateway_core::its_hub::load_its_contract(&deps, &chain2).unwrap(),
        address2
    );

    let all_addresses = load_all_its_contracts(&deps).unwrap();
    assert_eq!(all_addresses, vec![(chain1, address1), (chain2, address2)]);
}

#[test]
fn duplicate_its_contract_registration_fails() {
    let mut deps = HubStorage::new();
    let c = chain("chain1");

    assert!(save_its_contract(&mut deps, &c, &address("address1")).is_ok());
    assert!(matches!(
        save_its_contract(&mut deps, &c, &address("address2")),
        Err(Error::ItsContractAlreadyRegistered(rc)) if rc == c
    ));

    assert!(remove_its_contract(&mut deps, &c).is_ok());
    assert!(matches!(
        remove_its_contract(&mut deps, &c),
        Err(Error::ItsContractNotFound(rc)) if rc == c
    ));
}

#[test]
fn credit_and_debit_tracked_supply() {
    let supply = TokenSupply::Counted(Uint256::from_u128(100));
    let credited = supply.checked_add(amount(50)).unwrap();
    assert_eq!(credited, TokenSupply::Counted(Uint256::from_u128(150)));

    let debited = credited.checked_sub(amount(150)).unwrap();
    assert_eq!(debited, TokenSupply::Counted(Uint256::from_u128(0)));
}

#[test]
fn debit_below_zero_fails_with_underflow() {
    let supply = TokenSupply::Counted(Uint256::from_u128(100));
    assert_eq!(supply.checked_sub(amount(150)), Err(OverflowError::Underflow));
}

#[test]
fn credit_beyond_width_fails_with_overflow() {
    let supply = TokenSupply::Counted(Uint256::from_words(u128::MAX, u128::MAX));
    assert_eq!(supply.checked_add(amount(1)), Err(OverflowError::Overflow));
}

#[test]
fn untracked_supply_absorbs_credit_and_debit() {
    assert_eq!(
        TokenSupply::Untracked.checked_add(amount(123)).unwrap(),
        TokenSupply::Untracked
    );
    assert_eq!(
        TokenSupply::Untracked.checked_sub(amount(456)).unwrap(),
        TokenSupply::Untracked
    );
}

#[test]
fn failed_debit_leaves_stored_supply_unchanged() {
    let mut deps = HubStorage::new();
    let c = chain("chain1");
    let token = TokenId { id: vec![1u8, 2, 3] };
    let instance = TokenInstance {
        supply: TokenSupply::Counted(Uint256::from_u128(100)),
        decimals: Some(6),
    };

    assert!(save_token_instance(&mut deps, c.clone(), token.clone(), &instance).is_ok());

    let loaded = may_load_token_instance(&deps, c.clone(), token.clone())
        .unwrap()
        .unwrap();
    assert_eq!(loaded.supply.checked_sub(amount(150)), Err(OverflowError::Underflow));

    let stored = may_load_token_instance(&deps, c, token).unwrap().unwrap();
    assert_eq!(stored.supply, TokenSupply::Counted(Uint256::from_u128(100)));
}

#[test]
fn freeze_then_unfreeze_returns_chain_to_unfrozen() {
    let mut deps = HubStorage::new();
    let c = chain("chain1");

    assert!(save_chain_config(&mut deps, &c, amount(1000), 6).is_ok());
    assert!(!is_chain_frozen(&deps, &c).unwrap());

    let frozen = freeze_chain(&mut deps, &c).unwrap();
    assert!(frozen.is_frozen());
    assert!(is_chain_frozen(&deps, &c).unwrap());

    let unfrozen = unfreeze_chain(&mut deps, &c).unwrap();
    assert!(!unfrozen.is_frozen());
    assert!(!is_chain_frozen(&deps, &c).unwrap());

    let config = load_chain_config(&deps, &c).unwrap();
    assert_eq!(config.max_uint, amount(1000));
    assert_eq!(config.max_target_decimals, 6);
}

#[test]
fn freeze_of_unregistered_chain_fails() {
    let mut deps = HubStorage::new();
    let c = chain("never-registered");

    assert!(matches!(
        freeze_chain(&mut deps, &c),
        Err(Error::ChainNotFound(rc)) if rc == c
    ));
    assert!(matches!(
        unfreeze_chain(&mut deps, &c),
        Err(Error::ChainNotFound(rc)) if rc == c
    ));
    assert!(matches!(
        is_chain_frozen(&deps, &c),
        Err(Error::ChainNotFound(rc)) if rc == c
    ));
    assert!(matches!(
        load_chain_config(&deps, &c),
        Err(Error::ChainNotFound(rc)) if rc == c
    ));
}
