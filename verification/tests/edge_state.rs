use gateway_core::its_edge::{
    load_all_its_addresses, load_config, load_its_address, remove_its_address, save_config,
    save_its_address, Config, EdgeStorage, Error,
};
use gateway_core::queries::{all_its_addresses, its_address};
use gateway_core::types::{Address, ChainName};

fn chain(s: &str) -> ChainName {
    ChainName::new(s.to_string())
}

fn address(s: &str) -> Address {
    Address::new(s.to_string())
}

#[test]
fn config_storage() {
    let mut deps = EdgeStorage::new();

    let config = Config { chain_name: chain("test-chain"), gateway: address("gateway-address") };

    assert!(save_config(&mut deps, &config).is_ok());
    assert_eq!(load_config(&deps).unwrap(), config);

    let deps = EdgeStorage::new();
    assert!(matches!(load_config(&deps), Err(Error::MissingConfig)));
}

#[test]
fn its_addresses_storage() {
    let mut deps = EdgeStorage::new();

    let chain0 = chain("test-chain");
    let addr0 = address("its-address");

    assert!(save_its_address(&mut deps, &chain0, &addr0).is_ok());
    assert_eq!(load_its_address(&deps, &chain0).unwrap(), addr0);

    remove_its_address(&mut deps, &chain0);
    assert!(matches!(
        load_its_address(&deps, &chain0),
        Err(Error::ItsAddressNotFound(_))
    ));

    let chain1 = chain("chain1");
    let chain2 = chain("chain2");
    let address1 = address("address1");
    let address2 = address("address2");
    assert!(save_its_address(&mut deps, &chain1, &address1).is_ok());
    assert!(save_its_address(&mut deps, &chain2, &address2).is_ok());

    let all_addresses = load_all_its_addresses(&deps).unwrap();
    assert_eq!(all_addresses, vec![(chain1, address1), (chain2, address2)]);
}

#[test]
fn query_trusted_address() {
    let mut deps = EdgeStorage::new();

    let chain0 = chain("test-chain");
    let addr0 = address("trusted-address");

    save_its_address(&mut deps, &chain0, &addr0).unwrap();

    let res = its_address(&deps, chain0).unwrap();
    assert_eq!(res.address, Some(addr0));

    let non_existent_chain = chain("non-existent-chain");
    let res = its_address(&deps, non_existent_chain).unwrap();
    assert_eq!(res.address, None);
}

#[test]
fn query_all_trusted_addresses() {
    let mut deps = EdgeStorage::new();

    let chain1 = chain("chain1");
    let address1 = address("address1");
    let chain2 = chain("chain2");
    let address2 = address("address2");

    save_its_address(&mut deps, &chain1, &address1).unwrap();
    save_its_address(&mut deps, &chain2, &address2).unwrap();

    let res = all_its_addresses(&deps).unwrap();
    assert_eq!(res.addresses, vec![(chain1, address1), (chain2, address2)]);
}
