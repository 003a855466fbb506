//! The interchain token service as deployed beside one chain's gateway: its
//! configuration and the service addresses it trusts on other chains.

use crate::store::{StoreKey, StoreValue, Table};
use crate::types::{Address, ChainName};
use vstd::prelude::*;

verus! {

/// What can go wrong in the edge service's state handling.
#[derive(Debug, PartialEq, Eq)]
pub enum Error {
    /// The store failed in a way that should never happen.
    Storage,
    /// The service's configuration is missing: corrupted initialization.
    MissingConfig,
    /// No service address is known for the chain.
    ItsAddressNotFound(ChainName),
}

/// The edge service's configuration.
#[derive(Debug, PartialEq, Eq)]
pub struct Config {
    pub chain_name: ChainName,
    pub gateway: Address,
}

/// The mathematical value of a `Config`.
pub struct ConfigView {
    pub chain_name: Seq<char>,
    pub gateway: Seq<char>,
}

impl View for Config {
    type V = ConfigView;

    open spec fn view(&self) -> ConfigView {
        ConfigView { chain_name: self.chain_name@, gateway: self.gateway@ }
    }
}

impl Clone for Config {
    fn clone(&self) -> (r: Self)
        ensures
            r@ == self@,
    {
        Config { chain_name: self.chain_name.clone(), gateway: self.gateway.clone() }
    }
}

/// The edge service's slice of the host's store.
pub struct EdgeStorage {
    config: Option<Config>,
    its_addresses: Table<ChainName, Address>,
}

impl EdgeStorage {
    pub closed spec fn config_view(&self) -> Option<ConfigView> {
        match self.config {
            Some(c) => Some(c@),
            None => None,
        }
    }

    /// The trusted service addresses, by chain.
    pub closed spec fn its_addresses(&self) -> Map<Seq<char>, Seq<char>> {
        self.its_addresses.as_map()
    }

    /// The trusted service addresses, in registration order.
    pub closed spec fn its_addresses_seq(&self) -> Seq<(Seq<char>, Seq<char>)> {
        self.its_addresses.entries_view()
    }

    pub closed spec fn wf(&self) -> bool {
        self.its_addresses.wf()
    }

    pub fn new() -> (r: Self)
        ensures
            r.wf(),
            r.config_view() is None,
            r.its_addresses() == Map::<Seq<char>, Seq<char>>::empty(),
            r.its_addresses_seq() == Seq::<(Seq<char>, Seq<char>)>::empty(),
    {
        EdgeStorage { config: None, its_addresses: Table::new() }
    }
}

/// Read the configuration; a missing one is `MissingConfig`.
pub fn load_config(storage: &EdgeStorage) -> (r: Result<Config, Error>)
    ensures
        match r {
            Ok(c) => storage.config_view() == Some(c@),
            Err(e) => e == Error::MissingConfig && storage.config_view() is None,
        },
{
    match &storage.config {
        Some(c) => Ok(c.clone()),
        None => Err(Error::MissingConfig),
    }
}

/// Write the configuration.
pub fn save_config(storage: &mut EdgeStorage, config: &Config) -> (r: Result<(), Error>)
    requires
        old(storage).wf(),
    ensures
        final(storage).wf(),
        r is Ok,
        final(storage).config_view() == Some(config@),
        final(storage).its_addresses_seq() == old(storage).its_addresses_seq(),
{
    storage.config = Some(config.clone());
    Ok(())
}

/// Read the trusted service address for a chain; absence is
/// `ItsAddressNotFound`.
pub fn load_its_address(storage: &EdgeStorage, chain: &ChainName) -> (r: Result<Address, Error>)
    requires
        storage.wf(),
    ensures
        match r {
            Ok(a) => storage.its_addresses().contains_key(chain@) && a@
                == storage.its_addresses()[chain@],
            Err(e) => !storage.its_addresses().contains_key(chain@) && (e matches
                Error::ItsAddressNotFound(c) && c@ == chain@),
        },
{
    match storage.its_addresses.get(chain) {
        Some(a) => Ok(a),
        None => Err(Error::ItsAddressNotFound(chain.clone())),
    }
}

/// Write the trusted service address for a chain, overwriting any earlier
/// one.
pub fn save_its_address(storage: &mut EdgeStorage, chain: &ChainName, address: &Address) -> (r:
    Result<(), Error>)
    requires
        old(storage).wf(),
    ensures
        final(storage).wf(),
        r is Ok,
        final(storage).its_addresses() == old(storage).its_addresses().insert(chain@, address@),
        !old(storage).its_addresses().contains_key(chain@) ==> final(storage).its_addresses_seq()
            == old(storage).its_addresses_seq().push((chain@, address@)),
        old(storage).its_addresses().contains_key(chain@) ==> exists|i: int|
            0 <= i < old(storage).its_addresses_seq().len() && (#[trigger] old(
                storage,
            ).its_addresses_seq()[i]).0 == chain@ && final(storage).its_addresses_seq() == old(
                storage,
            ).its_addresses_seq().update(i, (chain@, address@)),
        final(storage).config_view() == old(storage).config_view(),
{
    let ghost pre = storage.its_addresses.entries_view();
    storage.its_addresses.insert(chain.key_dup(), address.val_dup());
    proof {
        if old(storage).its_addresses().contains_key(chain@) {
            let i = choose|i: int|
                0 <= i < pre.len() && (#[trigger] pre[i]).0 == chain@
                    && storage.its_addresses.entries_view() == pre.update(i, (chain@, address@));
            assert((old(storage).its_addresses_seq()[i]).0 == chain@);
            assert(storage.its_addresses_seq() == old(storage).its_addresses_seq().update(
                i,
                (chain@, address@),
            ));
        }
    }
    Ok(())
}

/// Drop the trusted service address for a chain; dropping an unknown chain
/// does nothing.
pub fn remove_its_address(storage: &mut EdgeStorage, chain: &ChainName)
    requires
        old(storage).wf(),
    ensures
        final(storage).wf(),
        final(storage).its_addresses() == old(storage).its_addresses().remove(chain@),
        final(storage).config_view() == old(storage).config_view(),
{
    let _ = storage.its_addresses.remove(chain);
}

/// Every trusted service address, in registration order.
pub fn load_all_its_addresses(storage: &EdgeStorage) -> (r: Result<Vec<(ChainName, Address)>, Error>)
    requires
        storage.wf(),
    ensures
        r matches Ok(v) && v@.map_values(|p: (ChainName, Address)| (p.0@, p.1@))
            == storage.its_addresses_seq(),
{
    Ok(storage.its_addresses.all())
}

} // verus!
