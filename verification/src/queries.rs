//! Read-only queries of the edge service. Serialization of the responses to
//! wire form is the host shell's business; the library hands back plain
//! values.

use crate::its_edge::{load_all_its_addresses, load_its_address, EdgeStorage, Error};
use crate::types::{Address, ChainName};
use vstd::prelude::*;

verus! {

/// The answer to a single-chain address query.
#[derive(Debug, PartialEq, Eq)]
pub struct ItsAddressResponse {
    pub address: Option<Address>,
}

/// The answer to the all-addresses query.
#[derive(Debug, PartialEq, Eq)]
pub struct AllItsAddressesResponse {
    pub addresses: Vec<(ChainName, Address)>,
}

/// The trusted service address for a chain, or nothing if the chain has
/// none.
pub fn its_address(storage: &EdgeStorage, chain: ChainName) -> (r: Result<
    ItsAddressResponse,
    Error,
>)
    requires
        storage.wf(),
    ensures
        r matches Ok(resp) && (match resp.address {
            Some(a) => storage.its_addresses().contains_key(chain@) && a@
                == storage.its_addresses()[chain@],
            None => !storage.its_addresses().contains_key(chain@),
        }),
{
    let address = match load_its_address(storage, &chain) {
        Ok(a) => Some(a),
        Err(_) => None,
    };
    Ok(ItsAddressResponse { address })
}

/// Every trusted service address, in registration order.
pub fn all_its_addresses(storage: &EdgeStorage) -> (r: Result<AllItsAddressesResponse, Error>)
    requires
        storage.wf(),
    ensures
        r matches Ok(resp) && resp.addresses@.map_values(|p: (ChainName, Address)| (p.0@, p.1@))
            == storage.its_addresses_seq(),
{
    let addresses = load_all_its_addresses(storage)?;
    Ok(AllItsAddressesResponse { addresses })
}

} // verus!
