//! Message-routing core of a cross-chain gateway, together with the
//! token-supply ledger of the interchain token service that runs beside it.
//!
//! The library is organised around plain values: chain names, addresses and
//! messages are strings and byte vectors, amounts are 256-bit integers built
//! from machine words, and every persistent table is an association list with
//! a map view. The external collaborators of the deployed system — the
//! verification oracle, the router and the host's key-value store — are
//! modelled as interfaces: the oracle's answers and the router's commands
//! appear as arguments and results of the pipeline functions, and the store
//! is a value that each operation reads and writes.

pub mod amount;
pub mod events;
pub mod gateway_state;
pub mod its_edge;
pub mod its_hub;
pub mod laws;
pub mod messages;
pub mod pipeline;
pub mod queries;
pub mod store;
pub mod types;
