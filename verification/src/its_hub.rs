//! The interchain token service hub: per-chain configuration with a freeze
//! gate, registered service contracts, and the token-supply ledger.

use crate::amount::{amount_bound, NonZeroUint256, OverflowError, Uint256};
use crate::store::{StoreKey, StoreValue, Table};
use crate::types::{bytes_eq, Address, ChainName};
use vstd::prelude::*;

verus! {

/// What can go wrong in the hub's state handling.
#[derive(Debug, PartialEq, Eq)]
pub enum Error {
    /// The hub's configuration is missing: corrupted initialization.
    MissingConfig,
    /// No service contract is registered for the chain.
    ItsContractNotFound(ChainName),
    /// A service contract is already registered for the chain.
    ItsContractAlreadyRegistered(ChainName),
    /// The chain was never registered.
    ChainNotFound(ChainName),
    /// The chain has no configuration.
    ChainConfigNotFound(ChainName),
    /// The store failed in a way that should never happen.
    Storage,
}

/// The hub's global configuration.
#[derive(Debug, PartialEq, Eq)]
pub struct Config {
    pub axelarnet_gateway: Address,
}

/// The mathematical value of a `Config`.
pub struct ConfigView {
    pub axelarnet_gateway: Seq<char>,
}

impl View for Config {
    type V = ConfigView;

    open spec fn view(&self) -> ConfigView {
        ConfigView { axelarnet_gateway: self.axelarnet_gateway@ }
    }
}

impl Clone for Config {
    fn clone(&self) -> (r: Self)
        ensures
            r@ == self@,
    {
        Config { axelarnet_gateway: self.axelarnet_gateway.clone() }
    }
}

/// Per-chain limits and the freeze flag that gates further accounting.
#[derive(Debug, PartialEq, Eq)]
pub struct ChainConfig {
    pub max_uint: NonZeroUint256,
    pub max_target_decimals: u8,
    frozen: bool,
}

/// The mathematical value of a `ChainConfig`.
pub struct ChainConfigView {
    pub max_uint: nat,
    pub max_target_decimals: u8,
    pub frozen: bool,
}

impl View for ChainConfig {
    type V = ChainConfigView;

    closed spec fn view(&self) -> ChainConfigView {
        ChainConfigView {
            max_uint: self.max_uint@,
            max_target_decimals: self.max_target_decimals,
            frozen: self.frozen,
        }
    }
}

impl Clone for ChainConfig {
    fn clone(&self) -> (r: Self)
        ensures
            r@ == self@,
    {
        ChainConfig {
            max_uint: self.max_uint,
            max_target_decimals: self.max_target_decimals,
            frozen: self.frozen,
        }
    }
}

impl ChainConfig {
    /// Whether accounting for the chain is suspended.
    pub fn is_frozen(&self) -> (r: bool)
        ensures
            r == self@.frozen,
    {
        self.frozen
    }
}

impl StoreValue for ChainConfig {
    fn val_dup(&self) -> (r: Self) {
        self.clone()
    }
}

/// The supply of a token bridged to a chain.
#[derive(Debug, PartialEq, Eq)]
pub enum TokenSupply {
    /// The total bridged supply; no more than this may be bridged back.
    Counted(Uint256),
    /// The supply on this chain is not accounted for.
    Untracked,
}

/// The mathematical value of a `TokenSupply`.
pub enum TokenSupplyView {
    Counted(nat),
    Untracked,
}

impl View for TokenSupply {
    type V = TokenSupplyView;

    open spec fn view(&self) -> TokenSupplyView {
        match self {
            TokenSupply::Counted(v) => TokenSupplyView::Counted(v@),
            TokenSupply::Untracked => TokenSupplyView::Untracked,
        }
    }
}

impl Clone for TokenSupply {
    fn clone(&self) -> (r: Self)
        ensures
            r@ == self@,
    {
        match self {
            TokenSupply::Counted(v) => TokenSupply::Counted(*v),
            TokenSupply::Untracked => TokenSupply::Untracked,
        }
    }
}

impl TokenSupply {
    /// Credit the amount. An untracked supply absorbs any credit and always
    /// succeeds; a tracked supply grows, or fails with `Overflow` when the
    /// sum would leave 256 bits.
    pub fn checked_add(self, amount: NonZeroUint256) -> (r: Result<Self, OverflowError>)
        ensures
            self@ is Untracked ==> (r matches Ok(v) && v@ is Untracked),
            self@ matches TokenSupplyView::Counted(n) ==> {
                &&& n + amount@ < amount_bound() ==> (r matches Ok(v) && v@
                    == TokenSupplyView::Counted((n + amount@) as nat))
                &&& n + amount@ >= amount_bound() ==> r == Err::<TokenSupply, OverflowError>(
                    OverflowError::Overflow,
                )
            },
    {
        match self {
            TokenSupply::Untracked => Ok(TokenSupply::Untracked),
            TokenSupply::Counted(supply) => match supply.checked_add(amount.get()) {
                Ok(v) => Ok(TokenSupply::Counted(v)),
                Err(e) => Err(e),
            },
        }
    }

    /// Debit the amount. An untracked supply absorbs any debit and always
    /// succeeds; a tracked supply shrinks, or fails with `Underflow` when
    /// the amount exceeds it.
    pub fn checked_sub(self, amount: NonZeroUint256) -> (r: Result<Self, OverflowError>)
        ensures
            self@ is Untracked ==> (r matches Ok(v) && v@ is Untracked),
            self@ matches TokenSupplyView::Counted(n) ==> {
                &&& amount@ <= n ==> (r matches Ok(v) && v@ == TokenSupplyView::Counted(
                    (n - amount@) as nat,
                ))
                &&& amount@ > n ==> r == Err::<TokenSupply, OverflowError>(
                    OverflowError::Underflow,
                )
            },
    {
        match self {
            TokenSupply::Untracked => Ok(TokenSupply::Untracked),
            TokenSupply::Counted(supply) => match supply.checked_sub(amount.get()) {
                Ok(v) => Ok(TokenSupply::Counted(v)),
                Err(e) => Err(e),
            },
        }
    }
}

/// How a token came to exist on a chain.
#[derive(Debug, PartialEq, Eq, Structural)]
pub enum TokenDeploymentType {
    /// The token is owned by the service alone.
    Trustless,
    /// The token has a custom minter.
    CustomMinter,
}

/// A token as it exists on one chain.
#[derive(Debug, PartialEq, Eq)]
pub struct TokenInstance {
    pub supply: TokenSupply,
    pub decimals: Option<u8>,
}

/// The mathematical value of a `TokenInstance`.
pub struct TokenInstanceView {
    pub supply: TokenSupplyView,
    pub decimals: Option<u8>,
}

impl View for TokenInstance {
    type V = TokenInstanceView;

    open spec fn view(&self) -> TokenInstanceView {
        TokenInstanceView { supply: self.supply@, decimals: self.decimals }
    }
}

impl Clone for TokenInstance {
    fn clone(&self) -> (r: Self)
        ensures
            r@ == self@,
    {
        TokenInstance { supply: self.supply.clone(), decimals: self.decimals }
    }
}

impl StoreValue for TokenInstance {
    fn val_dup(&self) -> (r: Self) {
        self.clone()
    }
}

impl TokenInstance {
    /// The instance on the token's origin chain: supply is not tracked.
    pub fn new_on_origin(decimals: Option<u8>) -> (r: Self)
        ensures
            r@.supply is Untracked,
            r@.decimals == decimals,
    {
        TokenInstance { supply: TokenSupply::Untracked, decimals }
    }

    /// The instance on a remote chain: a trustless deployment starts its
    /// accounting at zero, any other is not tracked.
    pub fn new(deployment_type: &TokenDeploymentType, decimals: Option<u8>) -> (r: Self)
        ensures
            deployment_type is Trustless ==> r@.supply == TokenSupplyView::Counted(0),
            !(deployment_type is Trustless) ==> r@.supply is Untracked,
            r@.decimals == decimals,
    {
        let supply = match deployment_type {
            TokenDeploymentType::Trustless => TokenSupply::Counted(Uint256::zero()),
            _ => TokenSupply::Untracked,
        };
        TokenInstance { supply, decimals }
    }
}

/// The global identifier of a token.
#[derive(Debug, PartialEq, Eq)]
pub struct TokenId {
    pub id: Vec<u8>,
}

impl View for TokenId {
    type V = Seq<u8>;

    open spec fn view(&self) -> Seq<u8> {
        self.id@
    }
}

impl Clone for TokenId {
    fn clone(&self) -> (r: Self)
        ensures
            r@ == self@,
    {
        let r = TokenId { id: self.id.clone() };
        proof {
            assert(r.id@ =~= self.id@);
        }
        r
    }
}

impl StoreKey for TokenId {
    fn key_eq(&self, other: &Self) -> (r: bool) {
        bytes_eq(&self.id, &other.id)
    }

    fn key_dup(&self) -> (r: Self) {
        self.clone()
    }
}

/// The key of a token instance: the chain it lives on and the token's id.
#[derive(Debug, PartialEq, Eq)]
pub struct TokenInstanceKey {
    pub chain: ChainName,
    pub token_id: TokenId,
}

/// The mathematical value of a `TokenInstanceKey`.
pub struct TokenInstanceKeyView {
    pub chain: Seq<char>,
    pub token_id: Seq<u8>,
}

impl View for TokenInstanceKey {
    type V = TokenInstanceKeyView;

    open spec fn view(&self) -> TokenInstanceKeyView {
        TokenInstanceKeyView { chain: self.chain@, token_id: self.token_id@ }
    }
}

impl Clone for TokenInstanceKey {
    fn clone(&self) -> (r: Self)
        ensures
            r@ == self@,
    {
        TokenInstanceKey { chain: self.chain.clone(), token_id: self.token_id.clone() }
    }
}

impl StoreKey for TokenInstanceKey {
    fn key_eq(&self, other: &Self) -> (r: bool) {
        self.chain.same(&other.chain) && bytes_eq(&self.token_id.id, &other.token_id.id)
    }

    fn key_dup(&self) -> (r: Self) {
        self.clone()
    }
}

/// Where a token came from, set once at first registration.
#[derive(Debug, PartialEq, Eq)]
pub struct TokenConfig {
    pub origin_chain: ChainName,
}

/// The mathematical value of a `TokenConfig`.
pub struct TokenConfigView {
    pub origin_chain: Seq<char>,
}

impl View for TokenConfig {
    type V = TokenConfigView;

    open spec fn view(&self) -> TokenConfigView {
        TokenConfigView { origin_chain: self.origin_chain@ }
    }
}

impl Clone for TokenConfig {
    fn clone(&self) -> (r: Self)
        ensures
            r@ == self@,
    {
        TokenConfig { origin_chain: self.origin_chain.clone() }
    }
}

impl StoreValue for TokenConfig {
    fn val_dup(&self) -> (r: Self) {
        self.clone()
    }
}

/// The hub's slice of the host's store: each logical table is its own
/// namespace.
pub struct HubStorage {
    config: Option<Config>,
    its_contracts: Table<ChainName, Address>,
    chain_configs: Table<ChainName, ChainConfig>,
    token_instances: Table<TokenInstanceKey, TokenInstance>,
    token_configs: Table<TokenId, TokenConfig>,
}

impl HubStorage {
    pub closed spec fn config_view(&self) -> Option<ConfigView> {
        match self.config {
            Some(c) => Some(c@),
            None => None,
        }
    }

    /// The registered service contracts, by chain.
    pub closed spec fn its_contracts(&self) -> Map<Seq<char>, Seq<char>> {
        self.its_contracts.as_map()
    }

    /// The registered service contracts, in registration order.
    pub closed spec fn its_contracts_seq(&self) -> Seq<(Seq<char>, Seq<char>)> {
        self.its_contracts.entries_view()
    }

    /// The per-chain configurations, by chain.
    pub closed spec fn chain_configs(&self) -> Map<Seq<char>, ChainConfigView> {
        self.chain_configs.as_map()
    }

    /// The token instances, by chain and token id.
    pub closed spec fn token_instances(&self) -> Map<TokenInstanceKeyView, TokenInstanceView> {
        self.token_instances.as_map()
    }

    /// The token configurations, by token id.
    pub closed spec fn token_configs(&self) -> Map<Seq<u8>, TokenConfigView> {
        self.token_configs.as_map()
    }

    pub closed spec fn wf(&self) -> bool {
        &&& self.its_contracts.wf()
        &&& self.chain_configs.wf()
        &&& self.token_instances.wf()
        &&& self.token_configs.wf()
    }

    pub fn new() -> (r: Self)
        ensures
            r.wf(),
            r.config_view() is None,
            r.its_contracts() == Map::<Seq<char>, Seq<char>>::empty(),
            r.its_contracts_seq() == Seq::<(Seq<char>, Seq<char>)>::empty(),
            r.chain_configs() == Map::<Seq<char>, ChainConfigView>::empty(),
            r.token_instances() == Map::<TokenInstanceKeyView, TokenInstanceView>::empty(),
            r.token_configs() == Map::<Seq<u8>, TokenConfigView>::empty(),
    {
        HubStorage {
            config: None,
            its_contracts: Table::new(),
            chain_configs: Table::new(),
            token_instances: Table::new(),
            token_configs: Table::new(),
        }
    }
}

/// Read the configuration; it must have been set at instantiation.
pub fn load_config(storage: &HubStorage) -> (r: Config)
    requires
        storage.config_view() is Some,
    ensures
        Some(r@) == storage.config_view(),
{
    match &storage.config {
        Some(c) => c.clone(),
        None => unreached(),
    }
}

/// Write the configuration.
pub fn save_config(storage: &mut HubStorage, config: &Config) -> (r: Result<(), Error>)
    requires
        old(storage).wf(),
    ensures
        final(storage).wf(),
        r is Ok,
        final(storage).config_view() == Some(config@),
        final(storage).its_contracts_seq() == old(storage).its_contracts_seq(),
        final(storage).chain_configs() == old(storage).chain_configs(),
        final(storage).token_instances() == old(storage).token_instances(),
        final(storage).token_configs() == old(storage).token_configs(),
{
    storage.config = Some(config.clone());
    Ok(())
}

/// Look a chain's configuration up; absence is not an error.
pub fn may_load_chain_config(storage: &HubStorage, chain: &ChainName) -> (r: Result<
    Option<ChainConfig>,
    Error,
>)
    requires
        storage.wf(),
    ensures
        r matches Ok(o),
        match r {
            Ok(Some(c)) => storage.chain_configs().contains_key(chain@) && c@
                == storage.chain_configs()[chain@],
            Ok(None) => !storage.chain_configs().contains_key(chain@),
            Err(_) => false,
        },
{
    Ok(storage.chain_configs.get(chain))
}

/// Read a chain's configuration; an unregistered chain is `ChainNotFound`.
pub fn load_chain_config(storage: &HubStorage, chain: &ChainName) -> (r: Result<
    ChainConfig,
    Error,
>)
    requires
        storage.wf(),
    ensures
        match r {
            Ok(c) => storage.chain_configs().contains_key(chain@) && c@
                == storage.chain_configs()[chain@],
            Err(e) => !storage.chain_configs().contains_key(chain@) && (e matches
                Error::ChainNotFound(c) && c@ == chain@),
        },
{
    match storage.chain_configs.get(chain) {
        Some(c) => Ok(c),
        None => Err(Error::ChainNotFound(chain.clone())),
    }
}

/// Register or overwrite a chain's configuration; the chain starts, or
/// starts again, unfrozen.
pub fn save_chain_config(
    storage: &mut HubStorage,
    chain: &ChainName,
    max_uint: NonZeroUint256,
    max_target_decimals: u8,
) -> (r: Result<(), Error>)
    requires
        old(storage).wf(),
    ensures
        final(storage).wf(),
        r is Ok,
        final(storage).chain_configs() == old(storage).chain_configs().insert(
            chain@,
            ChainConfigView { max_uint: max_uint@, max_target_decimals, frozen: false },
        ),
        final(storage).config_view() == old(storage).config_view(),
        final(storage).its_contracts_seq() == old(storage).its_contracts_seq(),
        final(storage).token_instances() == old(storage).token_instances(),
        final(storage).token_configs() == old(storage).token_configs(),
{
    storage.chain_configs.insert(
        chain.key_dup(),
        ChainConfig { max_uint, max_target_decimals, frozen: false },
    );
    Ok(())
}

/// Look a chain's service contract up; absence is not an error.
pub fn may_load_its_contract(storage: &HubStorage, chain: &ChainName) -> (r: Result<
    Option<Address>,
    Error,
>)
    requires
        storage.wf(),
    ensures
        r matches Ok(o),
        match r {
            Ok(Some(a)) => storage.its_contracts().contains_key(chain@) && a@
                == storage.its_contracts()[chain@],
            Ok(None) => !storage.its_contracts().contains_key(chain@),
            Err(_) => false,
        },
{
    Ok(storage.its_contracts.get(chain))
}

/// Read a chain's service contract; absence is `ItsContractNotFound`.
pub fn load_its_contract(storage: &HubStorage, chain: &ChainName) -> (r: Result<Address, Error>)
    requires
        storage.wf(),
    ensures
        match r {
            Ok(a) => storage.its_contracts().contains_key(chain@) && a@
                == storage.its_contracts()[chain@],
            Err(e) => !storage.its_contracts().contains_key(chain@) && (e matches
                Error::ItsContractNotFound(c) && c@ == chain@),
        },
{
    match storage.its_contracts.get(chain) {
        Some(a) => Ok(a),
        None => Err(Error::ItsContractNotFound(chain.clone())),
    }
}

/// Register a chain's service contract once; registering a second one for
/// the same chain is `ItsContractAlreadyRegistered`.
pub fn save_its_contract(storage: &mut HubStorage, chain: &ChainName, address: &Address) -> (r:
    Result<(), Error>)
    requires
        old(storage).wf(),
    ensures
        final(storage).wf(),
        match r {
            Ok(_) => !old(storage).its_contracts().contains_key(chain@) && final(storage).its_contracts_seq() == old(storage).its_contracts_seq().push((chain@, address@))
                && final(storage).its_contracts() == old(storage).its_contracts().insert(
                chain@,
                address@,
            ),
            Err(e) => old(storage).its_contracts().contains_key(chain@) && (e matches
                Error::ItsContractAlreadyRegistered(c) && c@ == chain@) && *final(storage) == *old(storage),
        },
        final(storage).config_view() == old(storage).config_view(),
        final(storage).chain_configs() == old(storage).chain_configs(),
        final(storage).token_instances() == old(storage).token_instances(),
        final(storage).token_configs() == old(storage).token_configs(),
{
    if storage.its_contracts.contains_key(chain) {
        return Err(Error::ItsContractAlreadyRegistered(chain.clone()));
    }
    storage.its_contracts.insert(chain.key_dup(), address.val_dup());
    Ok(())
}

/// Remove a chain's service contract; absence is `ItsContractNotFound`.
pub fn remove_its_contract(storage: &mut HubStorage, chain: &ChainName) -> (r: Result<(), Error>)
    requires
        old(storage).wf(),
    ensures
        final(storage).wf(),
        match r {
            Ok(_) => old(storage).its_contracts().contains_key(chain@) && final(storage).its_contracts() == old(storage).its_contracts().remove(chain@),
            Err(e) => !old(storage).its_contracts().contains_key(chain@) && (e matches
                Error::ItsContractNotFound(c) && c@ == chain@) && *final(storage) == *old(storage),
        },
        final(storage).config_view() == old(storage).config_view(),
        final(storage).chain_configs() == old(storage).chain_configs(),
        final(storage).token_instances() == old(storage).token_instances(),
        final(storage).token_configs() == old(storage).token_configs(),
{
    if !storage.its_contracts.contains_key(chain) {
        return Err(Error::ItsContractNotFound(chain.clone()));
    }
    let _ = storage.its_contracts.remove(chain);
    Ok(())
}

/// Every registered service contract, in registration order.
pub fn load_all_its_contracts(storage: &HubStorage) -> (r: Result<Vec<(ChainName, Address)>, Error>)
    requires
        storage.wf(),
    ensures
        r matches Ok(v) && v@.map_values(|p: (ChainName, Address)| (p.0@, p.1@))
            == storage.its_contracts_seq(),
{
    Ok(storage.its_contracts.all())
}

/// Whether the chain's accounting is suspended; an unregistered chain is
/// `ChainNotFound`.
pub fn is_chain_frozen(storage: &HubStorage, chain: &ChainName) -> (r: Result<bool, Error>)
    requires
        storage.wf(),
    ensures
        match r {
            Ok(b) => storage.chain_configs().contains_key(chain@) && b
                == storage.chain_configs()[chain@].frozen,
            Err(e) => !storage.chain_configs().contains_key(chain@) && (e matches
                Error::ChainNotFound(c) && c@ == chain@),
        },
{
    match storage.chain_configs.get(chain) {
        Some(c) => Ok(c.is_frozen()),
        None => Err(Error::ChainNotFound(chain.clone())),
    }
}

/// A chain's configuration with the freeze flag raised.
pub open spec fn frozen_config(c: ChainConfigView) -> ChainConfigView {
    ChainConfigView { frozen: true, ..c }
}

/// A chain's configuration with the freeze flag cleared.
pub open spec fn unfrozen_config(c: ChainConfigView) -> ChainConfigView {
    ChainConfigView { frozen: false, ..c }
}

/// Suspend the chain's accounting; an unregistered chain is `ChainNotFound`.
/// Hands back the updated configuration.
pub fn freeze_chain(storage: &mut HubStorage, chain: &ChainName) -> (r: Result<ChainConfig, Error>)
    requires
        old(storage).wf(),
    ensures
        final(storage).wf(),
        match r {
            Ok(c) => old(storage).chain_configs().contains_key(chain@) && c@ == frozen_config(
                old(storage).chain_configs()[chain@],
            ) && final(storage).chain_configs() == old(storage).chain_configs().insert(
                chain@,
                c@,
            ),
            Err(e) => !old(storage).chain_configs().contains_key(chain@) && (e matches
                Error::ChainNotFound(c) && c@ == chain@) && *final(storage) == *old(storage),
        },
        final(storage).config_view() == old(storage).config_view(),
        final(storage).its_contracts_seq() == old(storage).its_contracts_seq(),
        final(storage).token_instances() == old(storage).token_instances(),
        final(storage).token_configs() == old(storage).token_configs(),
{
    match storage.chain_configs.get(chain) {
        Some(c) => {
            let updated = ChainConfig {
                max_uint: c.max_uint,
                max_target_decimals: c.max_target_decimals,
                frozen: true,
            };
            storage.chain_configs.insert(chain.key_dup(), updated.clone());
            Ok(updated)
        },
        None => Err(Error::ChainNotFound(chain.clone())),
    }
}

/// Resume the chain's accounting; an unregistered chain is `ChainNotFound`.
/// Hands back the updated configuration.
pub fn unfreeze_chain(storage: &mut HubStorage, chain: &ChainName) -> (r: Result<
    ChainConfig,
    Error,
>)
    requires
        old(storage).wf(),
    ensures
        final(storage).wf(),
        match r {
            Ok(c) => old(storage).chain_configs().contains_key(chain@) && c@ == unfrozen_config(
                old(storage).chain_configs()[chain@],
            ) && final(storage).chain_configs() == old(storage).chain_configs().insert(
                chain@,
                c@,
            ),
            Err(e) => !old(storage).chain_configs().contains_key(chain@) && (e matches
                Error::ChainNotFound(c) && c@ == chain@) && *final(storage) == *old(storage),
        },
        final(storage).config_view() == old(storage).config_view(),
        final(storage).its_contracts_seq() == old(storage).its_contracts_seq(),
        final(storage).token_instances() == old(storage).token_instances(),
        final(storage).token_configs() == old(storage).token_configs(),
{
    match storage.chain_configs.get(chain) {
        Some(c) => {
            let updated = ChainConfig {
                max_uint: c.max_uint,
                max_target_decimals: c.max_target_decimals,
                frozen: false,
            };
            storage.chain_configs.insert(chain.key_dup(), updated.clone());
            Ok(updated)
        },
        None => Err(Error::ChainNotFound(chain.clone())),
    }
}

/// Freezing and then unfreezing a registered chain returns it to
/// `frozen == false` with its limits untouched; a chain that was unfrozen
/// before is exactly where it started.
pub proof fn lemma_freeze_unfreeze_round_trip(m: Map<Seq<char>, ChainConfigView>, chain: Seq<char>)
    requires
        m.contains_key(chain),
    ensures
        ({
            let after = m.insert(chain, frozen_config(m[chain])).insert(
                chain,
                unfrozen_config(frozen_config(m[chain])),
            );
            &&& after == m.insert(chain, unfrozen_config(m[chain]))
            &&& !m[chain].frozen ==> after == m
        }),
{
    let after = m.insert(chain, frozen_config(m[chain])).insert(
        chain,
        unfrozen_config(frozen_config(m[chain])),
    );
    assert(after =~= m.insert(chain, unfrozen_config(m[chain])));
    if !m[chain].frozen {
        assert(unfrozen_config(m[chain]) == m[chain]);
        assert(after =~= m);
    }
}

/// Write a token's instance on a chain.
pub fn save_token_instance(
    storage: &mut HubStorage,
    chain: ChainName,
    token_id: TokenId,
    token_instance: &TokenInstance,
) -> (r: Result<(), Error>)
    requires
        old(storage).wf(),
    ensures
        final(storage).wf(),
        r is Ok,
        final(storage).token_instances() == old(storage).token_instances().insert(
            TokenInstanceKeyView { chain: chain@, token_id: token_id@ },
            token_instance@,
        ),
        final(storage).config_view() == old(storage).config_view(),
        final(storage).its_contracts_seq() == old(storage).its_contracts_seq(),
        final(storage).chain_configs() == old(storage).chain_configs(),
        final(storage).token_configs() == old(storage).token_configs(),
{
    storage.token_instances.insert(
        TokenInstanceKey { chain, token_id },
        token_instance.val_dup(),
    );
    Ok(())
}

/// Look a token's instance on a chain up; absence is not an error.
pub fn may_load_token_instance(storage: &HubStorage, chain: ChainName, token_id: TokenId) -> (r:
    Result<Option<TokenInstance>, Error>)
    requires
        storage.wf(),
    ensures
        r matches Ok(o),
        match r {
            Ok(Some(t)) => storage.token_instances().contains_key(
                TokenInstanceKeyView { chain: chain@, token_id: token_id@ },
            ) && t@ == storage.token_instances()[TokenInstanceKeyView {
                chain: chain@,
                token_id: token_id@,
            }],
            Ok(None) => !storage.token_instances().contains_key(
                TokenInstanceKeyView { chain: chain@, token_id: token_id@ },
            ),
            Err(_) => false,
        },
{
    let key = TokenInstanceKey { chain, token_id };
    Ok(storage.token_instances.get(&key))
}

/// Look a token's configuration up; absence is not an error.
pub fn may_load_token_config(storage: &HubStorage, token_id: &TokenId) -> (r: Result<
    Option<TokenConfig>,
    Error,
>)
    requires
        storage.wf(),
    ensures
        r matches Ok(o),
        match r {
            Ok(Some(t)) => storage.token_configs().contains_key(token_id@) && t@
                == storage.token_configs()[token_id@],
            Ok(None) => !storage.token_configs().contains_key(token_id@),
            Err(_) => false,
        },
{
    Ok(storage.token_configs.get(token_id))
}

/// Write a token's configuration.
pub fn save_token_config(
    storage: &mut HubStorage,
    token_id: &TokenId,
    token_config: &TokenConfig,
) -> (r: Result<(), Error>)
    requires
        old(storage).wf(),
    ensures
        final(storage).wf(),
        r is Ok,
        final(storage).token_configs() == old(storage).token_configs().insert(
            token_id@,
            token_config@,
        ),
        final(storage).config_view() == old(storage).config_view(),
        final(storage).its_contracts_seq() == old(storage).its_contracts_seq(),
        final(storage).chain_configs() == old(storage).chain_configs(),
        final(storage).token_instances() == old(storage).token_instances(),
{
    storage.token_configs.insert(token_id.key_dup(), token_config.val_dup());
    Ok(())
}

} // verus!
