//! The factory: its state, the requests that change it, and the queries over it.
use vstd::prelude::*;

use crate::assets::{check_asset_infos, distinct_ids, has_distinct_ids, pair_key, pair_key_of, valid_asset_set, AssetInfo};
use crate::config::{
    all_fees_valid, lemma_sorted_types_unique, sorted_types, type_keys,
    upsert_all, find_type, has_type, type_index, unique_types, upsert_type, upserted, updated_config, Config,
    PairConfig, PairType, UpdateConfig,
};
use crate::error::ContractError;
use crate::lex::{lemma_lex_transitive, lex_less, lex_lt, strictly_sorted};
use crate::registry::{page_size, PairRegistry};

verus! {

/// The tag that the factory puts on its request to instantiate a pair, and
/// that the callback must carry.
pub const INSTANTIATE_PAIR_REPLY_ID: u64 = 1;

/// An offer of ownership, open to `owner` until the time `ttl` (in seconds).
pub struct OwnershipProposal {
    pub owner: String,
    pub ttl: u64,
}

/// Everything the factory stores.
pub struct FactoryState {
    pub config: Config,
    /// The pair types, at most one entry of each.
    pub pair_configs: Vec<PairConfig>,
    pub pairs: PairRegistry,
    /// The key of the pair whose contract is being instantiated, kept after
    /// registration so that a repeated callback is refused.
    pub pending: Option<Vec<u8>>,
    pub proposal: Option<OwnershipProposal>,
}

impl FactoryState {
    pub open spec fn wf(&self) -> bool {
        &&& self.pairs.wf()
        &&& sorted_types(self.pair_configs@)
        &&& unique_types(self.pair_configs@)
        &&& all_fees_valid(self.pair_configs@)
    }

    /// Whether the state is well formed, as every request asks it to be;
    /// for a state read back from storage.
    pub fn check_wf(&self) -> (r: bool)
        ensures
            r == self.wf(),
    {
        if !self.pairs.check_wf() {
            return false;
        }
        let s = &self.pair_configs;
        let n = s.len();
        let ghost ks = type_keys(s@);
        let mut i: usize = 0;
        while i < n
            invariant
                n == s@.len(),
                s@ == self.pair_configs@,
                ks == type_keys(s@),
                i <= n,
                forall|a: int| 0 <= a < i ==> (#[trigger] s@[a]).fees_valid(),
                forall|a: int, b: int| 0 <= a < b < i ==> lex_lt(#[trigger] ks[a], #[trigger] ks[b]),
            decreases n - i,
        {
            if !s[i].valid_fee_bps() {
                assert(!self.pair_configs@[i as int].fees_valid());
                return false;
            }
            if i > 0 {
                let before = s[i - 1].pair_type.key_bytes();
                let here = s[i].pair_type.key_bytes();
                assert(ks[i - 1] == before@ && ks[i as int] == here@);
                if !lex_less(before.as_slice(), here.as_slice()) {
                    return false;
                }
                assert forall|a: int, b: int| 0 <= a < b < i + 1 implies lex_lt(
                    #[trigger] ks[a],
                    #[trigger] ks[b],
                ) by {
                    if b == i && a < i - 1 {
                        lemma_lex_transitive(ks[a], ks[i - 1], ks[b]);
                    }
                }
            }
            i = i + 1;
        }
        proof {
            lemma_sorted_types_unique(s@);
        }
        true
    }
}

/// What the factory is set up with.
pub struct InstantiateMsg {
    pub pair_configs: Vec<PairConfig>,
    pub token_code_id: u64,
    pub fee_address: Option<String>,
    pub owner: String,
    pub incentives_address: Option<String>,
    pub coin_registry_address: String,
}

/// The request to instantiate a new pair contract, to be sent by the host.
pub struct PairInstantiation {
    /// Code of the pair contract, from the pair type.
    pub code_id: u64,
    pub pair_type: PairType,
    pub asset_infos: Vec<AssetInfo>,
    pub token_code_id: u64,
    /// The factory's owner, who administers the new contract.
    pub admin: String,
    pub init_params: Option<Vec<u8>>,
    /// The asset identifiers joined by `-`, for the event.
    pub pair_label: String,
}

/// A pair that was removed, and the rewards contract to tell about it.
pub struct Deregistration {
    pub pair_addr: String,
    pub incentives_address: Option<String>,
}

/// The general settings together with every pair type.
pub struct ConfigResponse {
    pub owner: String,
    pub token_code_id: u64,
    pub pair_configs: Vec<PairConfig>,
    pub fee_address: Option<String>,
    pub incentives_address: Option<String>,
    pub coin_registry_address: String,
}

/// The fees of one pair type and where the maker's share goes.
pub struct FeeInfoResponse {
    pub fee_address: Option<String>,
    pub total_fee_bps: u16,
    pub maker_fee_bps: u16,
}

/// The parts joined with `sep` between each two.
pub open spec fn joined(parts: Seq<Seq<char>>, sep: Seq<char>) -> Seq<char>
    decreases parts.len(),
{
    if parts.len() == 0 {
        Seq::empty()
    } else if parts.len() == 1 {
        parts[0]
    } else {
        joined(parts.drop_last(), sep) + sep + parts.last()
    }
}

/// Relies on itertools::Itertools::join: the strings with `sep` between each two.
#[verifier::external_body]
fn join_parts(parts: &Vec<String>, sep: &str) -> (r: String)
    ensures
        r@ == joined(parts@.map_values(|p: String| p@), sep@),
{
    itertools::Itertools::join(&mut parts.iter(), sep)
}

/// The contract address that an instantiate response, in its protobuf
/// encoding, carries; `None` where the bytes cannot be decoded.
pub uninterp spec fn instantiated_address(data: Seq<u8>) -> Option<Seq<char>>;

/// Relies on cw_utils::parse_instantiate_response_data: decodes the response
/// of an instantiation and yields the new contract's address.
#[verifier::external_body]
fn parse_instantiate_address(data: &[u8]) -> (r: Option<String>)
    ensures
        r is None <==> instantiated_address(data@) is None,
        r matches Some(a) ==> instantiated_address(data@) == Some(a@),
{
    match cw_utils::parse_instantiate_response_data(data) {
        Ok(res) => Some(res.contract_address),
        Err(_) => None,
    }
}

// ---------------------------------------------------------------------------
// Set-up

/// Why the set-up fails, if it does.
pub open spec fn instantiate_error(msg: InstantiateMsg) -> Option<ContractError> {
    if !unique_types(msg.pair_configs@) {
        Some(ContractError::PairConfigDuplicate)
    } else if exists|i: int|
        0 <= i < msg.pair_configs@.len() && !(#[trigger] msg.pair_configs@[i]).fees_valid() {
        Some(ContractError::PairConfigInvalidFeeBps)
    } else {
        None
    }
}

/// Sets up the factory: the pair types must be distinct and their fees valid.
pub fn instantiate(msg: InstantiateMsg) -> (r: Result<FactoryState, ContractError>)
    ensures
        match r {
            Err(e) => instantiate_error(msg) == Some(e),
            Ok(s) => {
                &&& instantiate_error(msg) is None
                &&& s.wf()
                &&& s.config == (Config {
                    owner: msg.owner,
                    token_code_id: msg.token_code_id,
                    fee_address: msg.fee_address,
                    incentives_address: msg.incentives_address,
                    coin_registry_address: msg.coin_registry_address,
                })
                &&& s.pair_configs@ == upsert_all(msg.pair_configs@)
                &&& s.pairs@ == Map::<Seq<u8>, String>::empty()
                &&& s.pending is None
                &&& s.proposal is None
            },
        },
{
    let n = msg.pair_configs.len();
    let mut i: usize = 0;
    while i < n
        invariant
            n == msg.pair_configs@.len(),
            i <= n,
            forall|a: int, b: int|
                0 <= a < i && 0 <= b < n && a != b ==> !(#[trigger] msg.pair_configs@[a]).pair_type.same(
                    &(#[trigger] msg.pair_configs@[b]).pair_type,
                ),
        decreases n - i,
    {
        let mut j: usize = 0;
        while j < n
            invariant
                n == msg.pair_configs@.len(),
                i < n,
                j <= n,
                forall|a: int, b: int|
                    0 <= a < i && 0 <= b < n && a != b ==> !(#[trigger] msg.pair_configs@[a]).pair_type.same(
                        &(#[trigger] msg.pair_configs@[b]).pair_type,
                    ),
                forall|b: int|
                    0 <= b < j && b != i ==> !msg.pair_configs@[i as int].pair_type.same(
                        &(#[trigger] msg.pair_configs@[b]).pair_type,
                    ),
            decreases n - j,
        {
            if j != i && msg.pair_configs[i].pair_type.same_as(&msg.pair_configs[j].pair_type) {
                return Err(ContractError::PairConfigDuplicate);
            }
            j = j + 1;
        }
        i = i + 1;
    }
    let mut k: usize = 0;
    while k < n
        invariant
            n == msg.pair_configs@.len(),
            k <= n,
            unique_types(msg.pair_configs@),
            forall|a: int| 0 <= a < k ==> (#[trigger] msg.pair_configs@[a]).fees_valid(),
        decreases n - k,
    {
        if !msg.pair_configs[k].valid_fee_bps() {
            return Err(ContractError::PairConfigInvalidFeeBps);
        }
        k = k + 1;
    }
    let mut pair_configs: Vec<PairConfig> = Vec::new();
    let mut m: usize = 0;
    while m < n
        invariant
            n == msg.pair_configs@.len(),
            m <= n,
            all_fees_valid(msg.pair_configs@),
            unique_types(msg.pair_configs@),
            sorted_types(pair_configs@),
            unique_types(pair_configs@),
            all_fees_valid(pair_configs@),
            pair_configs@ == upsert_all(msg.pair_configs@.take(m as int)),
        decreases n - m,
    {
        let ghost before = pair_configs@;
        let c = msg.pair_configs[m].copy();
        assert(msg.pair_configs@.take(m + 1).drop_last() =~= msg.pair_configs@.take(m as int));
        upsert_type(&mut pair_configs, c);
        m = m + 1;
    }
    assert(msg.pair_configs@.take(n as int) =~= msg.pair_configs@);
    Ok(
        FactoryState {
            config: Config {
                owner: msg.owner,
                token_code_id: msg.token_code_id,
                fee_address: msg.fee_address,
                incentives_address: msg.incentives_address,
                coin_registry_address: msg.coin_registry_address,
            },
            pair_configs,
            pairs: PairRegistry::new(),
            pending: None,
            proposal: None,
        },
    )
}

// ---------------------------------------------------------------------------
// Settings and pair types

/// What a change of the general settings does.
pub open spec fn update_config_post(
    s: FactoryState,
    t: FactoryState,
    sender: Seq<char>,
    param: UpdateConfig,
    r: Result<(), ContractError>,
) -> bool {
    if sender != s.config.owner@ {
        r == Err::<(), ContractError>(ContractError::Unauthorized) && t == s
    } else {
        r is Ok && t == (FactoryState { config: updated_config(s.config, param), ..s })
    }
}

/// Changes the general settings; only the owner may.
pub fn execute_update_config(state: &mut FactoryState, sender: &String, param: UpdateConfig) -> (r:
    Result<(), ContractError>)
    requires
        old(state).wf(),
    ensures
        final(state).wf(),
        update_config_post(*old(state), *final(state), sender@, param, r),
{
    if !sender.eq(&state.config.owner) {
        return Err(ContractError::Unauthorized);
    }
    if let Some(a) = param.fee_address {
        state.config.fee_address = Some(a);
    }
    if let Some(a) = param.incentives_address {
        state.config.incentives_address = Some(a);
    }
    if let Some(v) = param.token_code_id {
        state.config.token_code_id = v;
    }
    if let Some(a) = param.coin_registry_address {
        state.config.coin_registry_address = a;
    }
    Ok(())
}

/// What adding or changing a pair type does.
pub open spec fn update_pair_config_post(
    s: FactoryState,
    t: FactoryState,
    sender: Seq<char>,
    c: PairConfig,
    r: Result<(), ContractError>,
) -> bool {
    if sender != s.config.owner@ {
        r == Err::<(), ContractError>(ContractError::Unauthorized) && t == s
    } else if !c.fees_valid() {
        r == Err::<(), ContractError>(ContractError::PairConfigInvalidFeeBps) && t == s
    } else {
        &&& r is Ok
        &&& t.pair_configs@ == upserted(s.pair_configs@, c)
        &&& t.config == s.config
        &&& t.pairs == s.pairs
        &&& t.pending == s.pending
        &&& t.proposal == s.proposal
    }
}

/// Adds a pair type, or replaces the entry of its type; only the owner may.
pub fn execute_update_pair_config(
    state: &mut FactoryState,
    sender: &String,
    pair_config: PairConfig,
) -> (r: Result<(), ContractError>)
    requires
        old(state).wf(),
    ensures
        final(state).wf(),
        update_pair_config_post(*old(state), *final(state), sender@, pair_config, r),
{
    if !sender.eq(&state.config.owner) {
        return Err(ContractError::Unauthorized);
    }
    if !pair_config.valid_fee_bps() {
        return Err(ContractError::PairConfigInvalidFeeBps);
    }
    let ghost g = pair_config;
    upsert_type(&mut state.pair_configs, pair_config);
    Ok(())
}

// ---------------------------------------------------------------------------
// Creating pairs

/// Why a request to create a pair of type `t` from `a` fails, if it does.
pub open spec fn create_pair_error(
    s: FactoryState,
    sender: Seq<char>,
    t: PairType,
    a: Seq<AssetInfo>,
) -> Option<ContractError> {
    if !valid_asset_set(a) {
        Some(ContractError::DoublingAssets)
    } else if s.pairs@.contains_key(pair_key_of(a)) {
        Some(ContractError::PairWasCreated)
    } else if !has_type(s.pair_configs@, t) {
        Some(ContractError::PairConfigNotFound)
    } else if s.pair_configs@[type_index(s.pair_configs@, t)].permissioned && sender
        != s.config.owner@ {
        Some(ContractError::Unauthorized)
    } else if s.pair_configs@[type_index(s.pair_configs@, t)].is_disabled {
        Some(ContractError::PairConfigDisabled)
    } else {
        None
    }
}

/// What a request to create a pair does.
pub open spec fn create_pair_post(
    s: FactoryState,
    t: FactoryState,
    sender: Seq<char>,
    pair_type: PairType,
    a: Seq<AssetInfo>,
    init_params: Option<Vec<u8>>,
    r: Result<PairInstantiation, ContractError>,
) -> bool {
    match r {
        Err(e) => create_pair_error(s, sender, pair_type, a) == Some(e) && t == s,
        Ok(m) => {
            let c = s.pair_configs@[type_index(s.pair_configs@, pair_type)];
            &&& create_pair_error(s, sender, pair_type, a) is None
            &&& t.pending matches Some(k) && k@ == pair_key_of(a)
            &&& t.config == s.config
            &&& t.pair_configs == s.pair_configs
            &&& t.pairs == s.pairs
            &&& t.proposal == s.proposal
            &&& m.code_id == c.code_id
            &&& m.pair_type == pair_type
            &&& m.asset_infos@ == a
            &&& m.token_code_id == s.config.token_code_id
            &&& m.admin == s.config.owner
            &&& m.init_params == init_params
            &&& m.pair_label@ == joined(a.map_values(|x: AssetInfo| x.id()), "-"@)
        },
    }
}

/// The identifiers of the assets as strings.
fn asset_labels(asset_infos: &Vec<AssetInfo>) -> (r: Vec<String>)
    ensures
        r@.map_values(|p: String| p@) == asset_infos@.map_values(|x: AssetInfo| x.id()),
{
    let mut out: Vec<String> = Vec::new();
    let mut i: usize = 0;
    while i < asset_infos.len()
        invariant
            i <= asset_infos@.len(),
            out@.map_values(|p: String| p@) == asset_infos@.take(i as int).map_values(
                |x: AssetInfo| x.id(),
            ),
        decreases asset_infos@.len() - i,
    {
        out.push(asset_infos[i].id_str().to_owned());
        assert(asset_infos@.take(i + 1).map_values(|x: AssetInfo| x.id()) =~= asset_infos@.take(
            i as int,
        ).map_values(|x: AssetInfo| x.id()).push(asset_infos@[i as int].id()));
        assert(out@.map_values(|p: String| p@) =~= asset_infos@.take(i + 1).map_values(
            |x: AssetInfo| x.id(),
        ));
        i = i + 1;
    }
    assert(asset_infos@.take(i as int) =~= asset_infos@);
    out
}

/// Starts the creation of a pair: checks the request, records the pair as
/// pending, and returns the instantiation for the host to carry out.
pub fn execute_create_pair(
    state: &mut FactoryState,
    sender: &String,
    pair_type: PairType,
    asset_infos: Vec<AssetInfo>,
    init_params: Option<Vec<u8>>,
) -> (r: Result<PairInstantiation, ContractError>)
    requires
        old(state).wf(),
    ensures
        final(state).wf(),
        create_pair_post(
            *old(state),
            *final(state),
            sender@,
            pair_type,
            asset_infos@,
            init_params,
            r,
        ),
{
    if !check_asset_infos(&asset_infos) {
        return Err(ContractError::DoublingAssets);
    }
    let key = pair_key(&asset_infos);
    if state.pairs.has(key.as_slice()) {
        return Err(ContractError::PairWasCreated);
    }
    let i = match find_type(&state.pair_configs, &pair_type) {
        Some(i) => i,
        None => {
            return Err(ContractError::PairConfigNotFound);
        },
    };
    let c = &state.pair_configs[i];
    if c.permissioned && !sender.eq(&state.config.owner) {
        return Err(ContractError::Unauthorized);
    }
    if c.is_disabled {
        return Err(ContractError::PairConfigDisabled);
    }
    let code_id = c.code_id;
    let labels = asset_labels(&asset_infos);
    let pair_label = join_parts(&labels, "-");
    state.pending = Some(key);
    Ok(
        PairInstantiation {
            code_id,
            pair_type,
            asset_infos,
            token_code_id: state.config.token_code_id,
            admin: state.config.owner.clone(),
            init_params,
            pair_label,
        },
    )
}

/// Why the pending pair cannot be registered, if it cannot.
pub open spec fn finalize_error(s: FactoryState, parsed: Option<String>) -> Option<ContractError> {
    match s.pending {
        None => Some(ContractError::PendingPairNotFound),
        Some(k) => if s.pairs@.contains_key(k@) {
            Some(ContractError::PairWasRegistered)
        } else if parsed is None {
            Some(ContractError::MalformedReplyData)
        } else {
            None
        },
    }
}

/// What registering the pending pair under the address read from the
/// callback (`None` where it could not be read) does.
pub open spec fn finalize_post(
    s: FactoryState,
    t: FactoryState,
    parsed: Option<String>,
    r: Result<String, ContractError>,
) -> bool {
    match r {
        Err(e) => finalize_error(s, parsed) == Some(e) && t == s,
        Ok(a) => {
            &&& finalize_error(s, parsed) is None
            &&& parsed == Some(a)
            &&& t.pairs@ == s.pairs@.insert(s.pending->Some_0@, a)
            &&& t.config == s.config
            &&& t.pair_configs == s.pair_configs
            &&& t.pending == s.pending
            &&& t.proposal == s.proposal
        },
    }
}

/// Registers the pending pair under the address that its instantiation
/// reported, unless a pair is registered under its key already.
///
/// The pending key stays in place after the pair is registered: a callback
/// delivered again for the same creation must then be refused because the
/// pair is registered, not accepted as a new one. It is replaced by the next
/// creation.
pub fn finalize_pair(state: &mut FactoryState, parsed: Option<String>) -> (r: Result<
    String,
    ContractError,
>)
    requires
        old(state).wf(),
    ensures
        final(state).wf(),
        finalize_post(*old(state), *final(state), parsed, r),
{
    let key = match &state.pending {
        None => {
            return Err(ContractError::PendingPairNotFound);
        },
        Some(k) => k.clone(),
    };
    assert(key@ =~= state.pending->Some_0@);
    if state.pairs.has(key.as_slice()) {
        return Err(ContractError::PairWasRegistered);
    }
    match parsed {
        None => Err(ContractError::MalformedReplyData),
        Some(addr) => {
            state.pairs.insert(key, addr.clone());
            Ok(addr)
        },
    }
}

/// What the callback of an instantiation does.
pub open spec fn reply_post(
    s: FactoryState,
    t: FactoryState,
    id: u64,
    data: Option<Vec<u8>>,
    r: Result<String, ContractError>,
) -> bool {
    if id != INSTANTIATE_PAIR_REPLY_ID || data is None {
        r == Err::<String, ContractError>(ContractError::FailedToParseReply) && t == s
    } else {
        let parsed = instantiated_address(data->Some_0@);
        match r {
            Err(e) => {
                &&& t == s
                &&& match s.pending {
                    None => e == ContractError::PendingPairNotFound,
                    Some(k) => if s.pairs@.contains_key(k@) {
                        e == ContractError::PairWasRegistered
                    } else {
                        parsed is None && e == ContractError::MalformedReplyData
                    },
                }
            },
            Ok(a) => {
                &&& s.pending matches Some(k) && !s.pairs@.contains_key(k@)
                &&& parsed == Some(a@)
                &&& t.pairs@ == s.pairs@.insert(s.pending->Some_0@, a)
                &&& t.config == s.config
                &&& t.pair_configs == s.pair_configs
                &&& t.pending == s.pending
                &&& t.proposal == s.proposal
            },
        }
    }
}

/// Handles the callback of an instantiation: `data` is the response of a
/// successful one, `None` where it failed or carried nothing.
pub fn reply(state: &mut FactoryState, id: u64, data: Option<Vec<u8>>) -> (r: Result<
    String,
    ContractError,
>)
    requires
        old(state).wf(),
    ensures
        final(state).wf(),
        reply_post(*old(state), *final(state), id, data, r),
{
    if id != INSTANTIATE_PAIR_REPLY_ID {
        return Err(ContractError::FailedToParseReply);
    }
    match &data {
        None => Err(ContractError::FailedToParseReply),
        Some(bytes) => {
            let parsed = parse_instantiate_address(bytes.as_slice());
            finalize_pair(state, parsed)
        },
    }
}

// ---------------------------------------------------------------------------
// Removing pairs

/// Why removing the pair of `a` fails, if it does.
pub open spec fn deregister_error(s: FactoryState, sender: Seq<char>, a: Seq<AssetInfo>) -> Option<
    ContractError,
> {
    if !valid_asset_set(a) {
        Some(ContractError::DoublingAssets)
    } else if sender != s.config.owner@ {
        Some(ContractError::Unauthorized)
    } else if !s.pairs@.contains_key(pair_key_of(a)) {
        Some(ContractError::PairNotFound)
    } else {
        None
    }
}

/// What removing a pair does.
pub open spec fn deregister_post(
    s: FactoryState,
    t: FactoryState,
    sender: Seq<char>,
    a: Seq<AssetInfo>,
    r: Result<Deregistration, ContractError>,
) -> bool {
    match r {
        Err(e) => deregister_error(s, sender, a) == Some(e) && t == s,
        Ok(d) => {
            &&& deregister_error(s, sender, a) is None
            &&& d.pair_addr == s.pairs@[pair_key_of(a)]
            &&& d.incentives_address == s.config.incentives_address
            &&& t.pairs@ == s.pairs@.remove(pair_key_of(a))
            &&& t.config == s.config
            &&& t.pair_configs == s.pair_configs
            &&& t.pending == s.pending
            &&& t.proposal == s.proposal
        },
    }
}

/// Removes the pair of `asset_infos` from the registry; only the owner may.
/// The pair may be created again afterwards.
pub fn deregister(state: &mut FactoryState, sender: &String, asset_infos: Vec<AssetInfo>) -> (r:
    Result<Deregistration, ContractError>)
    requires
        old(state).wf(),
    ensures
        final(state).wf(),
        deregister_post(*old(state), *final(state), sender@, asset_infos@, r),
{
    if !check_asset_infos(&asset_infos) {
        return Err(ContractError::DoublingAssets);
    }
    if !sender.eq(&state.config.owner) {
        return Err(ContractError::Unauthorized);
    }
    let key = pair_key(&asset_infos);
    if !state.pairs.has(key.as_slice()) {
        return Err(ContractError::PairNotFound);
    }
    let pair_addr = match state.pairs.remove(key.as_slice()) {
        Some(a) => a,
        None => {
            return Err(ContractError::PairNotFound);
        },
    };
    let incentives_address = match &state.config.incentives_address {
        Some(a) => Some(a.clone()),
        None => None,
    };
    Ok(Deregistration { pair_addr, incentives_address })
}

// ---------------------------------------------------------------------------
// Ownership

/// `now + d`, or the largest time where that does not fit.
pub open spec fn expiry(now: u64, d: u64) -> u64 {
    if now + d > u64::MAX {
        u64::MAX
    } else {
        (now + d) as u64
    }
}

/// There is a proposal and it has not expired at `now`.
pub open spec fn live_proposal(s: FactoryState, now: u64) -> bool {
    s.proposal matches Some(p) && now <= p.ttl
}

/// Longest time, in seconds, that an offer of ownership may stay open.
pub const MAX_PROPOSAL_TTL: u64 = 1209600;

/// What proposing a new owner does.
pub open spec fn propose_post(
    s: FactoryState,
    t: FactoryState,
    sender: Seq<char>,
    new_owner: String,
    expires_in: u64,
    now: u64,
    r: Result<(), ContractError>,
) -> bool {
    if sender != s.config.owner@ {
        r == Err::<(), ContractError>(ContractError::Unauthorized) && t == s
    } else if new_owner@ == s.config.owner@ {
        r == Err::<(), ContractError>(ContractError::NewOwnerIsCurrent) && t == s
    } else if expires_in > MAX_PROPOSAL_TTL {
        r == Err::<(), ContractError>(ContractError::ProposalTtlTooLong) && t == s
    } else {
        r is Ok && t == (FactoryState {
            proposal: Some(OwnershipProposal { owner: new_owner, ttl: expiry(now, expires_in) }),
            ..s
        })
    }
}

/// Offers ownership to `new_owner` for `expires_in` seconds from `now`
/// (at most two weeks), in place of any earlier offer; only the owner may,
/// and not to itself.
pub fn execute_propose_new_owner(
    state: &mut FactoryState,
    sender: &String,
    new_owner: String,
    expires_in: u64,
    now: u64,
) -> (r: Result<(), ContractError>)
    requires
        old(state).wf(),
    ensures
        final(state).wf(),
        propose_post(*old(state), *final(state), sender@, new_owner, expires_in, now, r),
{
    if !sender.eq(&state.config.owner) {
        return Err(ContractError::Unauthorized);
    }
    if new_owner.eq(&state.config.owner) {
        return Err(ContractError::NewOwnerIsCurrent);
    }
    if expires_in > MAX_PROPOSAL_TTL {
        return Err(ContractError::ProposalTtlTooLong);
    }
    let ttl = now.saturating_add(expires_in);
    state.proposal = Some(OwnershipProposal { owner: new_owner, ttl });
    Ok(())
}

/// What withdrawing the offer of ownership does.
pub open spec fn drop_post(
    s: FactoryState,
    t: FactoryState,
    sender: Seq<char>,
    now: u64,
    r: Result<(), ContractError>,
) -> bool {
    if sender != s.config.owner@ {
        r == Err::<(), ContractError>(ContractError::Unauthorized) && t == s
    } else if !live_proposal(s, now) {
        r == Err::<(), ContractError>(ContractError::OwnershipProposalNotFound) && t == s
    } else {
        r is Ok && t == (FactoryState { proposal: None, ..s })
    }
}

/// Withdraws the offer of ownership; only the owner may, and only while it is open.
pub fn execute_drop_ownership_proposal(state: &mut FactoryState, sender: &String, now: u64) -> (r:
    Result<(), ContractError>)
    requires
        old(state).wf(),
    ensures
        final(state).wf(),
        drop_post(*old(state), *final(state), sender@, now, r),
{
    if !sender.eq(&state.config.owner) {
        return Err(ContractError::Unauthorized);
    }
    match &state.proposal {
        None => {
            return Err(ContractError::OwnershipProposalNotFound);
        },
        Some(p) => {
            if now > p.ttl {
                return Err(ContractError::OwnershipProposalNotFound);
            }
        },
    }
    state.proposal = None;
    Ok(())
}

/// What claiming ownership does.
pub open spec fn claim_post(
    s: FactoryState,
    t: FactoryState,
    sender: Seq<char>,
    now: u64,
    r: Result<(), ContractError>,
) -> bool {
    if !live_proposal(s, now) {
        r == Err::<(), ContractError>(ContractError::OwnershipProposalNotFound) && t == s
    } else if sender != s.proposal->Some_0.owner@ {
        r == Err::<(), ContractError>(ContractError::Unauthorized) && t == s
    } else {
        r is Ok && t == (FactoryState {
            config: Config { owner: s.proposal->Some_0.owner, ..s.config },
            proposal: None,
            ..s
        })
    }
}

/// Takes ownership: only the account offered it may, and only before the offer expires.
pub fn execute_claim_ownership(state: &mut FactoryState, sender: &String, now: u64) -> (r: Result<
    (),
    ContractError,
>)
    requires
        old(state).wf(),
    ensures
        final(state).wf(),
        claim_post(*old(state), *final(state), sender@, now, r),
{
    let p = match state.proposal.take() {
        None => {
            return Err(ContractError::OwnershipProposalNotFound);
        },
        Some(p) => p,
    };
    if now > p.ttl || !sender.eq(&p.owner) {
        let expired = now > p.ttl;
        state.proposal = Some(p);
        if expired {
            return Err(ContractError::OwnershipProposalNotFound);
        }
        return Err(ContractError::Unauthorized);
    }
    state.config.owner = p.owner;
    Ok(())
}

// ---------------------------------------------------------------------------
// Queries

/// The general settings and every pair type, in ascending order of the
/// types' text forms.
pub fn query_config(state: &FactoryState) -> (r: ConfigResponse)
    requires
        state.wf(),
    ensures
        r.owner == state.config.owner,
        r.token_code_id == state.config.token_code_id,
        r.pair_configs@ == state.pair_configs@,
        sorted_types(r.pair_configs@),
        r.fee_address == state.config.fee_address,
        r.incentives_address == state.config.incentives_address,
        r.coin_registry_address == state.config.coin_registry_address,
{
    let c = state.config.copy();
    let mut pair_configs: Vec<PairConfig> = Vec::new();
    let mut i: usize = 0;
    while i < state.pair_configs.len()
        invariant
            i <= state.pair_configs@.len(),
            pair_configs@ == state.pair_configs@.take(i as int),
        decreases state.pair_configs@.len() - i,
    {
        pair_configs.push(state.pair_configs[i].copy());
        assert(state.pair_configs@.take(i + 1) =~= state.pair_configs@.take(i as int).push(
            state.pair_configs@[i as int],
        ));
        i = i + 1;
    }
    assert(state.pair_configs@.take(i as int) =~= state.pair_configs@);
    ConfigResponse {
        owner: c.owner,
        token_code_id: c.token_code_id,
        pair_configs,
        fee_address: c.fee_address,
        incentives_address: c.incentives_address,
        coin_registry_address: c.coin_registry_address,
    }
}

/// The address of the pair made of `asset_infos`, in whatever order they
/// come. A list that names one asset twice makes no pair, so none is found.
pub fn query_pair(state: &FactoryState, asset_infos: Vec<AssetInfo>) -> (r: Result<
    String,
    ContractError,
>)
    requires
        state.wf(),
    ensures
        r == if distinct_ids(asset_infos@) && state.pairs@.contains_key(
            pair_key_of(asset_infos@),
        ) {
            Ok::<String, ContractError>(state.pairs@[pair_key_of(asset_infos@)])
        } else {
            Err::<String, ContractError>(ContractError::PairNotFound)
        },
{
    if !has_distinct_ids(&asset_infos) {
        return Err(ContractError::PairNotFound);
    }
    let key = pair_key(&asset_infos);
    match state.pairs.get(key.as_slice()) {
        Some(a) => Ok(a),
        None => Err(ContractError::PairNotFound),
    }
}

/// The addresses of the pairs whose keys come after that of `start_after`,
/// ascending by key, as many as `limit` asks for.
pub fn query_pairs(
    state: &FactoryState,
    start_after: Option<Vec<AssetInfo>>,
    limit: Option<u32>,
) -> (r: Vec<String>)
    requires
        state.wf(),
    ensures
        r@ == state.pairs.page(
            match start_after {
                None => None::<Seq<u8>>,
                Some(a) => Some(pair_key_of(a@)),
            },
            page_size(limit),
        ),
{
    match start_after {
        None => state.pairs.page_after(None, limit),
        Some(a) => {
            let key = pair_key(&a);
            state.pairs.page_after(Some(key.as_slice()), limit)
        },
    }
}

/// The fees of `pair_type` and where the maker's share goes.
pub fn query_fee_info(state: &FactoryState, pair_type: PairType) -> (r: Result<
    FeeInfoResponse,
    ContractError,
>)
    requires
        state.wf(),
    ensures
        match r {
            Err(e) => e == ContractError::PairConfigNotFound && !has_type(
                state.pair_configs@,
                pair_type,
            ),
            Ok(f) => {
                let c = state.pair_configs@[type_index(state.pair_configs@, pair_type)];
                &&& has_type(state.pair_configs@, pair_type)
                &&& f.fee_address == state.config.fee_address
                &&& f.total_fee_bps == c.total_fee_bps
                &&& f.maker_fee_bps == c.maker_fee_bps
            },
        },
{
    match find_type(&state.pair_configs, &pair_type) {
        None => Err(ContractError::PairConfigNotFound),
        Some(i) => {
            let c = &state.pair_configs[i];
            Ok(
                FeeInfoResponse {
                    fee_address: match &state.config.fee_address {
                        Some(a) => Some(a.clone()),
                        None => None,
                    },
                    total_fee_bps: c.total_fee_bps,
                    maker_fee_bps: c.maker_fee_bps,
                },
            )
        },
    }
}

/// The types of the entries that are disabled, or whose pairs get no rewards, in order.
pub open spec fn blacklisted(s: Seq<PairConfig>) -> Seq<PairType>
    decreases s.len(),
{
    if s.len() == 0 {
        Seq::empty()
    } else if s.last().is_disabled || s.last().is_generator_disabled {
        blacklisted(s.drop_last()).push(s.last().pair_type)
    } else {
        blacklisted(s.drop_last())
    }
}

/// The text forms of a list of pair types.
pub open spec fn keys_of(v: Seq<PairType>) -> Seq<Seq<u8>> {
    v.map_values(|t: PairType| t.key())
}

/// Every type that `blacklisted` keeps is the type of an entry of `s`.
proof fn lemma_blacklisted_from(s: Seq<PairConfig>, k: int)
    requires
        0 <= k < blacklisted(s).len(),
    ensures
        exists|j: int| 0 <= j < s.len() && (#[trigger] s[j]).pair_type == blacklisted(s)[k],
    decreases s.len(),
{
    let p = s.drop_last();
    if k < blacklisted(p).len() {
        lemma_blacklisted_from(p, k);
        let j = choose|j: int| 0 <= j < p.len() && (#[trigger] p[j]).pair_type == blacklisted(p)[k];
        assert(s[j] == p[j]);
    } else {
        assert(s[s.len() - 1].pair_type == blacklisted(s)[k]);
    }
}

/// Filtering a store sorted by type leaves the types in ascending order.
proof fn lemma_blacklisted_sorted(s: Seq<PairConfig>)
    requires
        sorted_types(s),
    ensures
        strictly_sorted(keys_of(blacklisted(s))),
    decreases s.len(),
{
    if s.len() > 0 {
        let p = s.drop_last();
        assert(type_keys(p) =~= type_keys(s).drop_last());
        lemma_blacklisted_sorted(p);
        if s.last().is_disabled || s.last().is_generator_disabled {
            let b = blacklisted(s);
            let bp = blacklisted(p);
            assert(b == bp.push(s.last().pair_type));
            assert forall|a: int, c: int| 0 <= a < c < b.len() implies lex_lt(
                #[trigger] keys_of(b)[a],
                #[trigger] keys_of(b)[c],
            ) by {
                if c < bp.len() {
                    assert(keys_of(b)[a] == keys_of(bp)[a] && keys_of(b)[c] == keys_of(bp)[c]);
                } else {
                    lemma_blacklisted_from(p, a);
                    let j = choose|j: int| 0 <= j < p.len() && (#[trigger] p[j]).pair_type == bp[a];
                    assert(type_keys(s)[j] == keys_of(b)[a]);
                    assert(type_keys(s)[s.len() - 1] == keys_of(b)[c]);
                }
            }
        }
    }
}

/// The pair types that are disabled, or whose pairs get no rewards, in
/// ascending order of their text forms.
pub fn query_blacklisted_pair_types(state: &FactoryState) -> (r: Vec<PairType>)
    requires
        state.wf(),
    ensures
        r@ == blacklisted(state.pair_configs@),
        strictly_sorted(keys_of(r@)),
{
    proof {
        lemma_blacklisted_sorted(state.pair_configs@);
    }
    let s = &state.pair_configs;
    let mut out: Vec<PairType> = Vec::new();
    let mut i: usize = 0;
    while i < s.len()
        invariant
            i <= s@.len(),
            out@ == blacklisted(s@.take(i as int)),
        decreases s@.len() - i,
    {
        assert(s@.take(i + 1).drop_last() =~= s@.take(i as int));
        if s[i].is_disabled || s[i].is_generator_disabled {
            out.push(s[i].pair_type.copy());
        }
        i = i + 1;
    }
    assert(s@.take(i as int) =~= s@);
    out
}

} // verus!
