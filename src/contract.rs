//! The factory's entry points: one request or query in, one outcome out.
use vstd::prelude::*;

use crate::assets::AssetInfo;
use crate::config::{PairConfig, PairType, UpdateConfig};
use crate::error::ContractError;
use crate::factory::{
    claim_post, create_pair_post, deregister, deregister_post, drop_post, execute_claim_ownership,
    execute_create_pair, execute_drop_ownership_proposal, execute_propose_new_owner,
    execute_update_config, execute_update_pair_config, propose_post, query_blacklisted_pair_types,
    query_config, query_fee_info, query_pair, query_pairs, update_config_post,
    update_pair_config_post, ConfigResponse, Deregistration, FactoryState, FeeInfoResponse,
    PairInstantiation,
};

verus! {

/// The requests that change the factory.
pub enum ExecuteMsg {
    UpdateConfig(UpdateConfig),
    UpdatePairConfig { config: PairConfig },
    CreatePair {
        pair_type: PairType,
        asset_infos: Vec<AssetInfo>,
        init_params: Option<Vec<u8>>,
    },
    Deregister { asset_infos: Vec<AssetInfo> },
    ProposeNewOwner { owner: String, expires_in: u64 },
    DropOwnershipProposal,
    ClaimOwnership,
}

/// What a request leaves for the host to do.
pub enum Response {
    /// Nothing beyond the change of state.
    Done,
    /// Instantiate a pair contract and hand its response back to `reply`.
    InstantiatePair(PairInstantiation),
    /// A pair was removed; tell the rewards contract, if there is one.
    Deregistered(Deregistration),
}

/// The queries over the factory.
pub enum QueryMsg {
    Config,
    Pair { asset_infos: Vec<AssetInfo> },
    Pairs { start_after: Option<Vec<AssetInfo>>, limit: Option<u32> },
    FeeInfo { pair_type: PairType },
    BlacklistedPairTypes,
}

/// The answer to a query.
pub enum QueryResponse {
    Config(ConfigResponse),
    Pair(String),
    Pairs(Vec<String>),
    FeeInfo(FeeInfoResponse),
    BlacklistedPairTypes(Vec<PairType>),
}

/// A result that carries nothing on success.
pub open spec fn done(r: Result<Response, ContractError>) -> Result<(), ContractError> {
    match r {
        Ok(_) => Ok(()),
        Err(e) => Err(e),
    }
}

/// The outcome of a request as the operation it names reports it.
pub open spec fn execute_post(
    s: FactoryState,
    t: FactoryState,
    now: u64,
    sender: Seq<char>,
    msg: ExecuteMsg,
    r: Result<Response, ContractError>,
) -> bool {
    match msg {
        ExecuteMsg::UpdateConfig(p) => {
            &&& update_config_post(s, t, sender, p, done(r))
            &&& r matches Ok(x) ==> x is Done
        },
        ExecuteMsg::UpdatePairConfig { config } => {
            &&& update_pair_config_post(s, t, sender, config, done(r))
            &&& r matches Ok(x) ==> x is Done
        },
        ExecuteMsg::CreatePair { pair_type, asset_infos, init_params } => {
            &&& r matches Ok(x) ==> x is InstantiatePair
            &&& create_pair_post(
                s,
                t,
                sender,
                pair_type,
                asset_infos@,
                init_params,
                match r {
                    Ok(x) => Ok(x->InstantiatePair_0),
                    Err(e) => Err(e),
                },
            )
        },
        ExecuteMsg::Deregister { asset_infos } => {
            &&& r matches Ok(x) ==> x is Deregistered
            &&& deregister_post(
                s,
                t,
                sender,
                asset_infos@,
                match r {
                    Ok(x) => Ok(x->Deregistered_0),
                    Err(e) => Err(e),
                },
            )
        },
        ExecuteMsg::ProposeNewOwner { owner, expires_in } => {
            &&& propose_post(s, t, sender, owner, expires_in, now, done(r))
            &&& r matches Ok(x) ==> x is Done
        },
        ExecuteMsg::DropOwnershipProposal => {
            &&& drop_post(s, t, sender, now, done(r))
            &&& r matches Ok(x) ==> x is Done
        },
        ExecuteMsg::ClaimOwnership => {
            &&& claim_post(s, t, sender, now, done(r))
            &&& r matches Ok(x) ==> x is Done
        },
    }
}

fn unit(r: Result<(), ContractError>) -> (o: Result<Response, ContractError>)
    ensures
        done(o) == r,
        o matches Ok(x) ==> x is Done,
{
    match r {
        Ok(u) => {
            assert(u == ());
            Ok(Response::Done)
        },
        Err(e) => Err(e),
    }
}

/// Carries out one request from `sender` at time `now` (seconds).
pub fn execute(state: &mut FactoryState, now: u64, sender: &String, msg: ExecuteMsg) -> (r: Result<
    Response,
    ContractError,
>)
    requires
        old(state).wf(),
    ensures
        final(state).wf(),
        execute_post(*old(state), *final(state), now, sender@, msg, r),
{
    match msg {
        ExecuteMsg::UpdateConfig(p) => unit(execute_update_config(state, sender, p)),
        ExecuteMsg::UpdatePairConfig { config } => unit(
            execute_update_pair_config(state, sender, config),
        ),
        ExecuteMsg::CreatePair { pair_type, asset_infos, init_params } => {
            match execute_create_pair(state, sender, pair_type, asset_infos, init_params) {
                Ok(m) => Ok(Response::InstantiatePair(m)),
                Err(e) => Err(e),
            }
        },
        ExecuteMsg::Deregister { asset_infos } => {
            match deregister(state, sender, asset_infos) {
                Ok(d) => Ok(Response::Deregistered(d)),
                Err(e) => Err(e),
            }
        },
        ExecuteMsg::ProposeNewOwner { owner, expires_in } => unit(
            execute_propose_new_owner(state, sender, owner, expires_in, now),
        ),
        ExecuteMsg::DropOwnershipProposal => unit(
            execute_drop_ownership_proposal(state, sender, now),
        ),
        ExecuteMsg::ClaimOwnership => unit(execute_claim_ownership(state, sender, now)),
    }
}

/// Answers one query; a query changes nothing.
pub fn query(state: &FactoryState, msg: QueryMsg) -> (r: Result<QueryResponse, ContractError>)
    requires
        state.wf(),
    ensures
        match msg {
            QueryMsg::Config => r matches Ok(QueryResponse::Config(c)) && config_ok(*state, c),
            QueryMsg::Pair { asset_infos } => match r {
                Ok(QueryResponse::Pair(a)) => query_pair_ok(*state, asset_infos@, a),
                Err(e) => e == ContractError::PairNotFound && !(crate::assets::distinct_ids(
                    asset_infos@,
                ) && state.pairs@.contains_key(crate::assets::pair_key_of(asset_infos@))),
                _ => false,
            },
            QueryMsg::Pairs { start_after, limit } => r matches Ok(QueryResponse::Pairs(v)) && v@
                == state.pairs.page(
                match start_after {
                    None => None::<Seq<u8>>,
                    Some(a) => Some(crate::assets::pair_key_of(a@)),
                },
                crate::registry::page_size(limit),
            ),
            QueryMsg::FeeInfo { pair_type } => match r {
                Ok(QueryResponse::FeeInfo(f)) => fee_info_ok(*state, pair_type, f),
                Err(e) => e == ContractError::PairConfigNotFound && !crate::config::has_type(
                    state.pair_configs@,
                    pair_type,
                ),
                _ => false,
            },
            QueryMsg::BlacklistedPairTypes => r matches Ok(QueryResponse::BlacklistedPairTypes(v))
                && v@ == crate::factory::blacklisted(state.pair_configs@),
        },
{
    match msg {
        QueryMsg::Config => Ok(QueryResponse::Config(query_config(state))),
        QueryMsg::Pair { asset_infos } => match query_pair(state, asset_infos) {
            Ok(a) => Ok(QueryResponse::Pair(a)),
            Err(e) => Err(e),
        },
        QueryMsg::Pairs { start_after, limit } => Ok(
            QueryResponse::Pairs(query_pairs(state, start_after, limit)),
        ),
        QueryMsg::FeeInfo { pair_type } => match query_fee_info(state, pair_type) {
            Ok(f) => Ok(QueryResponse::FeeInfo(f)),
            Err(e) => Err(e),
        },
        QueryMsg::BlacklistedPairTypes => Ok(
            QueryResponse::BlacklistedPairTypes(query_blacklisted_pair_types(state)),
        ),
    }
}

/// `c` shows the settings and pair types of `s`.
pub open spec fn config_ok(s: FactoryState, c: ConfigResponse) -> bool {
    &&& c.owner == s.config.owner
    &&& c.token_code_id == s.config.token_code_id
    &&& c.pair_configs@ == s.pair_configs@
    &&& c.fee_address == s.config.fee_address
    &&& c.incentives_address == s.config.incentives_address
    &&& c.coin_registry_address == s.config.coin_registry_address
}

/// `f` shows the fees of the entry of type `t` in `s`.
pub open spec fn fee_info_ok(s: FactoryState, t: PairType, f: FeeInfoResponse) -> bool {
    let c = s.pair_configs@[crate::config::type_index(s.pair_configs@, t)];
    &&& crate::config::has_type(s.pair_configs@, t)
    &&& f.fee_address == s.config.fee_address
    &&& f.total_fee_bps == c.total_fee_bps
    &&& f.maker_fee_bps == c.maker_fee_bps
}

/// `a` is the address registered for the assets `assets`.
pub open spec fn query_pair_ok(s: FactoryState, assets: Seq<AssetInfo>, a: String) -> bool {
    &&& crate::assets::distinct_ids(assets)
    &&& s.pairs@.contains_key(crate::assets::pair_key_of(assets))
    &&& a == s.pairs@[crate::assets::pair_key_of(assets)]
}

} // verus!
