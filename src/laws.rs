//! Properties that hold across requests.
use vstd::prelude::*;

use crate::assets::{distinct_ids, ids, pair_key_of, valid_asset_set, well_formed, AssetInfo};
use crate::config::{PairConfig, PairType, MAX_FEE_BPS};
use crate::contract::{execute_post, ExecuteMsg, Response};
use crate::error::ContractError;
use crate::factory::{
    claim_post, create_pair_error, deregister_error, deregister_post, drop_post, finalize_post, propose_post,
    reply_post, update_pair_config_post, FactoryState, OwnershipProposal, expiry, MAX_PROPOSAL_TTL,
};

verus! {

/// The key of a pair depends on which assets it holds, not on the order
/// they are listed in: any two lists of the same assets give the same key.
pub proof fn lemma_pair_key_order_free(a: Seq<AssetInfo>, b: Seq<AssetInfo>)
    requires
        a.to_set() == b.to_set(),
    ensures
        pair_key_of(a) == pair_key_of(b),
{
    assert(ids(a).to_set() =~= ids(b).to_set()) by {
        assert forall|x: Seq<u8>| ids(a).to_set().contains(x) implies ids(b).to_set().contains(x) by {
            let i = choose|i: int| 0 <= i < ids(a).len() && ids(a)[i] == x;
            assert(a.to_set().contains(a[i]));
            let j = choose|j: int| 0 <= j < b.len() && b[j] == a[i];
            assert(ids(b)[j] == x);
        }
        assert forall|x: Seq<u8>| ids(b).to_set().contains(x) implies ids(a).to_set().contains(x) by {
            let i = choose|i: int| 0 <= i < ids(b).len() && ids(b)[i] == x;
            assert(b.to_set().contains(b[i]));
            let j = choose|j: int| 0 <= j < a.len() && a[j] == b[i];
            assert(ids(a)[j] == x);
        }
    }
}

/// A list of assets and the same list reversed hold the same assets.
pub proof fn lemma_reverse_same_assets(a: Seq<AssetInfo>)
    ensures
        a.to_set() == a.reverse().to_set(),
{
    assert(a.to_set() =~= a.reverse().to_set()) by {
        assert forall|x: AssetInfo| a.to_set().contains(x) implies a.reverse().to_set().contains(x) by {
            let i = choose|i: int| 0 <= i < a.len() && a[i] == x;
            assert(a.reverse()[a.len() - 1 - i] == x);
        }
        assert forall|x: AssetInfo| a.reverse().to_set().contains(x) implies a.to_set().contains(x) by {
            let i = choose|i: int| 0 <= i < a.len() && a.reverse()[i] == x;
            assert(a[a.len() - 1 - i] == x);
        }
    }
}

/// In particular, a list of assets and the same list reversed give the same key.
pub proof fn lemma_pair_key_reverse(a: Seq<AssetInfo>)
    ensures
        pair_key_of(a) == pair_key_of(a.reverse()),
{
    lemma_reverse_same_assets(a);
    lemma_pair_key_order_free(a, a.reverse());
}

/// Reversing a list that may make a pair gives a list that may make it too.
pub proof fn lemma_reverse_valid(a: Seq<AssetInfo>)
    requires
        valid_asset_set(a),
    ensures
        valid_asset_set(a.reverse()),
{
    let r = a.reverse();
    let n = a.len();
    assert forall|i: int, j: int|
        0 <= i < r.len() && 0 <= j < r.len() && i != j implies #[trigger] r[i].id_bytes()
        != #[trigger] r[j].id_bytes() by {
        assert(r[i] == a[n - 1 - i] && r[j] == a[n - 1 - j]);
    }
    assert forall|i: int| 0 <= i < r.len() implies well_formed(#[trigger] r[i]) by {
        assert(r[i] == a[n - 1 - i]);
    }
}

/// Two lists that may make a pair and hold the same assets, in whatever
/// order, get the same answer from every request that names a pair:
/// creating it, removing it, and looking it up.
pub proof fn lemma_order_free_requests(
    s: FactoryState,
    sender: Seq<char>,
    ty: PairType,
    a: Seq<AssetInfo>,
    b: Seq<AssetInfo>,
)
    requires
        valid_asset_set(a),
        valid_asset_set(b),
        a.to_set() == b.to_set(),
    ensures
        pair_key_of(a) == pair_key_of(b),
        create_pair_error(s, sender, ty, a) == create_pair_error(s, sender, ty, b),
        deregister_error(s, sender, a) == deregister_error(s, sender, b),
        (distinct_ids(a) && s.pairs@.contains_key(pair_key_of(a))) == (distinct_ids(b)
            && s.pairs@.contains_key(pair_key_of(b))),
{
    lemma_pair_key_order_free(a, b);
}

/// The same holds of a list that may make a pair and its reverse.
pub proof fn lemma_reversed_requests(
    s: FactoryState,
    sender: Seq<char>,
    ty: PairType,
    a: Seq<AssetInfo>,
)
    requires
        valid_asset_set(a),
    ensures
        pair_key_of(a) == pair_key_of(a.reverse()),
        create_pair_error(s, sender, ty, a) == create_pair_error(s, sender, ty, a.reverse()),
        deregister_error(s, sender, a) == deregister_error(s, sender, a.reverse()),
        (distinct_ids(a) && s.pairs@.contains_key(pair_key_of(a))) == (distinct_ids(a.reverse())
            && s.pairs@.contains_key(pair_key_of(a.reverse()))),
{
    lemma_reverse_same_assets(a);
    lemma_reverse_valid(a);
    lemma_order_free_requests(s, sender, ty, a, a.reverse());
}

/// Once the pending pair of `a` is registered, a new request to create a
/// pair of the same assets fails because the pair exists, whoever asks and
/// whatever the type.
pub proof fn lemma_registered_pair_blocks_creation(
    s: FactoryState,
    t: FactoryState,
    parsed: Option<String>,
    r: Result<String, ContractError>,
    a: Seq<AssetInfo>,
    sender: Seq<char>,
    ty: PairType,
)
    requires
        finalize_post(s, t, parsed, r),
        r is Ok,
        s.pending matches Some(k) && k@ == pair_key_of(a),
        valid_asset_set(a),
    ensures
        create_pair_error(t, sender, ty, a) == Some(ContractError::PairWasCreated),
{
}

/// After the pair of `a` is removed, a request to create it no longer fails
/// because it exists.
pub proof fn lemma_deregistered_pair_may_be_created(
    s: FactoryState,
    t: FactoryState,
    owner: Seq<char>,
    r: Result<crate::factory::Deregistration, ContractError>,
    a: Seq<AssetInfo>,
    sender: Seq<char>,
    ty: PairType,
)
    requires
        deregister_post(s, t, owner, a, r),
        r is Ok,
    ensures
        !t.pairs@.contains_key(pair_key_of(a)),
        create_pair_error(t, sender, ty, a) != Some(ContractError::PairWasCreated),
{
}

/// Only a removal takes a pair out of the registry: every other request
/// keeps each registered pair.
pub proof fn lemma_only_deregister_removes(
    s: FactoryState,
    t: FactoryState,
    now: u64,
    sender: Seq<char>,
    msg: ExecuteMsg,
    r: Result<Response, ContractError>,
    k: Seq<u8>,
)
    requires
        execute_post(s, t, now, sender, msg, r),
        !(msg is Deregister),
        s.pairs@.contains_key(k),
    ensures
        t.pairs@.contains_key(k),
{
}

/// A callback keeps each registered pair, whatever it carries.
pub proof fn lemma_reply_keeps_pairs(
    s: FactoryState,
    t: FactoryState,
    id: u64,
    data: Option<Vec<u8>>,
    r: Result<String, ContractError>,
    k: Seq<u8>,
)
    requires
        reply_post(s, t, id, data, r),
        s.pairs@.contains_key(k),
    ensures
        t.pairs@.contains_key(k),
        t.pairs@[k] == s.pairs@[k],
{
}

/// A callback that is handled a second time for the same pending pair
/// fails because the pair is registered already, and changes nothing.
pub proof fn lemma_finalize_once(
    s: FactoryState,
    t: FactoryState,
    u: FactoryState,
    first: Option<String>,
    second: Option<String>,
    r1: Result<String, ContractError>,
    r2: Result<String, ContractError>,
)
    requires
        finalize_post(s, t, first, r1),
        r1 is Ok,
        finalize_post(t, u, second, r2),
    ensures
        r2 == Err::<String, ContractError>(ContractError::PairWasRegistered),
        u == t,
{
}

/// The same holds of the callback as the host delivers it.
pub proof fn lemma_reply_once(
    s: FactoryState,
    t: FactoryState,
    u: FactoryState,
    id: u64,
    data: Option<Vec<u8>>,
    r1: Result<String, ContractError>,
    r2: Result<String, ContractError>,
)
    requires
        reply_post(s, t, id, data, r1),
        r1 is Ok,
        reply_post(t, u, id, data, r2),
    ensures
        r2 == Err::<String, ContractError>(ContractError::PairWasRegistered),
        u == t,
{
}

/// The owner's change of a pair type is accepted exactly when the fees add
/// up to at most 10000 basis points and the maker's share is within the total.
pub proof fn lemma_fee_bounds(
    s: FactoryState,
    t: FactoryState,
    c: PairConfig,
    r: Result<(), ContractError>,
)
    requires
        update_pair_config_post(s, t, s.config.owner@, c, r),
    ensures
        r is Ok <==> (c.total_fee_bps + c.maker_fee_bps <= MAX_FEE_BPS && c.maker_fee_bps
            <= c.total_fee_bps),
{
}

/// Ownership is taken only by the account it was offered to, and only
/// before the offer expires.
pub proof fn lemma_claim_needs_live_offer(
    s: FactoryState,
    t: FactoryState,
    sender: Seq<char>,
    now: u64,
    r: Result<(), ContractError>,
)
    requires
        claim_post(s, t, sender, now, r),
        r is Ok,
    ensures
        s.proposal matches Some(p) && p.owner@ == sender && now <= p.ttl,
        t.config.owner@ == sender,
        t.proposal is None,
{
}

/// After an offer expires, both claiming it and withdrawing it fail because
/// no offer is found.
pub proof fn lemma_expired_offer_is_gone(
    s: FactoryState,
    t1: FactoryState,
    t2: FactoryState,
    claimer: Seq<char>,
    now: u64,
    r1: Result<(), ContractError>,
    r2: Result<(), ContractError>,
)
    requires
        s.proposal matches Some(p) && now > p.ttl,
        claim_post(s, t1, claimer, now, r1),
        drop_post(s, t2, s.config.owner@, now, r2),
    ensures
        r1 == Err::<(), ContractError>(ContractError::OwnershipProposalNotFound),
        r2 == Err::<(), ContractError>(ContractError::OwnershipProposalNotFound),
{
}

/// A second offer replaces an earlier one that was not taken.
pub proof fn lemma_second_offer_replaces_first(
    s: FactoryState,
    t: FactoryState,
    u: FactoryState,
    sender: Seq<char>,
    first: String,
    second: String,
    e1: u64,
    e2: u64,
    now1: u64,
    now2: u64,
    r1: Result<(), ContractError>,
    r2: Result<(), ContractError>,
)
    requires
        propose_post(s, t, sender, first, e1, now1, r1),
        r1 is Ok,
        propose_post(t, u, sender, second, e2, now2, r2),
        second@ != s.config.owner@,
        e2 <= MAX_PROPOSAL_TTL,
    ensures
        r2 is Ok,
        u.proposal == Some(OwnershipProposal { owner: second, ttl: expiry(now2, e2) }),
{
}

} // verus!
