use pair_factory::assets::{check_asset_infos, pair_key, AssetInfo};
use pair_factory::config::{PairConfig, PairType};
use pair_factory::contract::{execute, query, ExecuteMsg, QueryMsg, QueryResponse, Response};
use pair_factory::error::ContractError;
use pair_factory::factory::{
    deregister, execute_claim_ownership, execute_create_pair, execute_drop_ownership_proposal,
    execute_propose_new_owner, execute_update_pair_config, finalize_pair, instantiate, query_config,
    query_pair, query_pairs, reply, FactoryState, InstantiateMsg, INSTANTIATE_PAIR_REPLY_ID,
};
use pair_factory::lex::lex_less;

fn s(x: &str) -> String {
    x.to_string()
}

fn cfg(pair_type: PairType, total: u16, maker: u16) -> PairConfig {
    PairConfig {
        code_id: 7,
        pair_type,
        total_fee_bps: total,
        maker_fee_bps: maker,
        is_disabled: false,
        is_generator_disabled: false,
        permissioned: false,
    }
}

fn msg(configs: Vec<PairConfig>) -> InstantiateMsg {
    InstantiateMsg {
        pair_configs: configs,
        token_code_id: 123,
        fee_address: Some(s("fees")),
        owner: s("O"),
        incentives_address: Some(s("incentives")),
        coin_registry_address: s("registry"),
    }
}

fn factory() -> FactoryState {
    instantiate(msg(vec![cfg(PairType::Xyk, 100, 10)])).unwrap()
}

fn tokens(a: &[&str]) -> Vec<AssetInfo> {
    a.iter().map(|x| AssetInfo::token(s(x))).collect()
}

fn response(addr: &str) -> Vec<u8> {
    let mut v = vec![0x0a, addr.len() as u8];
    v.extend_from_slice(addr.as_bytes());
    v
}

fn make_pair(state: &mut FactoryState, assets: &[&str], addr: &str) {
    execute_create_pair(state, &s("O"), PairType::Xyk, tokens(assets), None).unwrap();
    assert_eq!(reply(state, INSTANTIATE_PAIR_REPLY_ID, Some(response(addr))), Ok(s(addr)));
}

#[test]
fn pair_key_ignores_order() {
    let k1 = pair_key(&tokens(&["b", "a", "c"]));
    let k2 = pair_key(&tokens(&["c", "b", "a"]));
    let k3 = pair_key(&tokens(&["a", "b", "c"]));
    assert_eq!(k1, b"abc".to_vec());
    assert_eq!(k1, k2);
    assert_eq!(k2, k3);
}

#[test]
fn pair_key_mixes_natives_and_tokens() {
    let a = vec![AssetInfo::native(s("uusd")), AssetInfo::token(s("contract1"))];
    assert_eq!(pair_key(&a), b"contract1uusd".to_vec());
}

#[test]
fn get_pair_ignores_order() {
    let mut state = factory();
    make_pair(&mut state, &["A", "B"], "P");
    assert_eq!(query_pair(&state, tokens(&["A", "B"])), Ok(s("P")));
    assert_eq!(query_pair(&state, tokens(&["B", "A"])), Ok(s("P")));
}

#[test]
fn asset_sets_are_checked() {
    assert!(check_asset_infos(&tokens(&["a", "b"])));
    assert!(!check_asset_infos(&tokens(&["a"])));
    assert!(!check_asset_infos(&tokens(&[])));
    assert!(!check_asset_infos(&tokens(&["a", "b", "a"])));
    assert!(check_asset_infos(&vec![AssetInfo::native(s("uluna")), AssetInfo::token(s("x"))]));
    assert!(!check_asset_infos(&vec![AssetInfo::native(s("u1")), AssetInfo::token(s("x"))]));
    assert!(!check_asset_infos(&vec![AssetInfo::native(s("1abc")), AssetInfo::token(s("x"))]));
    assert!(!check_asset_infos(&vec![AssetInfo::native(s("ab$c")), AssetInfo::token(s("x"))]));
    assert!(check_asset_infos(&vec![
        AssetInfo::native(s("factory/abc.d_e-f:1")),
        AssetInfo::token(s("x"))
    ]));
    let long = "a".repeat(129);
    assert!(!check_asset_infos(&vec![AssetInfo::native(long), AssetInfo::token(s("x"))]));
    let longest = "a".repeat(128);
    assert!(check_asset_infos(&vec![AssetInfo::native(longest), AssetInfo::token(s("x"))]));
}

#[test]
fn lexicographic_order() {
    assert!(lex_less(b"ab", b"abc"));
    assert!(lex_less(b"abc", b"abd"));
    assert!(!lex_less(b"abd", b"abc"));
    assert!(!lex_less(b"abc", b"abc"));
    assert!(lex_less(b"", b"a"));
}

#[test]
fn second_create_fails_until_deregistered() {
    let mut state = factory();
    make_pair(&mut state, &["A", "B"], "P");
    let err = execute_create_pair(&mut state, &s("O"), PairType::Xyk, tokens(&["B", "A"]), None);
    assert_eq!(err.err(), Some(ContractError::PairWasCreated));
    let d = deregister(&mut state, &s("O"), tokens(&["A", "B"])).unwrap();
    assert_eq!(d.pair_addr, s("P"));
    make_pair(&mut state, &["A", "B"], "Pnew");
    assert_eq!(query_pair(&state, tokens(&["A", "B"])), Ok(s("Pnew")));
}

#[test]
fn replayed_callback_is_refused() {
    let mut state = factory();
    make_pair(&mut state, &["A", "B"], "P");
    let again = reply(&mut state, INSTANTIATE_PAIR_REPLY_ID, Some(response("P")));
    assert_eq!(again, Err(ContractError::PairWasRegistered));
    assert_eq!(query_pairs(&state, None, None), vec![s("P")]);
}

#[test]
fn callback_errors() {
    let mut state = factory();
    assert_eq!(
        reply(&mut state, INSTANTIATE_PAIR_REPLY_ID, Some(response("P"))),
        Err(ContractError::PendingPairNotFound)
    );
    execute_create_pair(&mut state, &s("O"), PairType::Xyk, tokens(&["A", "B"]), None).unwrap();
    assert_eq!(reply(&mut state, 2, Some(response("P"))), Err(ContractError::FailedToParseReply));
    assert_eq!(
        reply(&mut state, INSTANTIATE_PAIR_REPLY_ID, None),
        Err(ContractError::FailedToParseReply)
    );
    assert_eq!(
        reply(&mut state, INSTANTIATE_PAIR_REPLY_ID, Some(vec![0x12, 0x01])),
        Err(ContractError::MalformedReplyData)
    );
    assert_eq!(query_pair(&state, tokens(&["A", "B"])), Err(ContractError::PairNotFound));
    assert_eq!(finalize_pair(&mut state, None), Err(ContractError::MalformedReplyData));
    assert_eq!(finalize_pair(&mut state, Some(s("Q"))), Ok(s("Q")));
    assert_eq!(finalize_pair(&mut state, Some(s("Q"))), Err(ContractError::PairWasRegistered));
}

#[test]
fn reply_reads_the_address() {
    let mut state = factory();
    execute_create_pair(&mut state, &s("O"), PairType::Xyk, tokens(&["A", "B"]), None).unwrap();
    let r = reply(&mut state, INSTANTIATE_PAIR_REPLY_ID, Some(response("contract42")));
    assert_eq!(r, Ok(s("contract42")));
    assert_ne!(r, Ok(s("P")));
    assert_eq!(query_pair(&state, tokens(&["B", "A"])), Ok(s("contract42")));
}

#[test]
fn fee_bounds() {
    let mut state = factory();
    let ok = [(10000, 0), (5000, 5000), (100, 10), (0, 0), (9000, 1000)];
    for (t, m) in ok {
        let r = execute_update_pair_config(&mut state, &s("O"), cfg(PairType::Stable, t, m));
        assert_eq!(r, Ok(()), "{t} {m}");
    }
    let bad = [(10000, 1), (5001, 5000), (10, 11), (0, 1), (u16::MAX, u16::MAX)];
    for (t, m) in bad {
        let r = execute_update_pair_config(&mut state, &s("O"), cfg(PairType::Stable, t, m));
        assert_eq!(r, Err(ContractError::PairConfigInvalidFeeBps), "{t} {m}");
    }
    let r = execute_update_pair_config(&mut state, &s("X"), cfg(PairType::Stable, 1, 1));
    assert_eq!(r, Err(ContractError::Unauthorized));
}

#[test]
fn update_pair_type_replaces_entry() {
    let mut state = factory();
    execute_update_pair_config(&mut state, &s("O"), cfg(PairType::Xyk, 50, 5)).unwrap();
    execute_update_pair_config(&mut state, &s("O"), cfg(PairType::Custom(s("x")), 1, 0)).unwrap();
    execute_update_pair_config(&mut state, &s("O"), cfg(PairType::Custom(s("X")), 2, 0)).unwrap();
    let c = query_config(&state);
    assert_eq!(c.pair_configs.len(), 3);
    // custom-X < custom-x < xyk
    assert_eq!(c.pair_configs[0].total_fee_bps, 2);
    assert_eq!(c.pair_configs[1].total_fee_bps, 1);
    assert_eq!(c.pair_configs[2].total_fee_bps, 50);
}

#[test]
fn instantiate_errors() {
    let dup = msg(vec![cfg(PairType::Xyk, 1, 0), cfg(PairType::Xyk, 2, 0)]);
    assert_eq!(instantiate(dup).err(), Some(ContractError::PairConfigDuplicate));
    let custom_dup =
        msg(vec![cfg(PairType::Custom(s("c")), 1, 0), cfg(PairType::Custom(s("c")), 2, 0)]);
    assert_eq!(instantiate(custom_dup).err(), Some(ContractError::PairConfigDuplicate));
    let bad_fee = msg(vec![cfg(PairType::Xyk, 1, 2)]);
    assert_eq!(instantiate(bad_fee).err(), Some(ContractError::PairConfigInvalidFeeBps));
    let fine = msg(vec![cfg(PairType::Custom(s("c")), 1, 0), cfg(PairType::Custom(s("C")), 2, 0)]);
    assert!(instantiate(fine).is_ok());
}

#[test]
fn create_pair_errors() {
    let mut state = factory();
    let r = execute_create_pair(&mut state, &s("O"), PairType::Stable, tokens(&["A", "B"]), None);
    assert_eq!(r.err(), Some(ContractError::PairConfigNotFound));
    let r = execute_create_pair(&mut state, &s("O"), PairType::Xyk, tokens(&["A"]), None);
    assert_eq!(r.err(), Some(ContractError::DoublingAssets));
    let m = execute_create_pair(
        &mut state,
        &s("anyone"),
        PairType::Xyk,
        tokens(&["B", "A"]),
        Some(vec![1, 2]),
    )
    .unwrap();
    assert_eq!(m.code_id, 7);
    assert_eq!(m.token_code_id, 123);
    assert_eq!(m.admin, s("O"));
    assert_eq!(m.init_params, Some(vec![1, 2]));
    assert_eq!(m.pair_label, s("B-A"));
    assert_eq!(state.pending, Some(b"AB".to_vec()));
}

#[test]
fn scenario_initialize() {
    let state = factory();
    match query(&state, QueryMsg::Config).unwrap() {
        QueryResponse::Config(c) => {
            assert_eq!(c.token_code_id, 123);
            assert_eq!(c.pair_configs.len(), 1);
            assert!(matches!(c.pair_configs[0].pair_type, PairType::Xyk));
            assert_eq!(c.pair_configs[0].total_fee_bps, 100);
            assert_eq!(c.pair_configs[0].maker_fee_bps, 10);
            assert_eq!(c.owner, s("O"));
        }
        _ => panic!("expected the configuration"),
    }
}

#[test]
fn scenario_disabled_custom_type() {
    let mut state = factory();
    let mut c = cfg(PairType::Custom(s("X")), 0, 0);
    c.is_disabled = true;
    execute(&mut state, 0, &s("O"), ExecuteMsg::UpdatePairConfig { config: c }).unwrap();
    let r = execute(
        &mut state,
        0,
        &s("N"),
        ExecuteMsg::CreatePair {
            pair_type: PairType::Custom(s("X")),
            asset_infos: tokens(&["A", "B"]),
            init_params: None,
        },
    );
    assert_eq!(r.err(), Some(ContractError::PairConfigDisabled));
}

#[test]
fn scenario_create_then_replay() {
    let mut state = factory();
    let r = execute(
        &mut state,
        0,
        &s("O"),
        ExecuteMsg::CreatePair {
            pair_type: PairType::Xyk,
            asset_infos: tokens(&["A", "B"]),
            init_params: None,
        },
    )
    .unwrap();
    assert!(matches!(r, Response::InstantiatePair(_)));
    reply(&mut state, INSTANTIATE_PAIR_REPLY_ID, Some(response("P"))).unwrap();
    match query(&state, QueryMsg::Pair { asset_infos: tokens(&["A", "B"]) }).unwrap() {
        QueryResponse::Pair(p) => assert_eq!(p, s("P")),
        _ => panic!("expected a pair"),
    }
    assert_eq!(
        reply(&mut state, INSTANTIATE_PAIR_REPLY_ID, Some(response("P"))),
        Err(ContractError::PairWasRegistered)
    );
}

#[test]
fn scenario_ownership_transfer() {
    let mut state = factory();
    execute_propose_new_owner(&mut state, &s("O"), s("N"), 100, 1000).unwrap();
    execute_claim_ownership(&mut state, &s("N"), 1100).unwrap();
    assert_eq!(query_config(&state).owner, s("N"));
    assert_eq!(
        execute_claim_ownership(&mut state, &s("N"), 1100),
        Err(ContractError::OwnershipProposalNotFound)
    );
}

#[test]
fn expired_proposal_is_gone() {
    let mut state = factory();
    execute_propose_new_owner(&mut state, &s("O"), s("N"), 100, 1000).unwrap();
    assert_eq!(
        execute_claim_ownership(&mut state, &s("N"), 1101),
        Err(ContractError::OwnershipProposalNotFound)
    );
    assert_eq!(
        execute_drop_ownership_proposal(&mut state, &s("O"), 1101),
        Err(ContractError::OwnershipProposalNotFound)
    );
    assert_eq!(query_config(&state).owner, s("O"));
}

#[test]
fn second_proposal_overwrites_first() {
    let mut state = factory();
    execute_propose_new_owner(&mut state, &s("O"), s("N1"), 100, 0).unwrap();
    execute_propose_new_owner(&mut state, &s("O"), s("N2"), 100, 0).unwrap();
    assert_eq!(execute_claim_ownership(&mut state, &s("N1"), 50), Err(ContractError::Unauthorized));
    execute_claim_ownership(&mut state, &s("N2"), 50).unwrap();
    assert_eq!(query_config(&state).owner, s("N2"));
}

#[test]
fn proposal_expiry_saturates() {
    let mut state = factory();
    execute_propose_new_owner(&mut state, &s("O"), s("N"), 100, u64::MAX - 10).unwrap();
    assert_eq!(state.proposal.as_ref().unwrap().ttl, u64::MAX);
    execute_claim_ownership(&mut state, &s("N"), u64::MAX).unwrap();
}

#[test]
fn scenario_deregister_with_incentives() {
    let mut state = factory();
    make_pair(&mut state, &["A", "B"], "P");
    let r = execute(&mut state, 0, &s("O"), ExecuteMsg::Deregister { asset_infos: tokens(&["A", "B"]) })
        .unwrap();
    match r {
        Response::Deregistered(d) => {
            assert_eq!(d.pair_addr, s("P"));
            assert_eq!(d.incentives_address, Some(s("incentives")));
        }
        _ => panic!("expected a deregistration"),
    }
    assert_eq!(
        query(&state, QueryMsg::Pair { asset_infos: tokens(&["A", "B"]) }).err(),
        Some(ContractError::PairNotFound)
    );
}

#[test]
fn deregister_errors() {
    let mut state = factory();
    make_pair(&mut state, &["A", "B"], "P");
    assert_eq!(
        deregister(&mut state, &s("X"), tokens(&["A", "B"])).err(),
        Some(ContractError::Unauthorized)
    );
    assert_eq!(
        deregister(&mut state, &s("O"), tokens(&["A", "A"])).err(),
        Some(ContractError::DoublingAssets)
    );
    assert_eq!(
        deregister(&mut state, &s("O"), tokens(&["A", "C"])).err(),
        Some(ContractError::PairNotFound)
    );
}

#[test]
fn pairs_are_paged_by_key() {
    let mut state = factory();
    let names = ["d", "b", "a", "c", "e"];
    for (i, n) in names.iter().enumerate() {
        make_pair(&mut state, &[*n, "z"], &format!("p{i}"));
    }
    // keys: az, bz, cz, dz, ez
    assert_eq!(query_pairs(&state, None, None), vec![s("p2"), s("p1"), s("p3"), s("p0"), s("p4")]);
    assert_eq!(query_pairs(&state, None, Some(2)), vec![s("p2"), s("p1")]);
    assert_eq!(query_pairs(&state, Some(tokens(&["z", "b"])), Some(2)), vec![s("p3"), s("p0")]);
    assert_eq!(query_pairs(&state, Some(tokens(&["c", "y"])), None), vec![s("p3"), s("p0"), s("p4")]);
    assert_eq!(query_pairs(&state, Some(tokens(&["c", "z"])), None), vec![s("p0"), s("p4")]);
    assert_eq!(query_pairs(&state, Some(tokens(&["e", "z"])), None), Vec::<String>::new());
    assert_eq!(query_pairs(&state, None, Some(0)), Vec::<String>::new());
}

#[test]
fn page_size_is_capped() {
    let mut state = factory();
    for i in 0..35u32 {
        let t = format!("t{i:02}");
        make_pair(&mut state, &[t.as_str(), "z"], &format!("p{i:02}"));
    }
    assert_eq!(query_pairs(&state, None, None).len(), 10);
    assert_eq!(query_pairs(&state, None, Some(100)).len(), 30);
    assert_eq!(query_pairs(&state, None, Some(30))[29], s("p29"));
}

#[test]
fn fee_info_and_blacklist() {
    let mut state = factory();
    let mut g = cfg(PairType::Stable, 30, 3);
    g.is_generator_disabled = true;
    execute_update_pair_config(&mut state, &s("O"), g).unwrap();
    match query(&state, QueryMsg::FeeInfo { pair_type: PairType::Stable }).unwrap() {
        QueryResponse::FeeInfo(f) => {
            assert_eq!(f.total_fee_bps, 30);
            assert_eq!(f.maker_fee_bps, 3);
            assert_eq!(f.fee_address, Some(s("fees")));
        }
        _ => panic!("expected fee info"),
    }
    assert_eq!(
        query(&state, QueryMsg::FeeInfo { pair_type: PairType::Custom(s("none")) }).err(),
        Some(ContractError::PairConfigNotFound)
    );
    match query(&state, QueryMsg::BlacklistedPairTypes).unwrap() {
        QueryResponse::BlacklistedPairTypes(v) => {
            assert_eq!(v.len(), 1);
            assert!(matches!(v[0], PairType::Stable));
        }
        _ => panic!("expected pair types"),
    }
    let _ = query_config(&state);
}

#[test]
fn well_formedness_is_checked() {
    let mut state = factory();
    assert!(state.check_wf());
    make_pair(&mut state, &["A", "B"], "P");
    make_pair(&mut state, &["C", "D"], "Q");
    assert!(state.check_wf());
    state.pairs.keys.swap(0, 1);
    assert!(!state.check_wf());
    state.pairs.keys.swap(0, 1);
    state.pairs.addrs.pop();
    assert!(!state.check_wf());
    let mut other = factory();
    other.pair_configs.push(cfg(PairType::Xyk, 1, 0));
    assert!(!other.check_wf());
    let mut fees = factory();
    fees.pair_configs[0].maker_fee_bps = 101;
    assert!(!fees.check_wf());
}

#[test]
fn proposal_limits() {
    let mut state = factory();
    assert_eq!(
        execute_propose_new_owner(&mut state, &s("O"), s("O"), 100, 0),
        Err(ContractError::NewOwnerIsCurrent)
    );
    assert_eq!(
        execute_propose_new_owner(&mut state, &s("O"), s("N"), 1209601, 0),
        Err(ContractError::ProposalTtlTooLong)
    );
    assert!(state.proposal.is_none());
    execute_propose_new_owner(&mut state, &s("O"), s("N"), 1209600, 5).unwrap();
    assert_eq!(state.proposal.as_ref().unwrap().ttl, 1209605);
}

#[test]
fn pair_types_listed_by_text_form() {
    let mut state = factory();
    let mut a = cfg(PairType::Custom(s("a")), 1, 0);
    a.is_disabled = true;
    execute_update_pair_config(&mut state, &s("O"), a).unwrap();
    let mut st = cfg(PairType::Stable, 1, 0);
    st.is_generator_disabled = true;
    execute_update_pair_config(&mut state, &s("O"), st).unwrap();
    let mut x = cfg(PairType::Xyk, 100, 10);
    x.is_disabled = true;
    execute_update_pair_config(&mut state, &s("O"), x).unwrap();
    // custom-a < stable < xyk
    let c = query_config(&state);
    assert!(matches!(&c.pair_configs[0].pair_type, PairType::Custom(n) if n == "a"));
    assert!(matches!(c.pair_configs[1].pair_type, PairType::Stable));
    assert!(matches!(c.pair_configs[2].pair_type, PairType::Xyk));
    let b = pair_factory::factory::query_blacklisted_pair_types(&state);
    assert_eq!(b.len(), 3);
    assert!(matches!(&b[0], PairType::Custom(n) if n == "a"));
    assert!(matches!(b[2], PairType::Xyk));
    let sorted = instantiate(msg(vec![
        cfg(PairType::Xyk, 1, 0),
        cfg(PairType::Custom(s("b")), 1, 0),
        cfg(PairType::Custom(s("B")), 1, 0),
    ]))
    .unwrap();
    let c = query_config(&sorted);
    assert!(matches!(&c.pair_configs[0].pair_type, PairType::Custom(n) if n == "B"));
    assert!(matches!(&c.pair_configs[1].pair_type, PairType::Custom(n) if n == "b"));
    assert!(matches!(c.pair_configs[2].pair_type, PairType::Xyk));
}

#[test]
fn repeated_assets_find_no_pair() {
    let mut state = factory();
    make_pair(&mut state, &["A", "B"], "P");
    assert_eq!(query_pair(&state, tokens(&["A", "A", "B"])), Err(ContractError::PairNotFound));
    assert_eq!(query_pair(&state, tokens(&["A", "B"])), Ok(s("P")));
}
