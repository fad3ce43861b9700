use pair_factory::assets::AssetInfo;
use pair_factory::config::{PairConfig, PairType, UpdateConfig};
use pair_factory::contract::{execute, ExecuteMsg, Response};
use pair_factory::error::ContractError;
use pair_factory::factory::{
    instantiate, query_blacklisted_pair_types, query_config, query_fee_info, reply,
    FactoryState, InstantiateMsg, PairInstantiation, INSTANTIATE_PAIR_REPLY_ID,
};

fn s(x: &str) -> String {
    x.to_string()
}

fn pair_config(code_id: u64, pair_type: PairType, total: u16, maker: u16) -> PairConfig {
    PairConfig {
        code_id,
        pair_type,
        total_fee_bps: total,
        maker_fee_bps: maker,
        is_disabled: false,
        is_generator_disabled: false,
        permissioned: false,
    }
}

/// The response of an instantiation that created the contract `addr`.
fn instantiate_response(addr: &str) -> Vec<u8> {
    let mut v = vec![0x0a, addr.len() as u8];
    v.extend_from_slice(addr.as_bytes());
    v
}

fn init_factory(owner: &str) -> FactoryState {
    let mut transmuter = pair_config(12, PairType::Custom(s("transmuter")), 0, 0);
    transmuter.permissioned = true;
    let msg = InstantiateMsg {
        pair_configs: vec![
            pair_config(10, PairType::Xyk, 30, 10),
            pair_config(11, PairType::Stable, 5, 2),
            transmuter,
        ],
        token_code_id: 1,
        fee_address: None,
        owner: s(owner),
        incentives_address: None,
        coin_registry_address: s("coin_registry"),
    };
    instantiate(msg).unwrap()
}

fn create_pair(
    state: &mut FactoryState,
    sender: &str,
    pair_type: PairType,
    assets: &[&str],
    addr: &str,
) -> Result<PairInstantiation, ContractError> {
    let msg = ExecuteMsg::CreatePair {
        pair_type,
        asset_infos: assets.iter().map(|a| AssetInfo::token(s(a))).collect(),
        init_params: None,
    };
    match execute(state, 0, &s(sender), msg)? {
        Response::InstantiatePair(m) => {
            reply(state, INSTANTIATE_PAIR_REPLY_ID, Some(instantiate_response(addr)))?;
            Ok(m)
        }
        _ => panic!("create_pair must ask for an instantiation"),
    }
}

#[test]
fn proper_initialization() {
    let pair_configs = vec![PairConfig {
        code_id: 321,
        pair_type: PairType::Xyk,
        total_fee_bps: 100,
        maker_fee_bps: 10,
        is_disabled: false,
        is_generator_disabled: false,
        permissioned: false,
    }];
    let msg = InstantiateMsg {
        pair_configs,
        token_code_id: 123,
        fee_address: None,
        owner: s("owner"),
        incentives_address: Some(s("incentives")),
        coin_registry_address: s("coin_registry"),
    };
    let state = instantiate(msg).unwrap();
    let config_res = query_config(&state);
    assert_eq!(123, config_res.token_code_id);
    assert_eq!(config_res.pair_configs.len(), 1);
    let pc = &config_res.pair_configs[0];
    assert_eq!(pc.code_id, 321);
    assert!(matches!(pc.pair_type, PairType::Xyk));
    assert_eq!(pc.total_fee_bps, 100);
    assert_eq!(pc.maker_fee_bps, 10);
    assert!(!pc.is_disabled && !pc.is_generator_disabled && !pc.permissioned);
    assert_eq!(s("owner"), config_res.owner);
}

#[test]
fn update_config() {
    let mut state = init_factory("owner");
    execute(
        &mut state,
        0,
        &s("owner"),
        ExecuteMsg::UpdateConfig(UpdateConfig {
            token_code_id: Some(200u64),
            fee_address: Some(s("fee")),
            incentives_address: Some(s("incentives")),
            coin_registry_address: None,
        }),
    )
    .unwrap();
    let config_res = query_config(&state);
    assert_eq!(200u64, config_res.token_code_id);
    assert_eq!(s("fee"), config_res.fee_address.unwrap());
    assert_eq!(s("incentives"), config_res.incentives_address.unwrap());
    assert_eq!(config_res.coin_registry_address, s("coin_registry"));

    let res = execute(
        &mut state,
        0,
        &s("not_owner"),
        ExecuteMsg::UpdateConfig(UpdateConfig {
            token_code_id: None,
            fee_address: None,
            incentives_address: None,
            coin_registry_address: None,
        }),
    );
    assert_eq!(res.err(), Some(ContractError::Unauthorized));
}

#[test]
fn test_create_pair() {
    let mut state = init_factory("owner");
    let err = create_pair(&mut state, "owner", PairType::Xyk, &["tokenX", "tokenX"], "pair0")
        .err().unwrap();
    assert_eq!(err, ContractError::DoublingAssets);

    let m = create_pair(&mut state, "owner", PairType::Xyk, &["tokenX", "tokenY"], "pair0")
        .unwrap();
    assert_eq!(m.pair_label, format!("{}-{}", "tokenX", "tokenY"));

    execute(
        &mut state,
        0,
        &s("owner"),
        ExecuteMsg::UpdatePairConfig {
            config: PairConfig {
                code_id: 0,
                pair_type: PairType::Custom(s("Custom")),
                total_fee_bps: 100,
                maker_fee_bps: 40,
                is_disabled: true,
                is_generator_disabled: false,
                permissioned: false,
            },
        },
    )
    .unwrap();

    let err = create_pair(
        &mut state,
        "someone",
        PairType::Custom(s("Custom")),
        &["tokenX", "tokenZ"],
        "pair1",
    )
    .err().unwrap();
    assert_eq!(err, ContractError::PairConfigDisabled);

    let fee_info = query_fee_info(&state, PairType::Custom(s("Custom"))).unwrap();
    assert_eq!(100, fee_info.total_fee_bps);
    assert_eq!(40, fee_info.maker_fee_bps);

    let pair_types = query_blacklisted_pair_types(&state);
    assert_eq!(pair_types.len(), 1);
    assert!(matches!(&pair_types[0], PairType::Custom(n) if n == "Custom"));
}

#[test]
fn check_update_owner() {
    let mut state = init_factory("owner");
    let propose = || ExecuteMsg::ProposeNewOwner { owner: s("new_owner"), expires_in: 100 };

    let err = execute(&mut state, 0, &s("not_owner"), propose()).err();
    assert_eq!(err, Some(ContractError::Unauthorized));

    let err = execute(&mut state, 0, &s("new_owner"), ExecuteMsg::ClaimOwnership).err();
    assert_eq!(err, Some(ContractError::OwnershipProposalNotFound));

    execute(&mut state, 0, &s("owner"), propose()).unwrap();

    let err = execute(&mut state, 0, &s("invalid_addr"), ExecuteMsg::ClaimOwnership).err();
    assert_eq!(err, Some(ContractError::Unauthorized));

    let err = execute(&mut state, 0, &s("new_owner"), ExecuteMsg::DropOwnershipProposal).err();
    assert_eq!(err, Some(ContractError::Unauthorized));

    execute(&mut state, 0, &s("owner"), ExecuteMsg::DropOwnershipProposal).unwrap();

    let err = execute(&mut state, 0, &s("new_owner"), ExecuteMsg::ClaimOwnership).err();
    assert_eq!(err, Some(ContractError::OwnershipProposalNotFound));

    execute(&mut state, 0, &s("owner"), propose()).unwrap();
    execute(&mut state, 0, &s("new_owner"), ExecuteMsg::ClaimOwnership).unwrap();

    assert_eq!(query_config(&state).owner, s("new_owner"));
}

#[test]
fn test_create_permissioned_pair() {
    let mut state = init_factory("owner");
    let err = create_pair(
        &mut state,
        "random_stranger",
        PairType::Custom(s("transmuter")),
        &["tokenX", "tokenY"],
        "pair0",
    )
    .err().unwrap();
    assert_eq!(err, ContractError::Unauthorized);

    create_pair(
        &mut state,
        "owner",
        PairType::Custom(s("transmuter")),
        &["tokenX", "tokenY"],
        "pair0",
    )
    .unwrap();
}
