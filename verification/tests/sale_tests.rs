use sha2::Digest;
use token_sale::error::ContractError;
use token_sale::instruction::Instruction;
use token_sale::sale::{
    convert_reward, execute_deposit, execute_deposit_private_sale, execute_set_whitelist_merkle_root,
    execute_start_vesting, execute_transfer_ownership, execute_update_info, execute_withdraw_funds,
    execute_withdraw_unsold_token, instantiate, query, query_count, query_participant,
    query_participants, query_sale_status, receive_cw20, AlloInfo, Cw20HookMsg, InstantiateMsg,
    QueryMsg, QueryResponse, State, ACCURACY,
};

fn init_msg() -> InstantiateMsg {
    InstantiateMsg {
        fund_token: "uusd".to_string(),
        reward_token: "reward_token".to_string(),
        vesting: "vesting".to_string(),
        whitelist_merkle_root: "root".to_string(),
        exchange_rate: 1,
        private_start_time: 0,
        public_start_time: 0,
        presale_period: 100,
        distribution_amount: 1000,
    }
}

/// A state with gating disabled and a one-to-one exchange rate.
fn open_state() -> State {
    let mut msg = init_msg();
    msg.whitelist_merkle_root = "".to_string();
    msg.exchange_rate = ACCURACY;
    instantiate("owner".to_string(), msg)
}

fn no_caps() -> AlloInfo {
    AlloInfo { public_allocation: u64::MAX, private_allocation: 0 }
}

#[test]
fn test_initialize() {
    let state = instantiate("owner".to_string(), init_msg());
    assert_eq!(state.owner, "owner");
    assert_eq!(state.private_sold_amount, 0);
    assert_eq!(state.public_sold_amount, 0);
    println!("{:?}", "Initializing contract ok")
}

#[test]
fn test_security() {
    let mut state = instantiate("owner".to_string(), init_msg());
    let owner = "owner".to_string();
    let user = "user".to_string();

    let res = execute_update_info(&mut state, &user, 1, 10, 100);
    assert_eq!(res.unwrap_err(), ContractError::Unauthorized);

    let res = execute_transfer_ownership(&mut state, &user, user.clone());
    assert_eq!(res.unwrap_err(), ContractError::Unauthorized);

    execute_transfer_ownership(&mut state, &owner, user.clone()).unwrap();
    execute_update_info(&mut state, &user, 1, 10, 100).unwrap();
    assert_eq!(state.private_start_time, 1);
    assert_eq!(state.public_start_time, 10);
    assert_eq!(state.presale_period, 100);
}

#[test]
fn test_reward_conversion_exactness() {
    // fund-decimals 6, reward-decimals 9, one-to-one rate
    assert_eq!(convert_reward(1_000_000, ACCURACY, 6, 9), Ok(1_000_000_000));
}

#[test]
fn test_reward_conversion_failures() {
    // a zero exchange rate is a configuration error
    assert_eq!(convert_reward(1, 0, 6, 6), Err(ContractError::AmountOverflow));
    // ten to the fortieth does not fit the wide intermediate
    assert_eq!(convert_reward(1, ACCURACY, 6, 40), Err(ContractError::AmountOverflow));
    // the narrowed result must fit the amount type
    assert_eq!(convert_reward(u64::MAX, 1, 6, 6), Err(ContractError::AmountOverflow));
}

#[test]
fn test_public_deposit_accumulates() {
    let mut state = open_state();
    let alice = "alice".to_string();
    let allo = AlloInfo { public_allocation: 500, private_allocation: 0 };
    let proof: Vec<String> = vec![];

    let msgs = execute_deposit(&mut state, 50, &alice, 200, &allo, &proof, 6, 6).unwrap();
    assert_eq!(msgs.len(), 1);
    match &msgs[0] {
        Instruction::UpdateRecipient { contract, recipient, total } => {
            assert_eq!(contract, "vesting");
            assert_eq!(recipient, "alice");
            assert_eq!(*total, 200);
        }
        _ => panic!("wrong instruction"),
    }

    // deposits add up; the entitlement message carries the new total
    let msgs = execute_deposit(&mut state, 60, &alice, 300, &allo, &proof, 6, 6).unwrap();
    match &msgs[0] {
        Instruction::UpdateRecipient { total, .. } => assert_eq!(*total, 500),
        _ => panic!("wrong instruction"),
    }

    let data = query_participant(&state, &alice).unwrap().data;
    assert_eq!(data.fund_balance, 500);
    assert_eq!(data.reward_balance, 500);
    assert_eq!(state.public_sold_amount, 500);
    assert_eq!(query_count(&state).count, 1);

    // the next deposit would pass the cap and leaves everything unchanged
    let res = execute_deposit(&mut state, 70, &alice, 1, &allo, &proof, 6, 6);
    assert_eq!(res.unwrap_err(), ContractError::ExceedAllocation);
    let data = query_participant(&state, &alice).unwrap().data;
    assert_eq!(data.fund_balance, 500);
    assert_eq!(state.public_sold_amount, 500);
}

#[test]
fn test_public_deposit_time_gate() {
    let mut state = open_state();
    state.public_start_time = 10;
    let allo = no_caps();
    let proof: Vec<String> = vec![];

    let res = execute_deposit(&mut state, 9, &"a".to_string(), 1, &allo, &proof, 6, 6);
    assert_eq!(res.unwrap_err(), ContractError::PublicNotInProgress);
    let res = execute_deposit(&mut state, 111, &"a".to_string(), 1, &allo, &proof, 6, 6);
    assert_eq!(res.unwrap_err(), ContractError::PublicNotInProgress);
    // the window is inclusive at both ends
    execute_deposit(&mut state, 10, &"a".to_string(), 1, &allo, &proof, 6, 6).unwrap();
    execute_deposit(&mut state, 110, &"a".to_string(), 1, &allo, &proof, 6, 6).unwrap();
}

#[test]
fn test_private_deposit_rolls_into_public_cap() {
    let mut state = open_state();
    let alice = "alice".to_string();
    let contract = "presale".to_string();
    let allo = AlloInfo { public_allocation: 100, private_allocation: 300 };
    let proof: Vec<String> = vec![];

    let msgs = execute_deposit_private_sale(
        &mut state, 5, &alice, &contract, 250, &allo, &proof, 6, 6,
    )
    .unwrap();
    assert_eq!(msgs.len(), 2);
    match &msgs[0] {
        Instruction::TransferFrom { token, owner, recipient, amount } => {
            assert_eq!(token, "uusd");
            assert_eq!(owner, "alice");
            assert_eq!(recipient, "presale");
            assert_eq!(*amount, 250u128);
        }
        _ => panic!("wrong instruction"),
    }
    match &msgs[1] {
        Instruction::UpdateRecipient { contract, recipient, total } => {
            assert_eq!(contract, "vesting");
            assert_eq!(recipient, "alice");
            assert_eq!(*total, 250);
        }
        _ => panic!("wrong instruction"),
    }
    assert_eq!(state.private_sold_amount, 250);

    // private capacity left unspent (300 - 250) rolls into the public cap:
    // public capacity is 100 + 300 - 250 = 150 against a balance of 250
    let res = execute_deposit(&mut state, 50, &alice, 1, &allo, &proof, 6, 6);
    assert_eq!(res.unwrap_err(), ContractError::ExceedAllocation);

    // over the private cap fails too
    let res =
        execute_deposit_private_sale(&mut state, 50, &alice, &contract, 51, &allo, &proof, 6, 6);
    assert_eq!(res.unwrap_err(), ContractError::ExceedAllocation);

    // before the private start nothing opens
    state.private_start_time = 60;
    let res =
        execute_deposit_private_sale(&mut state, 50, &alice, &contract, 1, &allo, &proof, 6, 6);
    assert_eq!(res.unwrap_err(), ContractError::PrivateNotInProgress);
}

#[test]
fn test_deposit_with_merkle_gate() {
    let mut state = open_state();
    let owner = "owner".to_string();
    let user = "user".to_string();
    let proof: Vec<String> = vec![];
    // leaf for (user, private=200, public=400), published as the root itself
    let leaf = sha2::Sha256::digest(b"user200400").to_vec();
    execute_set_whitelist_merkle_root(&mut state, &owner, hex::encode(&leaf)).unwrap();

    let allo = AlloInfo { public_allocation: 400, private_allocation: 200 };
    execute_deposit(&mut state, 50, &user, 100, &allo, &proof, 6, 6).unwrap();

    // claiming different caps fails the proof
    let fake = AlloInfo { public_allocation: 500, private_allocation: 200 };
    let res = execute_deposit(&mut state, 50, &user, 100, &fake, &proof, 6, 6);
    assert_eq!(res.unwrap_err(), ContractError::ProofMismatch);

    // a malformed root can never be matched
    execute_set_whitelist_merkle_root(&mut state, &owner, "root".to_string()).unwrap();
    let res = execute_deposit(&mut state, 50, &user, 100, &allo, &proof, 6, 6);
    assert_eq!(res.unwrap_err(), ContractError::ProofDecodeError);
}

#[test]
fn test_receive_cw20_gates() {
    let mut state = open_state();
    let contract = "presale".to_string();
    let hook = Cw20HookMsg::Deposit { allo_info: no_caps(), proof: vec![] };

    // only the fund token contract may forward deposits
    let res = receive_cw20(
        &mut state,
        50,
        &contract,
        &"impostor".to_string(),
        &"alice".to_string(),
        10,
        hook,
        6,
        6,
    );
    assert_eq!(res.unwrap_err(), ContractError::Unauthorized);

    // an amount past the amount type cannot be booked
    let hook = Cw20HookMsg::Deposit { allo_info: no_caps(), proof: vec![] };
    let res = receive_cw20(
        &mut state,
        50,
        &contract,
        &"uusd".to_string(),
        &"alice".to_string(),
        u64::MAX as u128 + 1,
        hook,
        6,
        6,
    );
    assert_eq!(res.unwrap_err(), ContractError::AmountOverflow);

    // a well-formed forwarded deposit lands
    let hook = Cw20HookMsg::Deposit { allo_info: no_caps(), proof: vec![] };
    receive_cw20(
        &mut state,
        50,
        &contract,
        &"uusd".to_string(),
        &"alice".to_string(),
        10,
        hook,
        6,
        6,
    )
    .unwrap();
    assert_eq!(query_participant(&state, &"alice".to_string()).unwrap().data.fund_balance, 10);
}

#[test]
fn test_owner_withdrawals_after_end() {
    let state = open_state();
    let owner = "owner".to_string();
    let user = "user".to_string();
    let recv = "treasury".to_string();

    // the window runs to public_start_time + presale_period = 100
    let res = execute_withdraw_funds(&state, 100, &owner, &recv, 777);
    assert_eq!(res.unwrap_err(), ContractError::StillInProgress);
    let res = execute_withdraw_funds(&state, 101, &user, &recv, 777);
    assert_eq!(res.unwrap_err(), ContractError::Unauthorized);

    let msgs = execute_withdraw_funds(&state, 101, &owner, &recv, 777).unwrap();
    match &msgs[0] {
        Instruction::Transfer { token, recipient, amount } => {
            assert_eq!(token, "reward_token");
            assert_eq!(recipient, "treasury");
            assert_eq!(*amount, 777u128);
        }
        _ => panic!("wrong instruction"),
    }

    let msgs = execute_withdraw_unsold_token(&state, 101, &owner, &recv, 900).unwrap();
    match &msgs[0] {
        Instruction::TransferFrom { token, owner, recipient, amount } => {
            assert_eq!(token, "reward_token");
            assert_eq!(owner, "vesting");
            assert_eq!(recipient, "treasury");
            assert_eq!(*amount, 900u128);
        }
        _ => panic!("wrong instruction"),
    }

    let msgs = execute_start_vesting(&state, 101, &owner).unwrap();
    match &msgs[0] {
        Instruction::SetStartTime { contract, new_start_time } => {
            assert_eq!(contract, "reward_token");
            assert_eq!(*new_start_time, 102);
        }
        _ => panic!("wrong instruction"),
    }
}

#[test]
fn test_withdraw_unsold_subtracts_sold() {
    let mut state = open_state();
    let owner = "owner".to_string();
    let recv = "treasury".to_string();
    let allo = no_caps();
    let proof: Vec<String> = vec![];
    execute_deposit(&mut state, 50, &"a".to_string(), 300, &allo, &proof, 6, 6).unwrap();

    let msgs = execute_withdraw_unsold_token(&state, 101, &owner, &recv, 1000).unwrap();
    match &msgs[0] {
        Instruction::TransferFrom { amount, .. } => assert_eq!(*amount, 700u128),
        _ => panic!("wrong instruction"),
    }

    // a balance below what was sold cannot cover the subtraction
    let res = execute_withdraw_unsold_token(&state, 101, &owner, &recv, 299);
    assert_eq!(res.unwrap_err(), ContractError::InsufficientBalance);
}

#[test]
fn test_queries() {
    let mut state = open_state();
    let allo = no_caps();
    let proof: Vec<String> = vec![];
    for name in ["a", "b", "c"] {
        execute_deposit(&mut state, 50, &name.to_string(), 10, &allo, &proof, 6, 6).unwrap();
    }

    match query(&state, &QueryMsg::ParticipantsCount {}).unwrap() {
        QueryResponse::ParticipantsCount(c) => assert_eq!(c.count, 3),
        _ => panic!("wrong response"),
    }
    let page = query_participants(&state, 0, 2);
    assert_eq!(page.participants, vec!["a".to_string(), "b".to_string()]);
    let page = query_participants(&state, 1, 2);
    assert_eq!(page.participants, vec!["c".to_string()]);
    // out-of-range pages are clamped to empty
    assert_eq!(query_participants(&state, 9, 9).participants.len(), 0);

    match query(&state, &QueryMsg::GetSaleStatus {}).unwrap() {
        QueryResponse::SaleStatus(s) => {
            assert_eq!(s.private_sold_amount, 0);
            assert_eq!(s.public_sold_amount, 30);
        }
        _ => panic!("wrong response"),
    }
    assert!(query(&state, &QueryMsg::GetParticipant { user: "zz".to_string() }).is_none());
    assert_eq!(query_sale_status(&state).public_sold_amount, 30);
}
