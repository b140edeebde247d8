use token_sale::error::ContractError;
use token_sale::instruction::Instruction;
use token_sale::table::Table;
use token_sale::vesting::{
    instantiate, query_vested, query_withdrawable, set_start_time, transfer_ownership,
    update_recipient, vested_amount, withdraw, InstantiateMsg, VestingRecord,
};

fn init_msg(release_rate: u64, initial_unlock: u64) -> InstantiateMsg {
    InstantiateMsg {
        reward_token: "reward_token".to_string(),
        release_interval: 60,
        release_rate,
        initial_unlock,
        lock_period: 600,
        vesting_period: 6000,
    }
}

#[test]
fn vesting_test_initialize() {
    let cfg = instantiate("owner".to_string(), init_msg(10, 10));
    assert_eq!(cfg.owner, "owner");
    assert_eq!(cfg.reward_token, "reward_token");
    assert_eq!(cfg.start_time, 0);
    println!("{:?}", "Initializing contract ok")
}

#[test]
fn vesting_test_security() {
    let mut cfg = instantiate("owner".to_string(), init_msg(10, 10));
    let mut records: Table<VestingRecord> = Table::new();
    let owner = "owner".to_string();
    let user = "user".to_string();

    let res = update_recipient(&cfg, &mut records, &user, &user, 1000);
    assert_eq!(res.unwrap_err(), ContractError::Unauthorized);

    let res = set_start_time(&mut cfg, &user, 1000);
    assert_eq!(res.unwrap_err(), ContractError::Unauthorized);

    let res = transfer_ownership(&mut cfg, &user, user.clone());
    assert_eq!(res.unwrap_err(), ContractError::Unauthorized);

    transfer_ownership(&mut cfg, &owner, user.clone()).unwrap();
    update_recipient(&cfg, &mut records, &user, &user, 1000).unwrap();
    set_start_time(&mut cfg, &user, 1000).unwrap();
}

#[test]
fn test_vesting_amount() {
    let mut cfg = instantiate("owner".to_string(), init_msg(100, 100));
    let mut records: Table<VestingRecord> = Table::new();
    let owner = "owner".to_string();
    let user = "user".to_string();

    let user_vesting_amount: u64 = 1000;
    update_recipient(&cfg, &mut records, &owner, &user, user_vesting_amount).unwrap();

    let start_time: u64 = 1;
    set_start_time(&mut cfg, &owner, start_time).unwrap();

    // in lock period
    let now = start_time;
    assert_eq!(query_vested(&cfg, &records, &user, now).amount, 0);
    assert_eq!(query_withdrawable(&cfg, &records, &user, now).amount, 0);

    // initial unlock
    let now = start_time + cfg.lock_period;
    let initial_unlock_amount = user_vesting_amount * cfg.initial_unlock / 1000;
    assert_eq!(query_vested(&cfg, &records, &user, now).amount, initial_unlock_amount);
    assert_eq!(query_withdrawable(&cfg, &records, &user, now).amount, initial_unlock_amount);

    // first release tick
    let now = start_time + cfg.lock_period + cfg.release_interval;
    let amount_per_interval = user_vesting_amount * cfg.release_rate / 1000;
    assert_eq!(
        query_vested(&cfg, &records, &user, now).amount,
        amount_per_interval + initial_unlock_amount
    );
    assert_eq!(
        query_withdrawable(&cfg, &records, &user, now).amount,
        amount_per_interval + initial_unlock_amount
    );

    // before 5th release tick
    let now = start_time + cfg.lock_period + cfg.release_interval * 5 - 1;
    assert_eq!(
        query_vested(&cfg, &records, &user, now).amount,
        amount_per_interval * 4 + initial_unlock_amount
    );
    assert_eq!(
        query_withdrawable(&cfg, &records, &user, now).amount,
        amount_per_interval * 4 + initial_unlock_amount
    );

    // after vesting period
    let now = start_time + cfg.lock_period + cfg.vesting_period;
    assert_eq!(query_vested(&cfg, &records, &user, now).amount, user_vesting_amount);
    assert_eq!(query_withdrawable(&cfg, &records, &user, now).amount, user_vesting_amount);
}

#[test]
fn test_withdraw() {
    let mut cfg = instantiate("owner".to_string(), init_msg(100, 100));
    let mut records: Table<VestingRecord> = Table::new();
    let owner = "owner".to_string();
    let user = "user".to_string();

    let user_vesting_amount: u64 = 1000;
    update_recipient(&cfg, &mut records, &owner, &user, user_vesting_amount).unwrap();

    let start_time: u64 = 1;
    set_start_time(&mut cfg, &owner, start_time).unwrap();

    // 5th release tick
    let initial_unlock_amount = user_vesting_amount * cfg.initial_unlock / 1000;
    let amount_per_interval = user_vesting_amount * cfg.release_rate / 1000;
    let now = start_time + cfg.lock_period + cfg.release_interval * 5;

    let res = withdraw(&cfg, &mut records, now, &user).unwrap();
    assert_eq!(res.len(), 1);

    assert_eq!(
        query_vested(&cfg, &records, &user, now).amount,
        amount_per_interval * 5 + initial_unlock_amount
    );
    assert_eq!(query_withdrawable(&cfg, &records, &user, now).amount, 0);

    // after vesting period
    let now = start_time + cfg.lock_period + cfg.vesting_period;
    assert_eq!(query_vested(&cfg, &records, &user, now).amount, user_vesting_amount);
    assert_eq!(
        query_withdrawable(&cfg, &records, &user, now).amount,
        user_vesting_amount - (amount_per_interval * 5 + initial_unlock_amount)
    );
}

#[test]
fn test_withdraw_twice_same_timestamp() {
    let mut cfg = instantiate("owner".to_string(), init_msg(100, 100));
    let mut records: Table<VestingRecord> = Table::new();
    let owner = "owner".to_string();
    let user = "user".to_string();
    update_recipient(&cfg, &mut records, &owner, &user, 1000).unwrap();
    set_start_time(&mut cfg, &owner, 1).unwrap();

    let now = 1 + cfg.lock_period + cfg.release_interval * 3;
    // the first call transfers a nonzero amount
    let msgs = withdraw(&cfg, &mut records, now, &user).unwrap();
    assert_eq!(msgs.len(), 1);
    match &msgs[0] {
        Instruction::Transfer { token, recipient, amount } => {
            assert_eq!(token, "reward_token");
            assert_eq!(recipient, "user");
            assert_eq!(*amount, 400u128);
        }
        _ => panic!("wrong instruction"),
    }
    // the second call at the same timestamp finds nothing left
    let res = withdraw(&cfg, &mut records, now, &user);
    assert_eq!(res.unwrap_err(), ContractError::NothingToWithdraw);
}

#[test]
fn test_withdraw_without_record() {
    let cfg = instantiate("owner".to_string(), init_msg(100, 100));
    let mut records: Table<VestingRecord> = Table::new();
    let res = withdraw(&cfg, &mut records, 10_000, &"stranger".to_string());
    assert_eq!(res.unwrap_err(), ContractError::NothingToWithdraw);
}

#[test]
fn test_vested_amount_caps_at_total() {
    let mut cfg = instantiate("owner".to_string(), init_msg(100, 100));
    cfg.start_time = 0;
    // far past the schedule the entitlement is fully vested, never more
    assert_eq!(vested_amount(&cfg, 777, u64::MAX), 777);
    // extreme rates saturate at the entitlement as well
    cfg.release_rate = u64::MAX;
    assert_eq!(vested_amount(&cfg, 777, 700), 777);
    cfg.release_rate = 100;
    cfg.initial_unlock = 5000;
    assert_eq!(vested_amount(&cfg, 777, 600), 777);
}
