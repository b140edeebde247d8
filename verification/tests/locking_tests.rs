use token_sale::error::ContractError;
use token_sale::instruction::Instruction;
use token_sale::locking::{
    compute_penalty_amount, deposit, execute, query_config, query_lock_account,
    query_lock_accounts, update_config, withdraw, Config, ExecuteMsg, LockInfo, OrderBy,
};
use token_sale::table::Table;

fn test_config() -> Config {
    Config {
        owner: "owner".to_string(),
        token: "token".to_string(),
        penalty_period: 30 * 86400,
        dead: "dead".to_string(),
    }
}

#[test]
fn test_penalty_decay() {
    let info = LockInfo { amount: 1000, last_locked_time: 0 };
    assert_eq!(compute_penalty_amount(1000, 9 * 86400, &info), 100);
    assert_eq!(compute_penalty_amount(1000, 15 * 86400, &info), 50);
    assert_eq!(compute_penalty_amount(1000, 25 * 86400, &info), 33);
    assert_eq!(compute_penalty_amount(1000, 35 * 86400, &info), 0);
}

#[test]
fn test_penalty_boundaries() {
    let info = LockInfo { amount: 600, last_locked_time: 100 };
    // measured from the last lock time, with the thresholds exclusive
    assert_eq!(compute_penalty_amount(600, 100, &info), 60);
    assert_eq!(compute_penalty_amount(600, 100 + 10 * 86400 - 1, &info), 60);
    assert_eq!(compute_penalty_amount(600, 100 + 10 * 86400, &info), 30);
    assert_eq!(compute_penalty_amount(600, 100 + 20 * 86400, &info), 20);
    assert_eq!(compute_penalty_amount(600, 100 + 30 * 86400, &info), 0);
}

#[test]
fn test_deposit_overwrites_balance_and_clock() {
    let config = test_config();
    let mut ledger: Table<LockInfo> = Table::new();
    let sender = "alice".to_string();
    let contract = "locking".to_string();

    let msgs = deposit(&mut ledger, &config, 5, &sender, &contract, 1000);
    assert_eq!(msgs.len(), 1);
    match &msgs[0] {
        Instruction::TransferFrom { token, owner, recipient, amount } => {
            assert_eq!(token, "token");
            assert_eq!(owner, "alice");
            assert_eq!(recipient, "locking");
            assert_eq!(*amount, 1000u128);
        }
        _ => panic!("wrong instruction"),
    }
    let acc = query_lock_account(&ledger, "alice".to_string()).unwrap();
    assert_eq!(acc.info.amount, 1000);
    assert_eq!(acc.info.last_locked_time, 5);

    // a fresh deposit replaces the amount and resets the penalty clock
    let msgs = deposit(&mut ledger, &config, 9, &sender, &contract, 7);
    assert_eq!(msgs.len(), 1);
    let acc = query_lock_account(&ledger, "alice".to_string()).unwrap();
    assert_eq!(acc.info.amount, 7);
    assert_eq!(acc.info.last_locked_time, 9);

    // a zero deposit still records, but pulls nothing
    let msgs = deposit(&mut ledger, &config, 11, &sender, &contract, 0);
    assert_eq!(msgs.len(), 0);
    let acc = query_lock_account(&ledger, "alice".to_string()).unwrap();
    assert_eq!(acc.info.amount, 0);
    assert_eq!(acc.info.last_locked_time, 11);
}

#[test]
fn test_withdraw_splits_penalty_and_net() {
    let config = test_config();
    let mut ledger: Table<LockInfo> = Table::new();
    let sender = "alice".to_string();
    let contract = "locking".to_string();
    deposit(&mut ledger, &config, 0, &sender, &contract, 1000);

    // nine days in: a tenth burns, the watermark is kept
    let msgs = withdraw(&mut ledger, &config, 9 * 86400, &sender, 500).unwrap();
    assert_eq!(msgs.len(), 2);
    match &msgs[0] {
        Instruction::Transfer { token, recipient, amount } => {
            assert_eq!(token, "token");
            assert_eq!(recipient, "dead");
            assert_eq!(*amount, 50u128);
        }
        _ => panic!("wrong instruction"),
    }
    match &msgs[1] {
        Instruction::Transfer { token, recipient, amount } => {
            assert_eq!(token, "token");
            assert_eq!(recipient, "alice");
            assert_eq!(*amount, 450u128);
        }
        _ => panic!("wrong instruction"),
    }
    let acc = query_lock_account(&ledger, "alice".to_string()).unwrap();
    assert_eq!(acc.info.amount, 500);
    assert_eq!(acc.info.last_locked_time, 0);

    // well past thirty days: no penalty, a single transfer
    let msgs = withdraw(&mut ledger, &config, 35 * 86400, &sender, 500).unwrap();
    assert_eq!(msgs.len(), 1);
    match &msgs[0] {
        Instruction::Transfer { recipient, amount, .. } => {
            assert_eq!(recipient, "alice");
            assert_eq!(*amount, 500u128);
        }
        _ => panic!("wrong instruction"),
    }
}

#[test]
fn test_withdraw_insufficient_balance() {
    let config = test_config();
    let mut ledger: Table<LockInfo> = Table::new();
    let sender = "alice".to_string();
    let contract = "locking".to_string();

    // no record at all
    let res = withdraw(&mut ledger, &config, 0, &sender, 1);
    assert_eq!(res.unwrap_err(), ContractError::InsufficientBalance);

    deposit(&mut ledger, &config, 0, &sender, &contract, 10);
    let res = withdraw(&mut ledger, &config, 0, &sender, 11);
    assert_eq!(res.unwrap_err(), ContractError::InsufficientBalance);
    // the failed call left the record alone
    let acc = query_lock_account(&ledger, "alice".to_string()).unwrap();
    assert_eq!(acc.info.amount, 10);
}

#[test]
fn test_execute_update_config_owner_gate() {
    let mut config = test_config();
    let mut ledger: Table<LockInfo> = Table::new();
    let contract = "locking".to_string();

    let msg = ExecuteMsg::UpdateConfig {
        owner: Some("new_owner".to_string()),
        token: None,
        penalty_period: Some(7),
        dead: None,
    };
    let res = execute(&mut config, &mut ledger, 0, &"mallory".to_string(), &contract, msg);
    assert_eq!(res.unwrap_err(), ContractError::Unauthorized);
    assert_eq!(query_config(&config).owner, "owner");

    let msg = ExecuteMsg::UpdateConfig {
        owner: Some("new_owner".to_string()),
        token: None,
        penalty_period: Some(7),
        dead: None,
    };
    execute(&mut config, &mut ledger, 0, &"owner".to_string(), &contract, msg).unwrap();
    let resp = query_config(&config);
    assert_eq!(resp.owner, "new_owner");
    assert_eq!(resp.token, "token");
    assert_eq!(resp.penalty_period, 7);
    assert_eq!(resp.dead, "dead");
}

#[test]
fn test_update_config_keeps_absent_fields() {
    let mut config = test_config();
    update_config(&mut config, None, Some("other".to_string()), None, None);
    assert_eq!(config.owner, "owner");
    assert_eq!(config.token, "other");
    assert_eq!(config.penalty_period, 30 * 86400);
    assert_eq!(config.dead, "dead");
}

#[test]
fn test_query_lock_accounts_paging() {
    let config = test_config();
    let mut ledger: Table<LockInfo> = Table::new();
    let contract = "locking".to_string();
    for name in ["a", "b", "c", "d", "e"] {
        deposit(&mut ledger, &config, 1, &name.to_string(), &contract, 10);
    }

    let all = query_lock_accounts(&ledger, None, None, None);
    assert_eq!(all.lock_accounts.len(), 5);
    assert_eq!(all.lock_accounts[0].address, "a");
    assert_eq!(all.lock_accounts[4].address, "e");

    let after_b = query_lock_accounts(&ledger, Some("b".to_string()), Some(2), None);
    assert_eq!(after_b.lock_accounts.len(), 2);
    assert_eq!(after_b.lock_accounts[0].address, "c");
    assert_eq!(after_b.lock_accounts[1].address, "d");

    let desc = query_lock_accounts(&ledger, None, Some(2), Some(OrderBy::Desc));
    assert_eq!(desc.lock_accounts.len(), 2);
    assert_eq!(desc.lock_accounts[0].address, "e");
    assert_eq!(desc.lock_accounts[1].address, "d");

    let desc_after = query_lock_accounts(&ledger, Some("c".to_string()), None, Some(OrderBy::Desc));
    assert_eq!(desc_after.lock_accounts.len(), 2);
    assert_eq!(desc_after.lock_accounts[0].address, "b");
    assert_eq!(desc_after.lock_accounts[1].address, "a");
}
