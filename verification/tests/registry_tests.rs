use token_sale::error::ContractError;
use token_sale::registry::{
    allocation_of, execute, instantiate, query_count, query_user, query_users, try_add, try_remove,
    AlloInfo, ExecuteMsg, InstantiateMsg,
};

fn entry(wallet: &str, public_allocation: u64, private_allocation: u64) -> AlloInfo {
    AlloInfo { wallet: wallet.to_string(), public_allocation, private_allocation }
}

#[test]
fn whitelist_test_initialize() {
    let state = instantiate("owner".to_string(), InstantiateMsg {});
    assert_eq!(state.owner, "owner");
    assert_eq!(query_count(&state).count, 0);
    println!("{:?}", "Initializing contract ok")
}

#[test]
fn test_add() {
    let mut state = instantiate("owner".to_string(), InstantiateMsg {});
    let owner = "owner".to_string();

    let mut list = Vec::new();
    for i in 1..10001 {
        list.push(entry(&format!("user{}", i), 1, 2));
    }

    let res = try_add(&mut state, &"user".to_string(), &list);
    assert_eq!(res.unwrap_err(), ContractError::Unauthorized);

    try_add(&mut state, &owner, &list).unwrap();
    assert_eq!(query_count(&state).count, 10000);

    let user1 = query_user(&state, &"user1".to_string());
    assert_eq!(user1.data.wallet, "user1");
    assert_eq!(user1.data.public_allocation, 1);
    assert_eq!(user1.data.private_allocation, 2);

    // re-adding known wallets overwrites their caps and keeps their slots
    let list1 = vec![entry("user2", 2, 3), entry("user3", 1, 2)];
    try_add(&mut state, &owner, &list1).unwrap();

    let users = query_users(&state, 0, 4);
    let expected = ["user1", "user2", "user3"];
    for i in 0..3 {
        assert_eq!(users.users[i], expected[i]);
    }
    let user2 = query_user(&state, &"user2".to_string());
    assert_eq!(user2.data.public_allocation, 2);
    assert_eq!(user2.data.private_allocation, 3);
    assert_eq!(query_count(&state).count, 10000);
}

#[test]
fn test_remove() {
    let mut state = instantiate("owner".to_string(), InstantiateMsg {});
    let owner = "owner".to_string();

    let list = vec![
        entry("user1", 1, 2),
        entry("user2", 2, 3),
        entry("user3", 1, 2),
        entry("user4", 1, 2),
    ];
    execute(&mut state, &owner, &ExecuteMsg::AddToWhiteList { users: list }).unwrap();
    assert_eq!(query_count(&state).count, 4);

    let addrs = vec!["user2".to_string(), "user5".to_string()];
    let remove_msg = ExecuteMsg::RemoveFromWhiteList { addrs };

    let res = execute(&mut state, &"user".to_string(), &remove_msg);
    assert_eq!(res.unwrap_err(), ContractError::Unauthorized);

    execute(&mut state, &owner, &remove_msg).unwrap();
    assert_eq!(query_count(&state).count, 3);
}

#[test]
fn test_swap_delete_reorders_tail() {
    let mut state = instantiate("owner".to_string(), InstantiateMsg {});
    let owner = "owner".to_string();
    let list = vec![entry("a", 1, 1), entry("b", 2, 2), entry("c", 3, 3), entry("d", 4, 4)];
    try_add(&mut state, &owner, &list).unwrap();

    // removing the first wallet moves the last into its slot
    try_remove(&mut state, &owner, &vec!["a".to_string()]).unwrap();
    let users = query_users(&state, 0, 10);
    assert_eq!(users.users, vec!["d".to_string(), "b".to_string(), "c".to_string()]);

    // every remaining wallet still finds its own entry
    for w in ["b", "c", "d"] {
        assert_eq!(query_user(&state, &w.to_string()).data.wallet, w);
    }
    // the removed wallet reads as the empty entry
    let gone = query_user(&state, &"a".to_string());
    assert_eq!(gone.data.wallet, "");
    assert_eq!(gone.data.public_allocation, 0);

    // removing an unknown wallet is a silent no-op
    try_remove(&mut state, &owner, &vec!["zz".to_string()]).unwrap();
    assert_eq!(query_count(&state).count, 3);
}

#[test]
fn test_users_paging_is_clamped() {
    let mut state = instantiate("owner".to_string(), InstantiateMsg {});
    let owner = "owner".to_string();
    let list = vec![entry("a", 1, 1), entry("b", 2, 2), entry("c", 3, 3)];
    try_add(&mut state, &owner, &list).unwrap();

    assert_eq!(query_users(&state, 0, 2).users, vec!["a".to_string(), "b".to_string()]);
    assert_eq!(query_users(&state, 1, 2).users, vec!["c".to_string()]);
    // a page past the end is empty, never an error
    assert_eq!(query_users(&state, 5, 2).users.len(), 0);
    assert_eq!(query_users(&state, u64::MAX, u64::MAX).users.len(), 0);
}

#[test]
fn test_allocation_of_unknown_is_not_whitelisted() {
    let mut state = instantiate("owner".to_string(), InstantiateMsg {});
    let owner = "owner".to_string();
    try_add(&mut state, &owner, &vec![entry("a", 7, 9)]).unwrap();

    let a = allocation_of(&state, &"a".to_string()).unwrap();
    assert_eq!(a.public_allocation, 7);
    assert_eq!(a.private_allocation, 9);

    let res = allocation_of(&state, &"b".to_string());
    assert_eq!(res.unwrap_err(), ContractError::NotWhitelisted);
}
