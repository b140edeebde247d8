use vstd::prelude::*;

use crate::error::ContractError;
use crate::table::{
    first_index, lemma_first_index_bounds, lemma_first_index_contains, str_views, Table,
};

verus! {

/// One allowlist entry: a wallet and its caps for the two sale phases.
#[derive(Debug)]
pub struct AlloInfo {
    pub wallet: String,
    pub public_allocation: u64,
    pub private_allocation: u64,
}

impl Clone for AlloInfo {
    fn clone(&self) -> (r: Self)
        ensures
            r == *self,
    {
        AlloInfo {
            wallet: self.wallet.clone(),
            public_allocation: self.public_allocation,
            private_allocation: self.private_allocation,
        }
    }
}

pub struct InstantiateMsg {}

pub enum ExecuteMsg {
    AddToWhiteList { users: Vec<AlloInfo> },
    RemoveFromWhiteList { addrs: Vec<String> },
}

pub enum QueryMsg {
    UsersCount {},
    GetUsers { page: u64, limit: u64 },
    GetUser { user: String },
}

pub struct UsersCountResponse {
    pub count: u64,
}

pub struct GetUsersResponse {
    pub users: Vec<String>,
}

pub struct GetUserResponse {
    pub data: AlloInfo,
}

pub enum QueryResponse {
    UsersCount(UsersCountResponse),
    Users(GetUsersResponse),
    User(GetUserResponse),
}

/// The allowlist registry: the owner and the entries, addressed by wallet
/// and kept in insertion order.
pub struct State {
    pub owner: String,
    pub users: Table<AlloInfo>,
}

/// The stored wallet list after upserting `entries` front to back: a wallet
/// already listed keeps its slot, a new one is appended at its first
/// occurrence.
pub open spec fn keys_after_add(keys: Seq<Seq<char>>, entries: Seq<AlloInfo>) -> Seq<Seq<char>>
    decreases entries.len(),
{
    if entries.len() == 0 {
        keys
    } else {
        let prior = keys_after_add(keys, entries.drop_last());
        let w = entries.last().wallet@;
        if prior.contains(w) {
            prior
        } else {
            prior.push(w)
        }
    }
}

/// The last entry of the batch for wallet `w`, if the batch names it.
pub open spec fn batch_lookup(entries: Seq<AlloInfo>, w: Seq<char>) -> Option<AlloInfo>
    decreases entries.len(),
{
    if entries.len() == 0 {
        None
    } else if entries.last().wallet@ == w {
        Some(entries.last())
    } else {
        batch_lookup(entries.drop_last(), w)
    }
}

/// One swap-delete: the removed wallet's slot is filled with the last entry
/// and the list shrinks by one; an absent wallet changes nothing.
pub open spec fn remove_one(keys: Seq<Seq<char>>, w: Seq<char>) -> Seq<Seq<char>> {
    if first_index(keys, w) >= 0 {
        keys.update(first_index(keys, w), keys.last()).drop_last()
    } else {
        keys
    }
}

/// The stored wallet list after removing `addrs` front to back.
pub open spec fn keys_after_remove(keys: Seq<Seq<char>>, addrs: Seq<Seq<char>>) -> Seq<Seq<char>>
    decreases addrs.len(),
{
    if addrs.len() == 0 {
        keys
    } else {
        keys_after_remove(remove_one(keys, addrs[0]), addrs.drop_first())
    }
}

impl State {
    /// The registry's invariant: the wallet list and the entries move in
    /// lock-step — the entry stored in any slot is the one for the wallet
    /// listed there — and no wallet appears twice.
    pub open spec fn wf(&self) -> bool {
        &&& self.users.wf()
        &&& forall|i: int|
            0 <= i < self.users.key_seq().len() ==> self.users.val_seq()[i].wallet@
                == self.users.key_seq()[i]
    }

    /// The stored wallet list, in order.
    pub open spec fn userlist(&self) -> Seq<Seq<char>> {
        self.users.key_seq()
    }

    pub open spec fn spec_get(&self, w: Seq<char>) -> Option<AlloInfo> {
        self.users.spec_get(w)
    }
}

pub fn instantiate(owner: String, _msg: InstantiateMsg) -> (state: State)
    ensures
        state.wf(),
        state.owner@ == owner@,
        state.userlist() == Seq::<Seq<char>>::empty(),
{
    State { owner, users: Table::new() }
}

/// Upsert a batch of entries; owner-only. Each entry is written together
/// with its list slot, so no prefix of the batch ever leaves an entry
/// without a slot.
pub fn try_add(state: &mut State, sender: &String, users: &Vec<AlloInfo>) -> (r: Result<
    (),
    ContractError,
>)
    requires
        old(state).wf(),
    ensures
        final(state).wf(),
        r is Ok <==> sender@ == old(state).owner@,
        r is Err ==> *final(state) == *old(state) && r == Err::<(), ContractError>(
            ContractError::Unauthorized,
        ),
        r is Ok ==> {
            &&& final(state).owner == old(state).owner
            &&& final(state).userlist() == keys_after_add(old(state).userlist(), users@)
            &&& forall|w: Seq<char>|
                final(state).spec_get(w) == (if batch_lookup(users@, w) is Some {
                    batch_lookup(users@, w)
                } else {
                    old(state).spec_get(w)
                })
        },
{
    if *sender != state.owner {
        return Err(ContractError::Unauthorized);
    }
    let ghost orig = *state;
    let ghost entries = users@;
    let n = users.len();
    let mut i: usize = 0;
    proof {
        assert(entries.take(0) =~= Seq::<AlloInfo>::empty());
    }
    while i < n
        invariant
            n == entries.len(),
            users@ == entries,
            i <= n,
            state.wf(),
            state.owner == orig.owner,
            state.userlist() == keys_after_add(orig.userlist(), entries.take(i as int)),
            forall|w: Seq<char>|
                state.spec_get(w) == (if batch_lookup(entries.take(i as int), w) is Some {
                    batch_lookup(entries.take(i as int), w)
                } else {
                    orig.spec_get(w)
                }),
        decreases n - i,
    {
        let ghost pre = *state;
        let entry = users[i].clone();
        let ghost w = entries[i as int].wallet@;
        proof {
            lemma_first_index_contains(state.userlist(), w);
        }
        state.users.upsert(&users[i].wallet, entry);
        proof {
            assert(entries.take(i as int + 1).drop_last() =~= entries.take(i as int));
            assert(entries.take(i as int + 1).last() == entries[i as int]);
            // the wallet list evolves as keys_after_add prescribes
            if pre.userlist().contains(w) {
                assert(state.userlist() == pre.userlist());
            } else {
                assert(state.userlist() == pre.userlist().push(w));
            }
            // the lock-step invariant survives the write
            assert forall|j: int|
                0 <= j < state.users.key_seq().len() implies state.users.val_seq()[j].wallet@
                == state.users.key_seq()[j] by {
                if pre.users.spec_contains(w) {
                    lemma_first_index_bounds(pre.users.key_seq(), w);
                }
            }
            // lookups follow the batch
            assert forall|k: Seq<char>|
                state.spec_get(k) == (if batch_lookup(entries.take(i as int + 1), k) is Some {
                    batch_lookup(entries.take(i as int + 1), k)
                } else {
                    orig.spec_get(k)
                }) by {
                if k == w {
                    assert(state.spec_get(k) == Some(entries[i as int]));
                } else {
                    assert(state.spec_get(k) == pre.spec_get(k));
                }
            }
        }
        i = i + 1;
    }
    proof {
        assert(entries.take(n as int) =~= entries);
    }
    Ok(())
}

/// Remove a batch of wallets by swap-delete; owner-only. Removing an
/// unknown wallet is a silent no-op, and removal is not stable-order: the
/// tail entry moves into the freed slot.
pub fn try_remove(state: &mut State, sender: &String, addrs: &Vec<String>) -> (r: Result<
    (),
    ContractError,
>)
    requires
        old(state).wf(),
    ensures
        final(state).wf(),
        r is Ok <==> sender@ == old(state).owner@,
        r is Err ==> *final(state) == *old(state) && r == Err::<(), ContractError>(
            ContractError::Unauthorized,
        ),
        r is Ok ==> {
            &&& final(state).owner == old(state).owner
            &&& final(state).userlist() == keys_after_remove(
                old(state).userlist(),
                str_views(addrs@),
            )
            &&& forall|w: Seq<char>|
                final(state).spec_get(w) == (if str_views(addrs@).contains(w) {
                    None
                } else {
                    old(state).spec_get(w)
                })
        },
{
    if *sender != state.owner {
        return Err(ContractError::Unauthorized);
    }
    let ghost orig = *state;
    let ghost views = str_views(addrs@);
    let n = addrs.len();
    let mut i: usize = 0;
    proof {
        assert(views.skip(0) =~= views);
        assert(views.take(0) =~= Seq::<Seq<char>>::empty());
    }
    while i < n
        invariant
            n == addrs@.len(),
            views == str_views(addrs@),
            n == views.len(),
            i <= n,
            state.wf(),
            state.owner == orig.owner,
            keys_after_remove(state.userlist(), views.skip(i as int)) == keys_after_remove(
                orig.userlist(),
                views,
            ),
            forall|w: Seq<char>|
                state.spec_get(w) == (if views.take(i as int).contains(w) {
                    None
                } else {
                    orig.spec_get(w)
                }),
        decreases n - i,
    {
        let ghost pre = *state;
        let ghost w = views[i as int];
        proof {
            assert(w == addrs@[i as int]@);
        }
        state.users.remove_swap(&addrs[i]);
        proof {
            // the wallet list evolves as one swap-delete prescribes
            lemma_first_index_bounds(pre.users.key_seq(), w);
            assert(state.userlist() == remove_one(pre.userlist(), w));
            assert(views.skip(i as int)[0] == w);
            assert(views.skip(i as int).drop_first() =~= views.skip(i as int + 1));
            assert(keys_after_remove(pre.userlist(), views.skip(i as int)) == keys_after_remove(
                remove_one(pre.userlist(), w),
                views.skip(i as int + 1),
            ));
            // the lock-step invariant survives the swap
            assert forall|j: int|
                0 <= j < state.users.key_seq().len() implies state.users.val_seq()[j].wallet@
                == state.users.key_seq()[j] by {
                if pre.users.spec_contains(w) {
                    let fi = first_index(pre.users.key_seq(), w);
                    assert(state.users.key_seq()[j] == (if j == fi {
                        pre.users.key_seq().last()
                    } else {
                        pre.users.key_seq()[j]
                    }));
                    assert(state.users.val_seq()[j] == (if j == fi {
                        pre.users.val_seq().last()
                    } else {
                        pre.users.val_seq()[j]
                    }));
                }
            }
            // lookups: the removed wallet is gone, the rest are untouched
            assert(views.take(i as int + 1).drop_last() =~= views.take(i as int));
            assert(views.take(i as int + 1).last() == w);
            assert forall|k: Seq<char>|
                state.spec_get(k) == (if views.take(i as int + 1).contains(k) {
                    None::<AlloInfo>
                } else {
                    orig.spec_get(k)
                }) by {
                let tk = views.take(i as int + 1);
                let tp = views.take(i as int);
                assert(tk.contains(k) <==> (tp.contains(k) || k == w)) by {
                    if tk.contains(k) {
                        let j = choose|j: int| 0 <= j < tk.len() && #[trigger] tk[j] == k;
                        if j < i as int {
                            assert(tp[j] == k);
                        }
                    }
                    if tp.contains(k) {
                        let j = choose|j: int| 0 <= j < tp.len() && #[trigger] tp[j] == k;
                        assert(tk[j] == k);
                    }
                    if k == w {
                        assert(tk[i as int] == k);
                    }
                }
                if k == w {
                    assert(state.spec_get(k) is None);
                } else {
                    assert(state.spec_get(k) == pre.spec_get(k));
                }
            }
        }
        i = i + 1;
    }
    proof {
        assert(views.skip(n as int) =~= Seq::<Seq<char>>::empty());
        assert(views.take(n as int) =~= views);
    }
    Ok(())
}

/// Dispatch one authenticated call.
pub fn execute(state: &mut State, sender: &String, msg: &ExecuteMsg) -> (r: Result<
    (),
    ContractError,
>)
    requires
        old(state).wf(),
    ensures
        final(state).wf(),
        r is Ok <==> sender@ == old(state).owner@,
        r is Err ==> *final(state) == *old(state) && r == Err::<(), ContractError>(
            ContractError::Unauthorized,
        ),
        r is Ok ==> final(state).owner == old(state).owner && (match msg {
            ExecuteMsg::AddToWhiteList { users } => {
                &&& final(state).userlist() == keys_after_add(old(state).userlist(), users@)
                &&& forall|w: Seq<char>|
                    final(state).spec_get(w) == (if batch_lookup(users@, w) is Some {
                        batch_lookup(users@, w)
                    } else {
                        old(state).spec_get(w)
                    })
            },
            ExecuteMsg::RemoveFromWhiteList { addrs } => {
                &&& final(state).userlist() == keys_after_remove(
                    old(state).userlist(),
                    str_views(addrs@),
                )
                &&& forall|w: Seq<char>|
                    final(state).spec_get(w) == (if str_views(addrs@).contains(w) {
                        None
                    } else {
                        old(state).spec_get(w)
                    })
            },
        }),
{
    match msg {
        ExecuteMsg::AddToWhiteList { users } => try_add(state, sender, users),
        ExecuteMsg::RemoveFromWhiteList { addrs } => try_remove(state, sender, addrs),
    }
}

/// The caps the registry grants `user` for the two sale phases; an address
/// it does not list may not deposit.
pub fn allocation_of(state: &State, user: &String) -> (r: Result<
    crate::sale::AlloInfo,
    ContractError,
>)
    requires
        state.wf(),
    ensures
        r is Ok <==> state.spec_get(user@) is Some,
        r matches Ok(a) ==> a.public_allocation == state.spec_get(user@).unwrap().public_allocation
            && a.private_allocation == state.spec_get(user@).unwrap().private_allocation,
        r is Err ==> r == Err::<crate::sale::AlloInfo, ContractError>(
            ContractError::NotWhitelisted,
        ),
{
    match state.users.get(user) {
        Some(info) => Ok(
            crate::sale::AlloInfo {
                public_allocation: info.public_allocation,
                private_allocation: info.private_allocation,
            },
        ),
        None => Err(ContractError::NotWhitelisted),
    }
}

pub fn query_count(state: &State) -> (r: UsersCountResponse)
    ensures
        r.count == state.userlist().len(),
{
    UsersCountResponse { count: state.users.len() as u64 }
}

/// A page of the wallet list, clamped to its bounds: `page * limit` past
/// the end yields an empty page, never an error.
pub fn query_users(state: &State, page: u64, limit: u64) -> (r: GetUsersResponse)
    requires
        state.wf(),
    ensures
        ({
            let n = state.userlist().len() as int;
            let lo = (if page * limit < n {
                page * limit
            } else {
                n as int
            });
            let hi = (if lo + limit < n {
                lo + limit
            } else {
                n as int
            });
            &&& r.users@.len() == hi - lo
            &&& forall|j: int| 0 <= j < hi - lo ==> r.users@[j]@ == state.userlist()[lo + j]
        }),
{
    let n = state.users.len();
    proof {
        assert((page as int) * (limit as int) <= 0xffffffffffffffffu64 * 0xffffffffffffffffu64)
            by (nonlinear_arith)
            requires
                0 <= page as int <= 0xffffffffffffffffu64,
                0 <= limit as int <= 0xffffffffffffffffu64,
        ;
        vstd::arithmetic::mul::lemma_mul_nonnegative(page as int, limit as int);
    }
    let start128: u128 = (page as u128) * (limit as u128);
    let lo: usize = if start128 < n as u128 {
        start128 as usize
    } else {
        n
    };
    let hi: usize = if (lo as u128) + (limit as u128) < n as u128 {
        (lo as u64 + limit) as usize
    } else {
        n
    };
    let mut out: Vec<String> = Vec::new();
    let mut j: usize = lo;
    while j < hi
        invariant
            state.wf(),
            lo <= j <= hi,
            hi <= state.userlist().len(),
            out@.len() == j - lo,
            forall|k: int| 0 <= k < j - lo ==> out@[k]@ == state.userlist()[lo + k],
        decreases hi - j,
    {
        out.push(state.users.key_at(j).clone());
        j = j + 1;
    }
    GetUsersResponse { users: out }
}

/// The entry for `user`; an unknown wallet yields the empty entry, never an
/// error.
pub fn query_user(state: &State, user: &String) -> (r: GetUserResponse)
    requires
        state.wf(),
    ensures
        state.spec_get(user@) is Some ==> r.data == state.spec_get(user@).unwrap(),
        state.spec_get(user@) is None ==> r.data.wallet@ == Seq::<char>::empty()
            && r.data.public_allocation == 0 && r.data.private_allocation == 0,
{
    match state.users.get(user) {
        Some(info) => GetUserResponse { data: info.clone() },
        None => GetUserResponse {
            data: AlloInfo { wallet: String::new(), public_allocation: 0, private_allocation: 0 },
        },
    }
}

/// Dispatch one query.
pub fn query(state: &State, msg: &QueryMsg) -> (r: QueryResponse)
    requires
        state.wf(),
    ensures
        match msg {
            QueryMsg::UsersCount {} => r matches QueryResponse::UsersCount(c) && c.count
                == state.userlist().len(),
            QueryMsg::GetUsers { page, limit } => r is Users,
            QueryMsg::GetUser { user } => r matches QueryResponse::User(u) && (
            state.spec_get(user@) is Some ==> u.data == state.spec_get(user@).unwrap()),
        },
{
    match msg {
        QueryMsg::UsersCount {} => QueryResponse::UsersCount(query_count(state)),
        QueryMsg::GetUsers { page, limit } => QueryResponse::Users(
            query_users(state, *page, *limit),
        ),
        QueryMsg::GetUser { user } => QueryResponse::User(query_user(state, user)),
    }
}

} // verus!
