use vstd::prelude::*;

use crate::error::ContractError;
use crate::instruction::Instruction;
use crate::table::Table;

verus! {

/// Configuration of the locked-staking contract.
pub struct Config {
    pub owner: String,
    pub token: String,
    pub penalty_period: u64,
    /// Sink address that receives every penalty.
    pub dead: String,
}

/// Locked balance of one address, with the time of its last lock or relock.
/// The timestamp is the single watermark penalty decay is measured from; a
/// withdrawal never resets it, only a fresh deposit does.
#[derive(Clone, Copy, Debug, PartialEq, Eq, Structural)]
pub struct LockInfo {
    pub amount: u64,
    pub last_locked_time: u64,
}

pub struct InstantiateMsg {
    pub owner: String,
    pub token: String,
    pub penalty_period: u64,
    pub dead: String,
}

pub enum ExecuteMsg {
    Deposit { amount: u64 },
    Withdraw { amount: u64 },
    UpdateConfig {
        owner: Option<String>,
        token: Option<String>,
        penalty_period: Option<u64>,
        dead: Option<String>,
    },
}

pub enum OrderBy {
    Asc,
    Desc,
}

pub struct ConfigResponse {
    pub owner: String,
    pub token: String,
    pub penalty_period: u64,
    pub dead: String,
}

pub struct LockInfoResponse {
    pub address: String,
    pub info: LockInfo,
}

pub struct LockedAccountsResponse {
    pub lock_accounts: Vec<LockInfoResponse>,
}

pub const DEFAULT_QUERY_LIMIT: u32 = 10;

pub const MAX_QUERY_LIMIT: u32 = 30;

pub const SECONDS_PER_DAY: u64 = 86400;

pub fn instantiate(msg: InstantiateMsg) -> (cfg: Config)
    ensures
        cfg.owner@ == msg.owner@,
        cfg.token@ == msg.token@,
        cfg.penalty_period == msg.penalty_period,
        cfg.dead@ == msg.dead@,
{
    Config { owner: msg.owner, token: msg.token, penalty_period: msg.penalty_period, dead: msg.dead }
}

/// Penalty charged when `amount` leaves a lock last (re)set at
/// `info.last_locked_time` and the clock now reads `current_time`: a tenth
/// under ten days, a twentieth under twenty, a thirtieth under thirty,
/// nothing afterwards.
pub open spec fn spec_penalty_amount(amount: u64, current_time: u64, info: LockInfo) -> int
    recommends
        info.last_locked_time <= current_time,
{
    let passed_time = current_time - info.last_locked_time;
    if passed_time < 10 * SECONDS_PER_DAY {
        amount as int / 10
    } else if passed_time < 20 * SECONDS_PER_DAY {
        amount as int / 20
    } else if passed_time < 30 * SECONDS_PER_DAY {
        amount as int / 30
    } else {
        0
    }
}

pub fn compute_penalty_amount(amount: u64, current_time: u64, lock_info: &LockInfo) -> (r: u64)
    requires
        lock_info.last_locked_time <= current_time,
    ensures
        r == spec_penalty_amount(amount, current_time, *lock_info),
{
    let passed_time = current_time - lock_info.last_locked_time;
    if passed_time < 10 * SECONDS_PER_DAY {
        amount / 10
    } else if passed_time < 20 * SECONDS_PER_DAY {
        amount / 20
    } else if passed_time < 30 * SECONDS_PER_DAY {
        amount / 30
    } else {
        0
    }
}

/// What a deposit leaves behind: the caller's record is overwritten with the
/// fresh amount and timestamp (not added to), every other record is
/// untouched, and a nonzero amount pulls the tokens in from the caller.
pub open spec fn deposit_post(
    config: Config,
    old_ledger: Table<LockInfo>,
    ledger: Table<LockInfo>,
    now: u64,
    sender: Seq<char>,
    contract: Seq<char>,
    amount: u64,
    msgs: Seq<Instruction>,
) -> bool {
    &&& ledger.wf()
    &&& ledger.spec_get(sender) == Some(LockInfo { amount, last_locked_time: now })
    &&& forall|k: Seq<char>| k != sender ==> ledger.spec_get(k) == old_ledger.spec_get(k)
    &&& old_ledger.spec_contains(sender) ==> ledger.key_seq() == old_ledger.key_seq()
    &&& !old_ledger.spec_contains(sender) ==> ledger.key_seq() == old_ledger.key_seq().push(
        sender,
    )
    &&& if amount == 0 {
        msgs.len() == 0
    } else {
        msgs.len() == 1 && (msgs[0] matches Instruction::TransferFrom {
            token,
            owner,
            recipient,
            amount: a,
        } && token@ == config.token@ && owner@ == sender && recipient@ == contract && a
            == amount as u128)
    }
}

/// Overwrite the caller's lock with `amount` at time `now`.
pub fn deposit(
    ledger: &mut Table<LockInfo>,
    config: &Config,
    now: u64,
    sender: &String,
    contract: &String,
    amount: u64,
) -> (msgs: Vec<Instruction>)
    requires
        old(ledger).wf(),
    ensures
        deposit_post(*config, *old(ledger), *final(ledger), now, sender@, contract@, amount, msgs@),
{
    let mut msgs: Vec<Instruction> = Vec::new();
    if amount > 0 {
        msgs.push(
            Instruction::TransferFrom {
                token: config.token.clone(),
                owner: sender.clone(),
                recipient: contract.clone(),
                amount: amount as u128,
            },
        );
    }
    ledger.upsert(sender, LockInfo { amount, last_locked_time: now });
    msgs
}

/// What a withdrawal leaves behind. It succeeds exactly when the caller has
/// a record covering `amount`; the penalty goes to the sink first (when
/// nonzero), the rest to the caller, and the watermark is kept.
pub open spec fn withdraw_post(
    config: Config,
    old_ledger: Table<LockInfo>,
    ledger: Table<LockInfo>,
    now: u64,
    sender: Seq<char>,
    amount: u64,
    r: Result<Vec<Instruction>, ContractError>,
) -> bool {
    &&& ledger.wf()
    &&& (r is Ok <==> (old_ledger.spec_get(sender) matches Some(info) && amount <= info.amount))
    &&& r is Err ==> ledger == old_ledger && r == Err::<Vec<Instruction>, ContractError>(
        ContractError::InsufficientBalance,
    )
    &&& r matches Ok(msgs) ==> (old_ledger.spec_get(sender) matches Some(info) && {
        let penalty = spec_penalty_amount(amount, now, info);
        &&& ledger.spec_get(sender) == Some(
            LockInfo {
                amount: (info.amount - amount) as u64,
                last_locked_time: info.last_locked_time,
            },
        )
        &&& ledger.key_seq() == old_ledger.key_seq()
        &&& forall|k: Seq<char>| k != sender ==> ledger.spec_get(k) == old_ledger.spec_get(k)
        &&& msgs@.len() == (if penalty == 0 { 1int } else { 2int })
        &&& penalty != 0 ==> (msgs@[0] matches Instruction::Transfer { token, recipient, amount: a }
            && token@ == config.token@ && recipient@ == config.dead@ && a == penalty)
        &&& (msgs@.last() matches Instruction::Transfer { token, recipient, amount: a } && token@
            == config.token@ && recipient@ == sender && a == amount - penalty)
    })
}

/// Withdraw `amount` from the caller's lock, charging the decayed penalty.
pub fn withdraw(
    ledger: &mut Table<LockInfo>,
    config: &Config,
    now: u64,
    sender: &String,
    amount: u64,
) -> (r: Result<Vec<Instruction>, ContractError>)
    requires
        old(ledger).wf(),
        old(ledger).spec_get(sender@) matches Some(info) ==> info.last_locked_time <= now,
    ensures
        withdraw_post(*config, *old(ledger), *final(ledger), now, sender@, amount, r),
{
    let info = match ledger.get(sender) {
        Some(info) => *info,
        None => {
            return Err(ContractError::InsufficientBalance);
        },
    };
    if amount > info.amount {
        return Err(ContractError::InsufficientBalance);
    }
    let penalty_amount = compute_penalty_amount(amount, now, &info);
    let mut msgs: Vec<Instruction> = Vec::new();
    if penalty_amount > 0 {
        msgs.push(
            Instruction::Transfer {
                token: config.token.clone(),
                recipient: config.dead.clone(),
                amount: penalty_amount as u128,
            },
        );
    }
    msgs.push(
        Instruction::Transfer {
            token: config.token.clone(),
            recipient: sender.clone(),
            amount: (amount - penalty_amount) as u128,
        },
    );
    ledger.upsert(
        sender,
        LockInfo { amount: info.amount - amount, last_locked_time: info.last_locked_time },
    );
    Ok(msgs)
}

/// What a configuration update leaves behind: each given field replaces the
/// stored one, each absent field keeps it.
pub open spec fn update_config_post(
    old_config: Config,
    config: Config,
    owner: Option<String>,
    token: Option<String>,
    penalty_period: Option<u64>,
    dead: Option<String>,
) -> bool {
    &&& config.owner@ == (if owner is Some { owner.unwrap()@ } else { old_config.owner@ })
    &&& config.token@ == (if token is Some { token.unwrap()@ } else { old_config.token@ })
    &&& config.penalty_period == (if penalty_period is Some {
        penalty_period.unwrap()
    } else {
        old_config.penalty_period
    })
    &&& config.dead@ == (if dead is Some { dead.unwrap()@ } else { old_config.dead@ })
}

pub fn update_config(
    config: &mut Config,
    owner: Option<String>,
    token: Option<String>,
    penalty_period: Option<u64>,
    dead: Option<String>,
)
    ensures
        update_config_post(*old(config), *final(config), owner, token, penalty_period, dead),
{
    if let Some(owner) = owner {
        config.owner = owner;
    }
    if let Some(token) = token {
        config.token = token;
    }
    if let Some(penalty_period) = penalty_period {
        config.penalty_period = penalty_period;
    }
    if let Some(dead) = dead {
        config.dead = dead;
    }
}

pub fn assert_owner_privilege(config: &Config, sender: &String) -> (r: Result<(), ContractError>)
    ensures
        r is Ok <==> sender@ == config.owner@,
        r is Err ==> r == Err::<(), ContractError>(ContractError::Unauthorized),
{
    if *sender == config.owner {
        Ok(())
    } else {
        Err(ContractError::Unauthorized)
    }
}

/// Dispatch one authenticated call. Deposits and withdrawals are open to
/// everyone; a configuration update is owner-gated.
pub fn execute(
    config: &mut Config,
    ledger: &mut Table<LockInfo>,
    now: u64,
    sender: &String,
    contract: &String,
    msg: ExecuteMsg,
) -> (r: Result<Vec<Instruction>, ContractError>)
    requires
        old(ledger).wf(),
        old(ledger).spec_get(sender@) matches Some(info) ==> info.last_locked_time <= now,
    ensures
        final(ledger).wf(),
        msg matches ExecuteMsg::Deposit { amount } ==> r is Ok && *final(config) == *old(config)
            && deposit_post(
            *old(config),
            *old(ledger),
            *final(ledger),
            now,
            sender@,
            contract@,
            amount,
            r.unwrap()@,
        ),
        msg matches ExecuteMsg::Withdraw { amount } ==> *final(config) == *old(config)
            && withdraw_post(*old(config), *old(ledger), *final(ledger), now, sender@, amount, r),
        msg matches ExecuteMsg::UpdateConfig { owner, token, penalty_period, dead }
            ==> *final(ledger) == *old(ledger) && (if sender@ == old(config).owner@ {
            r is Ok && r.unwrap()@.len() == 0 && update_config_post(
                *old(config),
                *final(config),
                owner,
                token,
                penalty_period,
                dead,
            )
        } else {
            r == Err::<Vec<Instruction>, ContractError>(ContractError::Unauthorized)
                && *final(config) == *old(config)
        }),
{
    match msg {
        ExecuteMsg::Deposit { amount } => Ok(deposit(ledger, config, now, sender, contract, amount)),
        ExecuteMsg::Withdraw { amount } => withdraw(ledger, config, now, sender, amount),
        ExecuteMsg::UpdateConfig { owner, token, penalty_period, dead } => {
            assert_owner_privilege(config, sender)?;
            update_config(config, owner, token, penalty_period, dead);
            Ok(Vec::new())
        },
    }
}

pub fn query_config(config: &Config) -> (r: ConfigResponse)
    ensures
        r.owner@ == config.owner@,
        r.token@ == config.token@,
        r.penalty_period == config.penalty_period,
        r.dead@ == config.dead@,
{
    ConfigResponse {
        owner: config.owner.clone(),
        token: config.token.clone(),
        penalty_period: config.penalty_period,
        dead: config.dead.clone(),
    }
}

pub fn query_lock_account(ledger: &Table<LockInfo>, address: String) -> (r: Option<
    LockInfoResponse,
>)
    requires
        ledger.wf(),
    ensures
        match r {
            Some(resp) => ledger.spec_get(address@) == Some(resp.info) && resp.address@
                == address@,
            None => ledger.spec_get(address@) is None,
        },
{
    match ledger.get(&address) {
        Some(info) => {
            let info = *info;
            Some(LockInfoResponse { address, info })
        },
        None => None,
    }
}

/// Page through the ledger in its stored order: ascending walks forward from
/// just after `start_after` (from the front when it is absent), descending
/// walks backward from just before it (from the back when it is absent). At
/// most `limit` entries are returned, capped at `MAX_QUERY_LIMIT`.
pub fn query_lock_accounts(
    ledger: &Table<LockInfo>,
    start_after: Option<String>,
    limit: Option<u32>,
    order_by: Option<OrderBy>,
) -> (r: LockedAccountsResponse)
    requires
        ledger.wf(),
    ensures
        ({
            let n = ledger.key_seq().len() as int;
            let lim = (if limit is Some {
                if limit.unwrap() > MAX_QUERY_LIMIT {
                    MAX_QUERY_LIMIT
                } else {
                    limit.unwrap()
                }
            } else {
                DEFAULT_QUERY_LIMIT
            }) as int;
            let anchor = (if start_after is Some {
                crate::table::first_index(ledger.key_seq(), start_after.unwrap()@)
            } else {
                -1
            });
            let out = r.lock_accounts@;
            if order_by matches Some(OrderBy::Desc) {
                let top = if anchor >= 0 { anchor } else { n };
                &&& out.len() == (if top < lim { top } else { lim })
                &&& forall|k: int|
                    0 <= k < out.len() ==> out[k].address@ == ledger.key_seq()[top - 1 - k]
                        && out[k].info == ledger.val_seq()[top - 1 - k]
            } else {
                let from = if anchor >= 0 { anchor + 1 } else { 0 };
                &&& out.len() == (if n - from < lim { n - from } else { lim })
                &&& forall|k: int|
                    0 <= k < out.len() ==> out[k].address@ == ledger.key_seq()[from + k]
                        && out[k].info == ledger.val_seq()[from + k]
            }
        }),
{
    let n = ledger.len();
    let lim: usize = match limit {
        Some(l) => if l > MAX_QUERY_LIMIT {
            MAX_QUERY_LIMIT as usize
        } else {
            l as usize
        },
        None => DEFAULT_QUERY_LIMIT as usize,
    };
    let anchor: Option<usize> = match &start_after {
        Some(a) => ledger.find(a),
        None => None,
    };
    proof {
        if start_after is Some {
            crate::table::lemma_first_index_bounds(ledger.key_seq(), start_after.unwrap()@);
        }
    }
    let mut out: Vec<LockInfoResponse> = Vec::new();
    let descending = match order_by {
        Some(OrderBy::Desc) => true,
        _ => false,
    };
    if descending {
        let top: usize = match anchor {
            Some(i) => i,
            None => n,
        };
        let ghost gtop = top as int;
        let mut k: usize = 0;
        while k < lim && k < top
            invariant
                ledger.wf(),
                gtop == top,
                top <= ledger.key_seq().len(),
                k <= top,
                k <= lim,
                out@.len() == k as int,
                forall|j: int|
                    0 <= j < k ==> out@[j].address@ == ledger.key_seq()[gtop - 1 - j]
                        && out@[j].info == ledger.val_seq()[gtop - 1 - j],
            decreases top - k,
        {
            let i = top - 1 - k;
            out.push(
                LockInfoResponse { address: ledger.key_at(i).clone(), info: *ledger.val_at(i) },
            );
            k = k + 1;
        }
        LockedAccountsResponse { lock_accounts: out }
    } else {
        let from: usize = match anchor {
            Some(i) => i + 1,
            None => 0,
        };
        let ghost gfrom = from as int;
        let mut k: usize = 0;
        while k < lim && from + k < n
            invariant
                ledger.wf(),
                gfrom == from,
                from <= ledger.key_seq().len(),
                n == ledger.key_seq().len(),
                from + k <= n,
                k <= lim,
                out@.len() == k as int,
                forall|j: int|
                    0 <= j < k ==> out@[j].address@ == ledger.key_seq()[gfrom + j] && out@[j].info
                        == ledger.val_seq()[gfrom + j],
            decreases n - from - k,
        {
            let i = from + k;
            out.push(
                LockInfoResponse { address: ledger.key_at(i).clone(), info: *ledger.val_at(i) },
            );
            k = k + 1;
        }
        LockedAccountsResponse { lock_accounts: out }
    }
}

} // verus!
