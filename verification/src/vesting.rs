use vstd::arithmetic::div_mod::{lemma_div_is_ordered, lemma_div_multiples_vanish};
use vstd::arithmetic::mul::{lemma_mul_inequality, lemma_mul_nonnegative};
use vstd::prelude::*;

use crate::error::ContractError;
use crate::instruction::Instruction;
use crate::table::Table;

verus! {

/// Configuration of the vesting schedule. Rates are parts per 1000; the
/// release interval is the tick the stepped release advances on.
pub struct Config {
    pub owner: String,
    pub reward_token: String,
    pub start_time: u64,
    pub release_interval: u64,
    pub release_rate: u64,
    pub initial_unlock: u64,
    pub lock_period: u64,
    pub vesting_period: u64,
}

impl Config {
    /// A zero release interval would make the tick count undefined.
    pub open spec fn wf(&self) -> bool {
        self.release_interval > 0
    }
}

/// One recipient's entitlement and what was already paid out of it.
#[derive(Clone, Copy, Debug, PartialEq, Eq, Structural)]
pub struct VestingRecord {
    pub total: u64,
    pub withdrawn: u64,
}

pub struct InstantiateMsg {
    pub reward_token: String,
    pub release_interval: u64,
    pub release_rate: u64,
    pub initial_unlock: u64,
    pub lock_period: u64,
    pub vesting_period: u64,
}

pub struct AmountResponse {
    pub amount: u64,
}

/// How much of `total` is unlocked at `now`: nothing before the lock period
/// ends, then the initial unlock plus one release-rate slice per full tick,
/// capped at the entitlement. Integer division only ever rounds down, so
/// the schedule under-vests, never over-vests.
pub open spec fn spec_vested(cfg: Config, total: u64, now: u64) -> int
    recommends
        cfg.wf(),
{
    if now < cfg.start_time + cfg.lock_period {
        0
    } else {
        let ticks = (now - cfg.start_time - cfg.lock_period) / cfg.release_interval as int;
        let v = total * cfg.initial_unlock / 1000 + (total * cfg.release_rate / 1000) * ticks;
        if v > total {
            total as int
        } else {
            v
        }
    }
}

pub open spec fn spec_withdrawable(cfg: Config, rec: VestingRecord, now: u64) -> int
    recommends
        cfg.wf(),
{
    spec_vested(cfg, rec.total, now) - rec.withdrawn
}

/// The vested amount never leaves `[0, total]`.
pub proof fn lemma_vested_bounds(cfg: Config, total: u64, now: u64)
    requires
        cfg.wf(),
    ensures
        0 <= spec_vested(cfg, total, now) <= total,
{
    if now >= cfg.start_time + cfg.lock_period {
        let ticks = (now - cfg.start_time - cfg.lock_period) / cfg.release_interval as int;
        lemma_mul_nonnegative(total as int, cfg.initial_unlock as int);
        lemma_div_is_ordered(0, total * cfg.initial_unlock, 1000);
        lemma_mul_nonnegative(total as int, cfg.release_rate as int);
        lemma_div_is_ordered(0, total * cfg.release_rate, 1000);
        vstd::arithmetic::div_mod::lemma_div_pos_is_pos(
            now - cfg.start_time - cfg.lock_period,
            cfg.release_interval as int,
        );
        lemma_mul_nonnegative(total * cfg.release_rate / 1000, ticks);
    }
}

/// The schedule never goes backwards: as the clock advances, the vested
/// amount only grows. So once a withdrawal has raised `withdrawn` to the
/// vested amount, any later call under a host with a monotone clock still
/// finds `withdrawn <= vested`.
pub proof fn lemma_vested_monotone(cfg: Config, total: u64, t1: u64, t2: u64)
    requires
        cfg.wf(),
        t1 <= t2,
    ensures
        spec_vested(cfg, total, t1) <= spec_vested(cfg, total, t2),
{
    lemma_vested_bounds(cfg, total, t1);
    lemma_vested_bounds(cfg, total, t2);
    if t1 >= cfg.start_time + cfg.lock_period {
        let e1 = t1 - cfg.start_time - cfg.lock_period;
        let e2 = t2 - cfg.start_time - cfg.lock_period;
        let iv = cfg.release_interval as int;
        lemma_div_is_ordered(e1, e2, iv);
        vstd::arithmetic::div_mod::lemma_div_pos_is_pos(e1, iv);
        let ticks1 = e1 / iv;
        let ticks2 = e2 / iv;
        let per = total * cfg.release_rate / 1000;
        lemma_mul_nonnegative(total as int, cfg.release_rate as int);
        lemma_div_is_ordered(0, total * cfg.release_rate, 1000);
        lemma_mul_inequality(ticks1, ticks2, per);
        vstd::arithmetic::mul::lemma_mul_is_commutative(per, ticks1);
        vstd::arithmetic::mul::lemma_mul_is_commutative(per, ticks2);
    }
}

pub fn instantiate(owner: String, msg: InstantiateMsg) -> (cfg: Config)
    requires
        msg.release_interval > 0,
    ensures
        cfg.wf(),
        cfg.owner@ == owner@,
        cfg.reward_token@ == msg.reward_token@,
        cfg.start_time == 0,
        cfg.release_interval == msg.release_interval,
        cfg.release_rate == msg.release_rate,
        cfg.initial_unlock == msg.initial_unlock,
        cfg.lock_period == msg.lock_period,
        cfg.vesting_period == msg.vesting_period,
{
    Config {
        owner,
        reward_token: msg.reward_token,
        start_time: 0,
        release_interval: msg.release_interval,
        release_rate: msg.release_rate,
        initial_unlock: msg.initial_unlock,
        lock_period: msg.lock_period,
        vesting_period: msg.vesting_period,
    }
}

/// Compute the vested amount of `total` at `now`.
pub fn vested_amount(config: &Config, total: u64, now: u64) -> (r: u64)
    requires
        config.wf(),
    ensures
        r == spec_vested(*config, total, now),
{
    proof {
        lemma_vested_bounds(*config, total, now);
    }
    if (now as u128) < (config.start_time as u128) + (config.lock_period as u128) {
        return 0;
    }
    let elapsed = now - config.start_time - config.lock_period;
    let ticks = elapsed / config.release_interval;
    let ghost iu = config.initial_unlock as int;
    let ghost rr = config.release_rate as int;
    let ghost t = total as int;
    let ghost uncapped = t * iu / 1000 + (t * rr / 1000) * (ticks as int);
    if config.initial_unlock >= 1000 {
        proof {
            lemma_mul_inequality(1000, iu, t);
            assert(t * 1000 <= t * iu) by {
                vstd::arithmetic::mul::lemma_mul_is_commutative(1000, t);
                vstd::arithmetic::mul::lemma_mul_is_commutative(iu, t);
            }
            lemma_div_is_ordered(t * 1000, t * iu, 1000);
            lemma_div_multiples_vanish(t, 1000);
            assert(t * 1000 == 1000 * t) by {
                vstd::arithmetic::mul::lemma_mul_is_commutative(1000, t);
            }
            lemma_mul_nonnegative(t * rr / 1000, ticks as int);
            vstd::arithmetic::div_mod::lemma_div_pos_is_pos(t * rr, 1000);
            lemma_mul_nonnegative(t, rr);
        }
        return total;
    }
    // initial_unlock < 1000, so the product stays far below u128::MAX.
    proof {
        assert(t * iu <= 0xffffffffffffffffu64 * 999) by (nonlinear_arith)
            requires
                0 <= t <= 0xffffffffffffffffu64,
                0 <= iu <= 999,
        ;
        lemma_mul_nonnegative(t, iu);
    }
    let initial: u128 = (total as u128) * (config.initial_unlock as u128) / 1000;
    proof {
        lemma_div_is_ordered(0, t * iu, 1000);
        lemma_mul_inequality(iu, 1000, t);
        assert(t * iu <= t * 1000) by {
            vstd::arithmetic::mul::lemma_mul_is_commutative(iu, t);
            vstd::arithmetic::mul::lemma_mul_is_commutative(1000, t);
        }
        lemma_div_is_ordered(t * iu, t * 1000, 1000);
        lemma_div_multiples_vanish(t, 1000);
        assert(t * 1000 == 1000 * t) by {
            vstd::arithmetic::mul::lemma_mul_is_commutative(1000, t);
        }
        assert(initial as int == t * iu / 1000);
        assert(initial <= t);
    }
    if ticks == 0 {
        proof {
            assert((t * rr / 1000) * 0 == 0);
            assert(uncapped == initial as int);
        }
        return initial as u64;
    }
    if config.release_rate >= 1000 {
        proof {
            lemma_mul_inequality(1000, rr, t);
            assert(t * 1000 <= t * rr) by {
                vstd::arithmetic::mul::lemma_mul_is_commutative(1000, t);
                vstd::arithmetic::mul::lemma_mul_is_commutative(rr, t);
            }
            lemma_div_is_ordered(t * 1000, t * rr, 1000);
            lemma_div_multiples_vanish(t, 1000);
            assert(t * 1000 == 1000 * t) by {
                vstd::arithmetic::mul::lemma_mul_is_commutative(1000, t);
            }
            // one full tick alone releases at least the whole entitlement
            lemma_mul_inequality(1, ticks as int, t * rr / 1000);
            vstd::arithmetic::mul::lemma_mul_is_commutative(1, t * rr / 1000);
            vstd::arithmetic::mul::lemma_mul_is_commutative(ticks as int, t * rr / 1000);
            lemma_div_is_ordered(0, t * iu, 1000);
        }
        return total;
    }
    proof {
        assert(t * rr <= 0xffffffffffffffffu64 * 999) by (nonlinear_arith)
            requires
                0 <= t <= 0xffffffffffffffffu64,
                0 <= rr <= 999,
        ;
        lemma_mul_nonnegative(t, rr);
    }
    let per_tick: u128 = (total as u128) * (config.release_rate as u128) / 1000;
    proof {
        assert(per_tick as int == t * rr / 1000);
        lemma_div_is_ordered(0, t * rr, 1000);
        lemma_mul_inequality(rr, 1000, t);
        assert(t * rr <= t * 1000) by {
            vstd::arithmetic::mul::lemma_mul_is_commutative(rr, t);
            vstd::arithmetic::mul::lemma_mul_is_commutative(1000, t);
        }
        lemma_div_is_ordered(t * rr, t * 1000, 1000);
        lemma_div_multiples_vanish(t, 1000);
        assert(t * 1000 == 1000 * t) by {
            vstd::arithmetic::mul::lemma_mul_is_commutative(1000, t);
        }
        assert(per_tick <= t);
    }
    if per_tick == 0 {
        proof {
            assert((t * rr / 1000) * (ticks as int) == 0) by {
                assert(t * rr / 1000 == 0);
                vstd::arithmetic::mul::lemma_mul_basics(ticks as int);
            }
        }
        return initial as u64;
    }
    if (ticks as u128) >= (total as u128) {
        proof {
            lemma_mul_inequality(1, per_tick as int, ticks as int);
            vstd::arithmetic::mul::lemma_mul_is_commutative(1, ticks as int);
            vstd::arithmetic::mul::lemma_mul_is_commutative(per_tick as int, ticks as int);
            assert((t * rr / 1000) * (ticks as int) >= ticks as int);
            lemma_div_is_ordered(0, t * iu, 1000);
        }
        return total;
    }
    proof {
        assert(per_tick as int * (ticks as int) + initial as int <= u128::MAX as int)
            by (nonlinear_arith)
            requires
                0 <= per_tick as int <= t,
                0 <= ticks as int <= t,
                0 <= initial as int <= t,
                t <= 0xffffffffffffffffu64,
        ;
        lemma_mul_nonnegative(per_tick as int, ticks as int);
    }
    let linear: u128 = per_tick * (ticks as u128);
    let v: u128 = initial + linear;
    if v > total as u128 {
        total
    } else {
        v as u64
    }
}

/// Compute what the record's owner could withdraw at `now`. The caller must
/// know the record is not poisoned: nothing already paid out may exceed
/// what has vested, which holds whenever the clock never moves backwards
/// and the entitlement never shrinks.
pub fn withdrawable_amount(config: &Config, record: &VestingRecord, now: u64) -> (r: u64)
    requires
        config.wf(),
        record.withdrawn <= spec_vested(*config, record.total, now),
    ensures
        r == spec_withdrawable(*config, *record, now),
{
    let vested = vested_amount(config, record.total, now);
    vested - record.withdrawn
}

/// Set `recp`'s total entitlement; owner-only. The new total must cover
/// what was already withdrawn — the schedule keeps `withdrawn <= total` and
/// has no meaning for a shrunken entitlement.
pub fn update_recipient(
    config: &Config,
    records: &mut Table<VestingRecord>,
    sender: &String,
    recp: &String,
    amount: u64,
) -> (r: Result<(), ContractError>)
    requires
        old(records).wf(),
        sender@ == config.owner@ && (old(records).spec_get(recp@) matches Some(rec))
            ==> amount >= old(records).spec_get(recp@).unwrap().withdrawn,
    ensures
        final(records).wf(),
        r is Ok <==> sender@ == config.owner@,
        r is Err ==> *final(records) == *old(records) && r == Err::<(), ContractError>(
            ContractError::Unauthorized,
        ),
        r is Ok ==> {
            let w = (if old(records).spec_get(recp@) is Some {
                old(records).spec_get(recp@).unwrap().withdrawn
            } else {
                0
            });
            &&& final(records).spec_get(recp@) == Some(
                (VestingRecord { total: amount, withdrawn: w }),
            )
            &&& forall|k: Seq<char>|
                k != recp@ ==> final(records).spec_get(k) == old(records).spec_get(k)
            &&& old(records).spec_contains(recp@) ==> final(records).key_seq() == old(
                records,
            ).key_seq()
            &&& !old(records).spec_contains(recp@) ==> final(records).key_seq() == old(
                records,
            ).key_seq().push(recp@)
        },
{
    if *sender != config.owner {
        return Err(ContractError::Unauthorized);
    }
    let withdrawn = match records.get(recp) {
        Some(rec) => rec.withdrawn,
        None => 0,
    };
    records.upsert(recp, VestingRecord { total: amount, withdrawn });
    Ok(())
}

/// Set the schedule's start time; owner-only.
pub fn set_start_time(config: &mut Config, sender: &String, new_start_time: u64) -> (r: Result<
    (),
    ContractError,
>)
    ensures
        r is Ok <==> sender@ == old(config).owner@,
        r is Err ==> *final(config) == *old(config) && r == Err::<(), ContractError>(
            ContractError::Unauthorized,
        ),
        r is Ok ==> *final(config) == (Config { start_time: new_start_time, ..*old(config) }),
{
    if *sender != config.owner {
        return Err(ContractError::Unauthorized);
    }
    config.start_time = new_start_time;
    Ok(())
}

/// Hand the contract to a new owner; owner-only.
pub fn transfer_ownership(config: &mut Config, sender: &String, new_owner: String) -> (r: Result<
    (),
    ContractError,
>)
    ensures
        r is Ok <==> sender@ == old(config).owner@,
        r is Err ==> *final(config) == *old(config) && r == Err::<(), ContractError>(
            ContractError::Unauthorized,
        ),
        r is Ok ==> *final(config) == (Config { owner: new_owner, ..*old(config) }),
{
    if *sender != config.owner {
        return Err(ContractError::Unauthorized);
    }
    config.owner = new_owner;
    Ok(())
}

/// Pay out everything withdrawable at `now` and record it. Fails with
/// `NothingToWithdraw` when nothing is due, including for a caller with no
/// record at all.
pub fn withdraw(
    config: &Config,
    records: &mut Table<VestingRecord>,
    now: u64,
    sender: &String,
) -> (r: Result<Vec<Instruction>, ContractError>)
    requires
        config.wf(),
        old(records).wf(),
        old(records).spec_get(sender@) matches Some(rec) ==> rec.withdrawn <= spec_vested(
            *config,
            rec.total,
            now,
        ),
    ensures
        final(records).wf(),
        r is Ok <==> (old(records).spec_get(sender@) matches Some(rec) && spec_withdrawable(
            *config,
            rec,
            now,
        ) > 0),
        r is Err ==> *final(records) == *old(records) && r == Err::<
            Vec<Instruction>,
            ContractError,
        >(ContractError::NothingToWithdraw),
        r matches Ok(msgs) ==> (old(records).spec_get(sender@) matches Some(rec) && {
            let w = spec_withdrawable(*config, rec, now);
            &&& final(records).spec_get(sender@) == Some(
                (VestingRecord {
                    total: rec.total,
                    withdrawn: spec_vested(*config, rec.total, now) as u64,
                }),
            )
            &&& final(records).key_seq() == old(records).key_seq()
            &&& forall|k: Seq<char>|
                k != sender@ ==> final(records).spec_get(k) == old(records).spec_get(k)
            &&& msgs@.len() == 1
            &&& (msgs@[0] matches Instruction::Transfer { token, recipient, amount } && token@
                == config.reward_token@ && recipient@ == sender@ && amount == w)
        }),
{
    let rec = match records.get(sender) {
        Some(rec) => *rec,
        None => {
            return Err(ContractError::NothingToWithdraw);
        },
    };
    let withdrawable = withdrawable_amount(config, &rec, now);
    if withdrawable == 0 {
        return Err(ContractError::NothingToWithdraw);
    }
    proof {
        lemma_vested_bounds(*config, rec.total, now);
    }
    records.upsert(
        sender,
        VestingRecord { total: rec.total, withdrawn: rec.withdrawn + withdrawable },
    );
    let mut msgs: Vec<Instruction> = Vec::new();
    msgs.push(
        Instruction::Transfer {
            token: config.reward_token.clone(),
            recipient: sender.clone(),
            amount: withdrawable as u128,
        },
    );
    Ok(msgs)
}

/// Within one tick a withdrawal is exhaustive: once `withdrawn` has been
/// raised to the vested amount, nothing more is withdrawable at the same
/// timestamp, so a second withdrawal at that timestamp fails with
/// `NothingToWithdraw`.
pub proof fn lemma_withdraw_exhausts_tick(cfg: Config, rec: VestingRecord, now: u64)
    requires
        cfg.wf(),
    ensures
        spec_withdrawable(
            cfg,
            VestingRecord { total: rec.total, withdrawn: spec_vested(cfg, rec.total, now) as u64 },
            now,
        ) == 0,
{
    lemma_vested_bounds(cfg, rec.total, now);
}

pub fn query_vested(config: &Config, records: &Table<VestingRecord>, user: &String, now: u64) -> (r:
    AmountResponse)
    requires
        config.wf(),
        records.wf(),
    ensures
        r.amount == (if records.spec_get(user@) is Some {
            spec_vested(*config, records.spec_get(user@).unwrap().total, now)
        } else {
            0
        }),
{
    match records.get(user) {
        Some(rec) => {
            let rec = *rec;
            AmountResponse { amount: vested_amount(config, rec.total, now) }
        },
        None => AmountResponse { amount: 0 },
    }
}

pub fn query_withdrawable(
    config: &Config,
    records: &Table<VestingRecord>,
    user: &String,
    now: u64,
) -> (r: AmountResponse)
    requires
        config.wf(),
        records.wf(),
        records.spec_get(user@) matches Some(rec) ==> rec.withdrawn <= spec_vested(
            *config,
            rec.total,
            now,
        ),
    ensures
        r.amount == (if records.spec_get(user@) is Some {
            spec_withdrawable(*config, records.spec_get(user@).unwrap(), now)
        } else {
            0
        }),
{
    match records.get(user) {
        Some(rec) => {
            let rec = *rec;
            AmountResponse { amount: withdrawable_amount(config, &rec, now) }
        },
        None => AmountResponse { amount: 0 },
    }
}

} // verus!
