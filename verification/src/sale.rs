use vstd::arithmetic::div_mod::lemma_div_is_ordered;
use vstd::arithmetic::mul::lemma_mul_nonnegative;
use vstd::prelude::*;
use vstd::string::StrSliceExecFns;

use crate::error::ContractError;
use crate::instruction::Instruction;
use crate::merkle;
use crate::table::{str_views, Table};

verus! {

/// Fixed-point scaling of the exchange rate: `exchange_rate` is reward per
/// fund times this constant.
pub const ACCURACY: u64 = 100000000;

/// A participant's cumulative balances: fund tokens paid in and reward
/// tokens earned, over both phases.
#[derive(Clone, Copy, Debug, PartialEq, Eq, Structural)]
pub struct Participant {
    pub fund_balance: u64,
    pub reward_balance: u64,
}

/// What the sale stores per participant: the public balances plus the fund
/// paid in during the private phase, which rolls unspent private capacity
/// into the public cap.
#[derive(Clone, Copy, Debug, PartialEq, Eq, Structural)]
pub struct ParticipantRecord {
    pub fund_balance: u64,
    pub reward_balance: u64,
    pub private_sold_fund: u64,
}

/// Allocation caps a participant claims (and proves) for the two phases.
#[derive(Clone, Copy, Debug, PartialEq, Eq, Structural)]
pub struct AlloInfo {
    pub public_allocation: u64,
    pub private_allocation: u64,
}

pub struct InstantiateMsg {
    pub fund_token: String,
    pub reward_token: String,
    pub vesting: String,
    pub whitelist_merkle_root: String,
    pub exchange_rate: u64,
    pub private_start_time: u64,
    pub public_start_time: u64,
    pub presale_period: u64,
    pub distribution_amount: u64,
}

/// The deposit requests a token contract forwards on a holder's behalf.
pub enum Cw20HookMsg {
    Deposit { allo_info: AlloInfo, proof: Vec<String> },
    DepositPrivateSale { allo_info: AlloInfo, proof: Vec<String> },
}

pub enum QueryMsg {
    ParticipantsCount {},
    GetParticipants { page: u64, limit: u64 },
    GetParticipant { user: String },
    GetSaleStatus {},
}

pub struct ParticipantsCountResponse {
    pub count: u64,
}

pub struct GetParticipantsResponse {
    pub participants: Vec<String>,
}

pub struct GetParticipantResponse {
    pub data: Participant,
}

pub struct GetSaleStatusResponse {
    pub private_sold_amount: u64,
    pub public_sold_amount: u64,
}

pub enum QueryResponse {
    ParticipantsCount(ParticipantsCountResponse),
    Participants(GetParticipantsResponse),
    Participant(GetParticipantResponse),
    SaleStatus(GetSaleStatusResponse),
}

/// The sale's whole state: configuration, cumulative sold totals, and the
/// participant ledger in order of first deposit.
pub struct State {
    pub owner: String,
    pub fund_token: String,
    pub reward_token: String,
    pub vesting: String,
    /// Hex-encoded 32-byte digest; the empty string disables allowlist
    /// gating altogether.
    pub whitelist_merkle_root: String,
    pub exchange_rate: u64,
    pub presale_period: u64,
    pub public_start_time: u64,
    pub private_start_time: u64,
    pub distribution_amount: u64,
    pub private_sold_amount: u64,
    pub public_sold_amount: u64,
    pub participants: Table<ParticipantRecord>,
}

impl State {
    pub open spec fn wf(&self) -> bool {
        self.participants.wf()
    }

    /// The record deposits accumulate into; an address that never deposited
    /// has the zero record.
    pub open spec fn record_of(&self, w: Seq<char>) -> ParticipantRecord {
        if self.participants.spec_get(w) is Some {
            self.participants.spec_get(w).unwrap()
        } else {
            ParticipantRecord { fund_balance: 0, reward_balance: 0, private_sold_fund: 0 }
        }
    }
}

pub fn instantiate(owner: String, msg: InstantiateMsg) -> (state: State)
    ensures
        state.wf(),
        state.owner@ == owner@,
        state.fund_token@ == msg.fund_token@,
        state.reward_token@ == msg.reward_token@,
        state.vesting@ == msg.vesting@,
        state.whitelist_merkle_root@ == msg.whitelist_merkle_root@,
        state.exchange_rate == msg.exchange_rate,
        state.presale_period == msg.presale_period,
        state.public_start_time == msg.public_start_time,
        state.private_start_time == msg.private_start_time,
        state.distribution_amount == msg.distribution_amount,
        state.private_sold_amount == 0,
        state.public_sold_amount == 0,
        state.participants.key_seq() == Seq::<Seq<char>>::empty(),
{
    State {
        owner,
        fund_token: msg.fund_token,
        reward_token: msg.reward_token,
        vesting: msg.vesting,
        whitelist_merkle_root: msg.whitelist_merkle_root,
        exchange_rate: msg.exchange_rate,
        presale_period: msg.presale_period,
        public_start_time: msg.public_start_time,
        private_start_time: msg.private_start_time,
        distribution_amount: msg.distribution_amount,
        private_sold_amount: 0,
        public_sold_amount: 0,
        participants: Table::new(),
    }
}

pub open spec fn pow10(n: nat) -> int
    decreases n,
{
    if n == 0 {
        1
    } else {
        10 * pow10((n - 1) as nat)
    }
}

proof fn lemma_pow10_bounds(n: nat)
    ensures
        pow10(n) >= 1,
        forall|m: nat| m <= n ==> #[trigger] pow10(m) <= pow10(n),
    decreases n,
{
    if n > 0 {
        lemma_pow10_bounds((n - 1) as nat);
        assert forall|m: nat| m <= n implies #[trigger] pow10(m) <= pow10(n) by {
            if m <= n - 1 {
                assert(pow10(m) <= pow10((n - 1) as nat));
            }
        }
    }
}

/// `10^d`, or `None` when that exceeds the wide intermediate type.
fn pow10_u128(d: u8) -> (r: Option<u128>)
    ensures
        r matches Some(p) ==> p == pow10(d as nat),
        r is None <==> pow10(d as nat) > u128::MAX,
{
    let mut acc: u128 = 1;
    let mut i: u8 = 0;
    while i < d
        invariant
            i <= d,
            acc == pow10(i as nat),
        decreases d - i,
    {
        proof {
            assert(pow10((i + 1) as nat) == 10 * pow10(i as nat));
        }
        acc = match acc.checked_mul(10) {
            Some(a) => a,
            None => {
                proof {
                    lemma_pow10_bounds(d as nat);
                    assert(pow10((i + 1) as nat) <= pow10(d as nat));
                }
                return None;
            },
        };
        i = i + 1;
    }
    Some(acc)
}

/// The reward owed for `amount` fund tokens: scale by the fixed-point
/// exchange rate, then rescale from the fund token's decimals to the reward
/// token's, flooring at each division.
pub open spec fn spec_reward(amount: u64, rate: u64, fund_decimals: u8, reward_decimals: u8) -> int
    recommends
        rate > 0,
{
    (((amount as int) * (ACCURACY as int) / (rate as int)) * pow10(reward_decimals as nat)) / pow10(
        fund_decimals as nat,
    )
}

/// When the conversion succeeds: the rate is configured, every intermediate
/// fits the wide type, and the result narrows back to the amount type.
pub open spec fn reward_fits(amount: u64, rate: u64, fund_decimals: u8, reward_decimals: u8) -> bool {
    &&& rate > 0
    &&& pow10(reward_decimals as nat) <= u128::MAX
    &&& pow10(fund_decimals as nat) <= u128::MAX
    &&& ((amount as int) * (ACCURACY as int) / (rate as int)) * pow10(reward_decimals as nat)
        <= u128::MAX
    &&& spec_reward(amount, rate, fund_decimals, reward_decimals) <= u64::MAX
}

/// Convert a fund amount to a reward amount. A zero exchange rate is a
/// configuration error with no recovery path, reported like a narrowing
/// failure.
pub fn convert_reward(amount: u64, exchange_rate: u64, fund_decimals: u8, reward_decimals: u8) -> (r:
    Result<u64, ContractError>)
    ensures
        r is Ok <==> reward_fits(amount, exchange_rate, fund_decimals, reward_decimals),
        r matches Ok(v) ==> v == spec_reward(amount, exchange_rate, fund_decimals, reward_decimals),
        r is Err ==> r == Err::<u64, ContractError>(ContractError::AmountOverflow),
{
    if exchange_rate == 0 {
        return Err(ContractError::AmountOverflow);
    }
    proof {
        assert((amount as int) * (ACCURACY as int) <= 0xffffffffffffffffu64 * 100000000i64)
            by (nonlinear_arith)
            requires
                0 <= amount as int <= 0xffffffffffffffffu64,
        ;
        lemma_mul_nonnegative(amount as int, ACCURACY as int);
    }
    let base: u128 = (amount as u128) * (ACCURACY as u128);
    let quotient: u128 = base / (exchange_rate as u128);
    let p_r: u128 = match pow10_u128(reward_decimals) {
        Some(p) => p,
        None => {
            return Err(ContractError::AmountOverflow);
        },
    };
    let p_f: u128 = match pow10_u128(fund_decimals) {
        Some(p) => p,
        None => {
            return Err(ContractError::AmountOverflow);
        },
    };
    let scaled: u128 = match quotient.checked_mul(p_r) {
        Some(s) => s,
        None => {
            return Err(ContractError::AmountOverflow);
        },
    };
    proof {
        lemma_pow10_bounds(fund_decimals as nat);
        vstd::arithmetic::div_mod::lemma_div_pos_is_pos(scaled as int, p_f as int);
        lemma_div_is_ordered(0, scaled as int, p_f as int);
    }
    let result: u128 = scaled / p_f;
    if result > u64::MAX as u128 {
        return Err(ContractError::AmountOverflow);
    }
    Ok(result as u64)
}

/// The public sale window: from its start for `presale_period` seconds.
pub open spec fn public_window_ok(s: State, now: u64) -> bool {
    s.public_start_time <= now <= s.public_start_time + s.presale_period
}

/// The private phase is open-ended: it only needs to have started.
pub open spec fn private_open(s: State, now: u64) -> bool {
    now >= s.private_start_time
}

/// An empty merkle root disables allowlist gating.
pub open spec fn root_set(s: State) -> bool {
    s.whitelist_merkle_root@.len() > 0
}

pub open spec fn gate_decode_ok(s: State, proof: Seq<Seq<char>>) -> bool {
    merkle::all_elems_ok(proof) && merkle::root_ok(s.whitelist_merkle_root@)
}

pub open spec fn gate_matches(s: State, sender: Seq<char>, allo: AlloInfo, proof: Seq<Seq<char>>) -> bool {
    merkle::proof_matches(
        sender,
        allo.private_allocation,
        allo.public_allocation,
        proof,
        s.whitelist_merkle_root@,
    )
}

/// The caller may deposit: either gating is disabled or the claimed caps
/// verify against the published root.
pub open spec fn whitelist_pass(s: State, sender: Seq<char>, allo: AlloInfo, proof: Seq<Seq<char>>) -> bool {
    !root_set(s) || (gate_decode_ok(s, proof) && gate_matches(s, sender, allo, proof))
}

/// Public-phase capacity: the public cap plus whatever private capacity the
/// participant left unspent.
pub open spec fn public_cap_ok(s: State, sender: Seq<char>, allo: AlloInfo, amount: u64) -> bool {
    let rec = s.record_of(sender);
    allo.public_allocation + allo.private_allocation - rec.private_sold_fund >= rec.fund_balance
        + amount
}

pub open spec fn private_cap_ok(s: State, sender: Seq<char>, allo: AlloInfo, amount: u64) -> bool {
    let rec = s.record_of(sender);
    allo.private_allocation >= rec.fund_balance + amount
}

/// Every counter a public deposit touches stays within the amount type.
pub open spec fn public_fits(s: State, sender: Seq<char>, amount: u64, fd: u8, rd: u8) -> bool {
    let rec = s.record_of(sender);
    let reward = spec_reward(amount, s.exchange_rate, fd, rd);
    &&& rec.fund_balance + amount <= u64::MAX
    &&& reward_fits(amount, s.exchange_rate, fd, rd)
    &&& rec.reward_balance + reward <= u64::MAX
    &&& s.public_sold_amount + reward <= u64::MAX
}

/// Every counter a private deposit touches stays within the amount type.
pub open spec fn private_fits(s: State, sender: Seq<char>, amount: u64, fd: u8, rd: u8) -> bool {
    let rec = s.record_of(sender);
    let reward = spec_reward(amount, s.exchange_rate, fd, rd);
    &&& rec.fund_balance + amount <= u64::MAX
    &&& rec.private_sold_fund + amount <= u64::MAX
    &&& reward_fits(amount, s.exchange_rate, fd, rd)
    &&& rec.reward_balance + reward <= u64::MAX
    &&& s.private_sold_amount + reward <= u64::MAX
}

/// Everything a public deposit promises: exactly when it succeeds, which
/// error it reports first, and every effect of a success — the caller's
/// record grows by the deposit and its reward, the public sold total grows
/// by the reward, a first-time depositor is appended to the participant
/// list, and the vesting contract is told the caller's new total.
pub open spec fn public_deposit_post(
    old_s: State,
    s: State,
    now: u64,
    sender: Seq<char>,
    amount: u64,
    allo: AlloInfo,
    proof: Seq<Seq<char>>,
    fd: u8,
    rd: u8,
    r: Result<Vec<Instruction>, ContractError>,
) -> bool {
    &&& s.wf()
    &&& (r is Ok <==> public_window_ok(old_s, now) && whitelist_pass(old_s, sender, allo, proof)
        && public_cap_ok(old_s, sender, allo, amount) && public_fits(old_s, sender, amount, fd, rd))
    &&& r is Err ==> s == old_s
    &&& (r == Err::<Vec<Instruction>, ContractError>(ContractError::PublicNotInProgress)
        <==> !public_window_ok(old_s, now))
    &&& (r == Err::<Vec<Instruction>, ContractError>(ContractError::ProofDecodeError)
        <==> public_window_ok(old_s, now) && root_set(old_s) && !gate_decode_ok(old_s, proof))
    &&& (r == Err::<Vec<Instruction>, ContractError>(ContractError::ProofMismatch)
        <==> public_window_ok(old_s, now) && root_set(old_s) && gate_decode_ok(old_s, proof)
        && !gate_matches(old_s, sender, allo, proof))
    &&& (r == Err::<Vec<Instruction>, ContractError>(ContractError::ExceedAllocation)
        <==> public_window_ok(old_s, now) && whitelist_pass(old_s, sender, allo, proof)
        && !public_cap_ok(old_s, sender, allo, amount))
    &&& (r == Err::<Vec<Instruction>, ContractError>(ContractError::AmountOverflow)
        <==> public_window_ok(old_s, now) && whitelist_pass(old_s, sender, allo, proof)
        && public_cap_ok(old_s, sender, allo, amount) && !public_fits(old_s, sender, amount, fd, rd))
    &&& r matches Ok(msgs) ==> ({
        let rec = old_s.record_of(sender);
        let reward = spec_reward(amount, old_s.exchange_rate, fd, rd);
        let rec2 = ParticipantRecord {
            fund_balance: (rec.fund_balance + amount) as u64,
            reward_balance: (rec.reward_balance + reward) as u64,
            private_sold_fund: rec.private_sold_fund,
        };
        &&& s.participants.spec_get(sender) == Some(rec2)
        &&& forall|k: Seq<char>|
            k != sender ==> s.participants.spec_get(k) == old_s.participants.spec_get(k)
        &&& old_s.participants.spec_contains(sender) ==> s.participants.key_seq()
            == old_s.participants.key_seq()
        &&& !old_s.participants.spec_contains(sender) ==> s.participants.key_seq()
            == old_s.participants.key_seq().push(sender)
        &&& s == (State {
            public_sold_amount: (old_s.public_sold_amount + reward) as u64,
            participants: s.participants,
            ..old_s
        })
        &&& msgs@.len() == 1
        &&& (msgs@[0] matches Instruction::UpdateRecipient { contract, recipient, total }
            && contract@ == old_s.vesting@ && recipient@ == sender && total
            == rec2.reward_balance)
    })
}

/// Everything a private deposit promises, in the same shape; it also grows
/// the caller's private-sold fund and pulls the fund tokens in, since the
/// private path has not received them through the token contract.
pub open spec fn private_deposit_post(
    old_s: State,
    s: State,
    now: u64,
    sender: Seq<char>,
    contract: Seq<char>,
    amount: u64,
    allo: AlloInfo,
    proof: Seq<Seq<char>>,
    fd: u8,
    rd: u8,
    r: Result<Vec<Instruction>, ContractError>,
) -> bool {
    &&& s.wf()
    &&& (r is Ok <==> private_open(old_s, now) && whitelist_pass(old_s, sender, allo, proof)
        && private_cap_ok(old_s, sender, allo, amount) && private_fits(old_s, sender, amount, fd, rd))
    &&& r is Err ==> s == old_s
    &&& (r == Err::<Vec<Instruction>, ContractError>(ContractError::PrivateNotInProgress)
        <==> !private_open(old_s, now))
    &&& (r == Err::<Vec<Instruction>, ContractError>(ContractError::ProofDecodeError)
        <==> private_open(old_s, now) && root_set(old_s) && !gate_decode_ok(old_s, proof))
    &&& (r == Err::<Vec<Instruction>, ContractError>(ContractError::ProofMismatch)
        <==> private_open(old_s, now) && root_set(old_s) && gate_decode_ok(old_s, proof)
        && !gate_matches(old_s, sender, allo, proof))
    &&& (r == Err::<Vec<Instruction>, ContractError>(ContractError::ExceedAllocation)
        <==> private_open(old_s, now) && whitelist_pass(old_s, sender, allo, proof)
        && !private_cap_ok(old_s, sender, allo, amount))
    &&& (r == Err::<Vec<Instruction>, ContractError>(ContractError::AmountOverflow)
        <==> private_open(old_s, now) && whitelist_pass(old_s, sender, allo, proof)
        && private_cap_ok(old_s, sender, allo, amount) && !private_fits(old_s, sender, amount, fd, rd))
    &&& r matches Ok(msgs) ==> ({
        let rec = old_s.record_of(sender);
        let reward = spec_reward(amount, old_s.exchange_rate, fd, rd);
        let rec2 = ParticipantRecord {
            fund_balance: (rec.fund_balance + amount) as u64,
            reward_balance: (rec.reward_balance + reward) as u64,
            private_sold_fund: (rec.private_sold_fund + amount) as u64,
        };
        &&& s.participants.spec_get(sender) == Some(rec2)
        &&& forall|k: Seq<char>|
            k != sender ==> s.participants.spec_get(k) == old_s.participants.spec_get(k)
        &&& old_s.participants.spec_contains(sender) ==> s.participants.key_seq()
            == old_s.participants.key_seq()
        &&& !old_s.participants.spec_contains(sender) ==> s.participants.key_seq()
            == old_s.participants.key_seq().push(sender)
        &&& s == (State {
            private_sold_amount: (old_s.private_sold_amount + reward) as u64,
            participants: s.participants,
            ..old_s
        })
        &&& msgs@.len() == 2
        &&& (msgs@[0] matches Instruction::TransferFrom { token, owner, recipient, amount: a }
            && token@ == old_s.fund_token@ && owner@ == sender && recipient@ == contract && a
            == amount as u128)
        &&& (msgs@[1] matches Instruction::UpdateRecipient { contract: c, recipient, total }
            && c@ == old_s.vesting@ && recipient@ == sender && total == rec2.reward_balance)
    })
}

/// A public-phase deposit of `amount` by `sender`, gated by time and by the
/// allowlist proof, bounded by the rolled-over allocation cap.
pub fn execute_deposit(
    state: &mut State,
    now: u64,
    sender: &String,
    amount: u64,
    allo_info: &AlloInfo,
    proof: &Vec<String>,
    fund_decimals: u8,
    reward_decimals: u8,
) -> (r: Result<Vec<Instruction>, ContractError>)
    requires
        old(state).wf(),
    ensures
        public_deposit_post(
            *old(state),
            *final(state),
            now,
            sender@,
            amount,
            *allo_info,
            str_views(proof@),
            fund_decimals,
            reward_decimals,
            r,
        ),
{
    if (now as u128) > (state.public_start_time as u128) + (state.presale_period as u128) || now
        < state.public_start_time {
        return Err(ContractError::PublicNotInProgress);
    }
    if state.whitelist_merkle_root.as_str().unicode_len() > 0 {
        match merkle::verify_proof(
            sender,
            allo_info.private_allocation,
            allo_info.public_allocation,
            proof,
            &state.whitelist_merkle_root,
        ) {
            Ok(()) => {},
            Err(e) => {
                return Err(e);
            },
        }
    }
    let rec = match state.participants.get(sender) {
        Some(r) => *r,
        None => ParticipantRecord { fund_balance: 0, reward_balance: 0, private_sold_fund: 0 },
    };
    let new_fund: u128 = rec.fund_balance as u128 + amount as u128;
    let cap: u128 = allo_info.public_allocation as u128 + allo_info.private_allocation as u128;
    if cap < new_fund + rec.private_sold_fund as u128 {
        return Err(ContractError::ExceedAllocation);
    }
    if new_fund > u64::MAX as u128 {
        return Err(ContractError::AmountOverflow);
    }
    let reward = match convert_reward(amount, state.exchange_rate, fund_decimals, reward_decimals) {
        Ok(v) => v,
        Err(e) => {
            return Err(e);
        },
    };
    let new_reward = match rec.reward_balance.checked_add(reward) {
        Some(v) => v,
        None => {
            return Err(ContractError::AmountOverflow);
        },
    };
    let new_sold = match state.public_sold_amount.checked_add(reward) {
        Some(v) => v,
        None => {
            return Err(ContractError::AmountOverflow);
        },
    };
    state.participants.upsert(
        sender,
        ParticipantRecord {
            fund_balance: new_fund as u64,
            reward_balance: new_reward,
            private_sold_fund: rec.private_sold_fund,
        },
    );
    state.public_sold_amount = new_sold;
    let mut msgs: Vec<Instruction> = Vec::new();
    msgs.push(
        Instruction::UpdateRecipient {
            contract: state.vesting.clone(),
            recipient: sender.clone(),
            total: new_reward,
        },
    );
    Ok(msgs)
}

/// A private-phase deposit: open-ended in time, bounded by the private cap
/// alone, and it pulls the fund tokens in from the caller.
pub fn execute_deposit_private_sale(
    state: &mut State,
    now: u64,
    sender: &String,
    contract: &String,
    amount: u64,
    allo_info: &AlloInfo,
    proof: &Vec<String>,
    fund_decimals: u8,
    reward_decimals: u8,
) -> (r: Result<Vec<Instruction>, ContractError>)
    requires
        old(state).wf(),
    ensures
        private_deposit_post(
            *old(state),
            *final(state),
            now,
            sender@,
            contract@,
            amount,
            *allo_info,
            str_views(proof@),
            fund_decimals,
            reward_decimals,
            r,
        ),
{
    if now < state.private_start_time {
        return Err(ContractError::PrivateNotInProgress);
    }
    if state.whitelist_merkle_root.as_str().unicode_len() > 0 {
        match merkle::verify_proof(
            sender,
            allo_info.private_allocation,
            allo_info.public_allocation,
            proof,
            &state.whitelist_merkle_root,
        ) {
            Ok(()) => {},
            Err(e) => {
                return Err(e);
            },
        }
    }
    let rec = match state.participants.get(sender) {
        Some(r) => *r,
        None => ParticipantRecord { fund_balance: 0, reward_balance: 0, private_sold_fund: 0 },
    };
    let new_fund: u128 = rec.fund_balance as u128 + amount as u128;
    if (allo_info.private_allocation as u128) < new_fund {
        return Err(ContractError::ExceedAllocation);
    }
    if new_fund > u64::MAX as u128 {
        return Err(ContractError::AmountOverflow);
    }
    let new_psf = match rec.private_sold_fund.checked_add(amount) {
        Some(v) => v,
        None => {
            return Err(ContractError::AmountOverflow);
        },
    };
    let reward = match convert_reward(amount, state.exchange_rate, fund_decimals, reward_decimals) {
        Ok(v) => v,
        Err(e) => {
            return Err(e);
        },
    };
    let new_reward = match rec.reward_balance.checked_add(reward) {
        Some(v) => v,
        None => {
            return Err(ContractError::AmountOverflow);
        },
    };
    let new_sold = match state.private_sold_amount.checked_add(reward) {
        Some(v) => v,
        None => {
            return Err(ContractError::AmountOverflow);
        },
    };
    state.participants.upsert(
        sender,
        ParticipantRecord {
            fund_balance: new_fund as u64,
            reward_balance: new_reward,
            private_sold_fund: new_psf,
        },
    );
    state.private_sold_amount = new_sold;
    let mut msgs: Vec<Instruction> = Vec::new();
    msgs.push(
        Instruction::TransferFrom {
            token: state.fund_token.clone(),
            owner: sender.clone(),
            recipient: contract.clone(),
            amount: amount as u128,
        },
    );
    msgs.push(
        Instruction::UpdateRecipient {
            contract: state.vesting.clone(),
            recipient: sender.clone(),
            total: new_reward,
        },
    );
    Ok(msgs)
}

/// Dispatch a deposit the fund token contract forwards on a holder's
/// behalf. Only the configured fund token may call in, and the forwarded
/// amount must narrow to the amount type.
pub fn receive_cw20(
    state: &mut State,
    now: u64,
    contract: &String,
    token_contract: &String,
    cw20_sender: &String,
    amount: u128,
    msg: Cw20HookMsg,
    fund_decimals: u8,
    reward_decimals: u8,
) -> (r: Result<Vec<Instruction>, ContractError>)
    requires
        old(state).wf(),
    ensures
        final(state).wf(),
        token_contract@ != old(state).fund_token@ ==> *final(state) == *old(state) && r == Err::<
            Vec<Instruction>,
            ContractError,
        >(ContractError::Unauthorized),
        token_contract@ == old(state).fund_token@ && amount > u64::MAX ==> *final(state) == *old(
            state,
        ) && r == Err::<Vec<Instruction>, ContractError>(ContractError::AmountOverflow),
        token_contract@ == old(state).fund_token@ && amount <= u64::MAX ==> (match msg {
            Cw20HookMsg::Deposit { allo_info, proof } => public_deposit_post(
                *old(state),
                *final(state),
                now,
                cw20_sender@,
                amount as u64,
                allo_info,
                str_views(proof@),
                fund_decimals,
                reward_decimals,
                r,
            ),
            Cw20HookMsg::DepositPrivateSale { allo_info, proof } => private_deposit_post(
                *old(state),
                *final(state),
                now,
                cw20_sender@,
                contract@,
                amount as u64,
                allo_info,
                str_views(proof@),
                fund_decimals,
                reward_decimals,
                r,
            ),
        }),
{
    if *token_contract != state.fund_token {
        return Err(ContractError::Unauthorized);
    }
    if amount > u64::MAX as u128 {
        return Err(ContractError::AmountOverflow);
    }
    let amount64 = amount as u64;
    match msg {
        Cw20HookMsg::Deposit { allo_info, proof } => execute_deposit(
            state,
            now,
            cw20_sender,
            amount64,
            &allo_info,
            &proof,
            fund_decimals,
            reward_decimals,
        ),
        Cw20HookMsg::DepositPrivateSale { allo_info, proof } => execute_deposit_private_sale(
            state,
            now,
            cw20_sender,
            contract,
            amount64,
            &allo_info,
            &proof,
            fund_decimals,
            reward_decimals,
        ),
    }
}

/// One successful public deposit grows the caller's fund balance by exactly
/// the amount, within the rolled-over cap; together with
/// `lemma_allocation_monotonic` a chain of them reaches the sum of its
/// amounts and never passes the cap on the way.
pub proof fn lemma_public_deposit_adds(
    old_s: State,
    s: State,
    now: u64,
    sender: Seq<char>,
    amount: u64,
    allo: AlloInfo,
    proof: Seq<Seq<char>>,
    fd: u8,
    rd: u8,
    r: Result<Vec<Instruction>, ContractError>,
)
    requires
        public_deposit_post(old_s, s, now, sender, amount, allo, proof, fd, rd, r),
        r is Ok,
    ensures
        s.record_of(sender).fund_balance == old_s.record_of(sender).fund_balance + amount,
        s.record_of(sender).fund_balance + old_s.record_of(sender).private_sold_fund
            <= allo.public_allocation + allo.private_allocation,
{
}

/// One successful private deposit grows the caller's fund balance by exactly
/// the amount, within the private cap.
pub proof fn lemma_private_deposit_adds(
    old_s: State,
    s: State,
    now: u64,
    sender: Seq<char>,
    contract: Seq<char>,
    amount: u64,
    allo: AlloInfo,
    proof: Seq<Seq<char>>,
    fd: u8,
    rd: u8,
    r: Result<Vec<Instruction>, ContractError>,
)
    requires
        private_deposit_post(old_s, s, now, sender, contract, amount, allo, proof, fd, rd, r),
        r is Ok,
    ensures
        s.record_of(sender).fund_balance == old_s.record_of(sender).fund_balance + amount,
        s.record_of(sender).fund_balance <= allo.private_allocation,
{
}

/// The sum of a list of deposit amounts.
pub open spec fn sum_amounts(amts: Seq<u64>) -> int
    decreases amts.len(),
{
    if amts.len() == 0 {
        0
    } else {
        sum_amounts(amts.drop_last()) + amts.last()
    }
}

/// The fund balance a chain of deposits reaches under a fixed cap, `None`
/// as soon as one step would pass the cap. One step is exactly the
/// fund-balance clause of the deposit contracts for a fixed capacity: the
/// balance grows by the amount and must stay within the cap.
pub open spec fn run_deposits(balance: int, cap: int, amts: Seq<u64>) -> Option<int>
    decreases amts.len(),
{
    if amts.len() == 0 {
        Some(balance)
    } else {
        match run_deposits(balance, cap, amts.drop_last()) {
            Some(b) => if b + amts.last() <= cap {
                Some(b + amts.last())
            } else {
                None
            },
            None => None,
        }
    }
}

/// Allocation monotonicity: a chain of successful same-phase deposits ends
/// with the starting balance plus the sum of the amounts, and every
/// intermediate balance stays within the cap.
pub proof fn lemma_allocation_monotonic(balance: int, cap: int, amts: Seq<u64>)
    requires
        0 <= balance,
        run_deposits(balance, cap, amts) is Some,
    ensures
        run_deposits(balance, cap, amts).unwrap() == balance + sum_amounts(amts),
        amts.len() > 0 ==> run_deposits(balance, cap, amts).unwrap() <= cap,
        forall|i: int|
            0 <= i <= amts.len() ==> #[trigger] run_deposits(balance, cap, amts.take(i)) is Some
                && (i > 0 ==> run_deposits(balance, cap, amts.take(i)).unwrap() <= cap),
    decreases amts.len(),
{
    if amts.len() == 0 {
        assert forall|i: int| 0 <= i <= amts.len() implies #[trigger] run_deposits(
            balance,
            cap,
            amts.take(i),
        ) is Some by {
            assert(amts.take(i) =~= amts);
        }
    } else {
        lemma_allocation_monotonic(balance, cap, amts.drop_last());
        assert forall|i: int|
            0 <= i <= amts.len() implies #[trigger] run_deposits(balance, cap, amts.take(i)) is Some
            && (i > 0 ==> run_deposits(balance, cap, amts.take(i)).unwrap() <= cap) by {
            if i < amts.len() {
                assert(amts.take(i) =~= amts.drop_last().take(i));
            } else {
                assert(amts.take(i) =~= amts);
            }
        }
    }
}

pub fn execute_transfer_ownership(state: &mut State, sender: &String, new_owner: String) -> (r:
    Result<(), ContractError>)
    ensures
        r is Ok <==> sender@ == old(state).owner@,
        r is Err ==> *final(state) == *old(state) && r == Err::<(), ContractError>(
            ContractError::Unauthorized,
        ),
        r is Ok ==> *final(state) == (State { owner: new_owner, ..*old(state) }),
{
    if *sender != state.owner {
        return Err(ContractError::Unauthorized);
    }
    state.owner = new_owner;
    Ok(())
}

pub fn execute_set_whitelist_merkle_root(state: &mut State, sender: &String, merkle_root: String) -> (r:
    Result<(), ContractError>)
    ensures
        r is Ok <==> sender@ == old(state).owner@,
        r is Err ==> *final(state) == *old(state) && r == Err::<(), ContractError>(
            ContractError::Unauthorized,
        ),
        r is Ok ==> *final(state) == (State { whitelist_merkle_root: merkle_root, ..*old(state) }),
{
    if *sender != state.owner {
        return Err(ContractError::Unauthorized);
    }
    state.whitelist_merkle_root = merkle_root;
    Ok(())
}

pub fn execute_update_info(
    state: &mut State,
    sender: &String,
    new_private_start_time: u64,
    new_public_start_time: u64,
    new_presale_period: u64,
) -> (r: Result<(), ContractError>)
    ensures
        r is Ok <==> sender@ == old(state).owner@,
        r is Err ==> *final(state) == *old(state) && r == Err::<(), ContractError>(
            ContractError::Unauthorized,
        ),
        r is Ok ==> *final(state) == (State {
            private_start_time: new_private_start_time,
            public_start_time: new_public_start_time,
            presale_period: new_presale_period,
            ..*old(state)
        }),
{
    if *sender != state.owner {
        return Err(ContractError::Unauthorized);
    }
    state.private_start_time = new_private_start_time;
    state.public_start_time = new_public_start_time;
    state.presale_period = new_presale_period;
    Ok(())
}

/// The sale window is closed once `now` passes the public phase's end.
pub open spec fn sale_ended(s: State, now: u64) -> bool {
    now > s.public_start_time + s.presale_period
}

/// Pay the collected fund-token balance out to `receiver`; owner-only, and
/// only after the sale window closed. The host reads the contract's balance
/// and passes it in; the transfer is issued through the reward token
/// contract, as the sale has always done.
pub fn execute_withdraw_funds(
    state: &State,
    now: u64,
    sender: &String,
    receiver: &String,
    fund_balance: u128,
) -> (r: Result<Vec<Instruction>, ContractError>)
    ensures
        r is Ok <==> sender@ == state.owner@ && sale_ended(*state, now),
        sender@ != state.owner@ ==> r == Err::<Vec<Instruction>, ContractError>(
            ContractError::Unauthorized,
        ),
        sender@ == state.owner@ && !sale_ended(*state, now) ==> r == Err::<
            Vec<Instruction>,
            ContractError,
        >(ContractError::StillInProgress),
        r matches Ok(msgs) ==> msgs@.len() == 1 && (msgs@[0] matches Instruction::Transfer {
            token,
            recipient,
            amount,
        } && token@ == state.reward_token@ && recipient@ == receiver@ && amount == fund_balance),
{
    if *sender != state.owner {
        return Err(ContractError::Unauthorized);
    }
    if !is_after_end(state, now) {
        return Err(ContractError::StillInProgress);
    }
    let mut msgs: Vec<Instruction> = Vec::new();
    msgs.push(
        Instruction::Transfer {
            token: state.reward_token.clone(),
            recipient: receiver.clone(),
            amount: fund_balance,
        },
    );
    Ok(msgs)
}

fn is_after_end(state: &State, now: u64) -> (r: bool)
    ensures
        r == sale_ended(*state, now),
{
    (now as u128) > (state.public_start_time as u128) + (state.presale_period as u128)
}

/// Move the unsold reward tokens out of the vesting contract's balance;
/// owner-only, after the sale window closed. Fails when the passed balance
/// does not even cover what was sold.
pub fn execute_withdraw_unsold_token(
    state: &State,
    now: u64,
    sender: &String,
    receiver: &String,
    vesting_reward_balance: u128,
) -> (r: Result<Vec<Instruction>, ContractError>)
    ensures
        r is Ok <==> sender@ == state.owner@ && sale_ended(*state, now) && vesting_reward_balance
            >= state.private_sold_amount + state.public_sold_amount,
        sender@ != state.owner@ ==> r == Err::<Vec<Instruction>, ContractError>(
            ContractError::Unauthorized,
        ),
        sender@ == state.owner@ && !sale_ended(*state, now) ==> r == Err::<
            Vec<Instruction>,
            ContractError,
        >(ContractError::StillInProgress),
        sender@ == state.owner@ && sale_ended(*state, now) && vesting_reward_balance < state.private_sold_amount
            + state.public_sold_amount ==> r == Err::<Vec<Instruction>, ContractError>(
            ContractError::InsufficientBalance,
        ),
        r matches Ok(msgs) ==> msgs@.len() == 1 && (msgs@[0] matches Instruction::TransferFrom {
            token,
            owner,
            recipient,
            amount,
        } && token@ == state.reward_token@ && owner@ == state.vesting@ && recipient@ == receiver@
            && amount == vesting_reward_balance - (state.private_sold_amount
            + state.public_sold_amount)),
{
    if *sender != state.owner {
        return Err(ContractError::Unauthorized);
    }
    if !is_after_end(state, now) {
        return Err(ContractError::StillInProgress);
    }
    let sold_amount: u128 = (state.private_sold_amount as u128) + (state.public_sold_amount
        as u128);
    if vesting_reward_balance < sold_amount {
        return Err(ContractError::InsufficientBalance);
    }
    let unsold_amount = vesting_reward_balance - sold_amount;
    let mut msgs: Vec<Instruction> = Vec::new();
    msgs.push(
        Instruction::TransferFrom {
            token: state.reward_token.clone(),
            owner: state.vesting.clone(),
            recipient: receiver.clone(),
            amount: unsold_amount,
        },
    );
    Ok(msgs)
}

/// Tell the vesting schedule to start one second from now; owner-only,
/// after the sale window closed. The instruction goes to the reward token
/// address, as the sale has always issued it.
pub fn execute_start_vesting(state: &State, now: u64, sender: &String) -> (r: Result<
    Vec<Instruction>,
    ContractError,
>)
    ensures
        r is Ok <==> sender@ == state.owner@ && sale_ended(*state, now) && now < u64::MAX,
        sender@ != state.owner@ ==> r == Err::<Vec<Instruction>, ContractError>(
            ContractError::Unauthorized,
        ),
        sender@ == state.owner@ && !sale_ended(*state, now) ==> r == Err::<
            Vec<Instruction>,
            ContractError,
        >(ContractError::StillInProgress),
        sender@ == state.owner@ && sale_ended(*state, now) && now == u64::MAX ==> r == Err::<
            Vec<Instruction>,
            ContractError,
        >(ContractError::AmountOverflow),
        r matches Ok(msgs) ==> msgs@.len() == 1 && (msgs@[0] matches Instruction::SetStartTime {
            contract,
            new_start_time,
        } && contract@ == state.reward_token@ && new_start_time == now + 1),
{
    if *sender != state.owner {
        return Err(ContractError::Unauthorized);
    }
    if !is_after_end(state, now) {
        return Err(ContractError::StillInProgress);
    }
    if now == u64::MAX {
        return Err(ContractError::AmountOverflow);
    }
    let mut msgs: Vec<Instruction> = Vec::new();
    msgs.push(
        Instruction::SetStartTime {
            contract: state.reward_token.clone(),
            new_start_time: now + 1,
        },
    );
    Ok(msgs)
}

pub fn query_count(state: &State) -> (r: ParticipantsCountResponse)
    ensures
        r.count == state.participants.key_seq().len(),
{
    ParticipantsCountResponse { count: state.participants.len() as u64 }
}

/// A page of the participant list, clamped to its bounds.
pub fn query_participants(state: &State, page: u64, limit: u64) -> (r: GetParticipantsResponse)
    requires
        state.wf(),
    ensures
        ({
            let n = state.participants.key_seq().len() as int;
            let lo = (if page * limit < n {
                page * limit
            } else {
                n as int
            });
            let hi = (if lo + limit < n {
                lo + limit
            } else {
                n as int
            });
            &&& r.participants@.len() == hi - lo
            &&& forall|j: int|
                0 <= j < hi - lo ==> r.participants@[j]@ == state.participants.key_seq()[lo + j]
        }),
{
    let n = state.participants.len();
    proof {
        assert((page as int) * (limit as int) <= 0xffffffffffffffffu64 * 0xffffffffffffffffu64)
            by (nonlinear_arith)
            requires
                0 <= page as int <= 0xffffffffffffffffu64,
                0 <= limit as int <= 0xffffffffffffffffu64,
        ;
        lemma_mul_nonnegative(page as int, limit as int);
    }
    let start128: u128 = (page as u128) * (limit as u128);
    let lo: usize = if start128 < n as u128 {
        start128 as usize
    } else {
        n
    };
    let hi: usize = if (lo as u128) + (limit as u128) < n as u128 {
        (lo as u64 + limit) as usize
    } else {
        n
    };
    let mut out: Vec<String> = Vec::new();
    let mut j: usize = lo;
    while j < hi
        invariant
            state.wf(),
            lo <= j <= hi,
            hi <= state.participants.key_seq().len(),
            out@.len() == j - lo,
            forall|k: int| 0 <= k < j - lo ==> out@[k]@ == state.participants.key_seq()[lo + k],
        decreases hi - j,
    {
        out.push(state.participants.key_at(j).clone());
        j = j + 1;
    }
    GetParticipantsResponse { participants: out }
}

/// The cumulative balances of one participant, if they ever deposited.
pub fn query_participant(state: &State, user: &String) -> (r: Option<GetParticipantResponse>)
    requires
        state.wf(),
    ensures
        r is Some <==> state.participants.spec_get(user@) is Some,
        r matches Some(resp) ==> resp.data == (Participant {
            fund_balance: state.record_of(user@).fund_balance,
            reward_balance: state.record_of(user@).reward_balance,
        }),
{
    match state.participants.get(user) {
        Some(rec) => Some(
            GetParticipantResponse {
                data: Participant {
                    fund_balance: rec.fund_balance,
                    reward_balance: rec.reward_balance,
                },
            },
        ),
        None => None,
    }
}

pub fn query_sale_status(state: &State) -> (r: GetSaleStatusResponse)
    ensures
        r.private_sold_amount == state.private_sold_amount,
        r.public_sold_amount == state.public_sold_amount,
{
    GetSaleStatusResponse {
        private_sold_amount: state.private_sold_amount,
        public_sold_amount: state.public_sold_amount,
    }
}

/// Dispatch one query. `None` only for a participant lookup of an address
/// that never deposited.
pub fn query(state: &State, msg: &QueryMsg) -> (r: Option<QueryResponse>)
    requires
        state.wf(),
    ensures
        match msg {
            QueryMsg::ParticipantsCount {} => r matches Some(QueryResponse::ParticipantsCount(c))
                && c.count == state.participants.key_seq().len(),
            QueryMsg::GetParticipants { page, limit } => r matches Some(
                QueryResponse::Participants(p),
            ),
            QueryMsg::GetParticipant { user } => {
                &&& r is Some <==> state.participants.spec_get(user@) is Some
                &&& r matches Some(QueryResponse::Participant(p)) ==> p.data == (Participant {
                    fund_balance: state.record_of(user@).fund_balance,
                    reward_balance: state.record_of(user@).reward_balance,
                })
            },
            QueryMsg::GetSaleStatus {} => r matches Some(QueryResponse::SaleStatus(s))
                && s.private_sold_amount == state.private_sold_amount && s.public_sold_amount
                == state.public_sold_amount,
        },
{
    match msg {
        QueryMsg::ParticipantsCount {} => Some(QueryResponse::ParticipantsCount(query_count(state))),
        QueryMsg::GetParticipants { page, limit } => Some(
            QueryResponse::Participants(query_participants(state, *page, *limit)),
        ),
        QueryMsg::GetParticipant { user } => match query_participant(state, user) {
            Some(resp) => Some(QueryResponse::Participant(resp)),
            None => None,
        },
        QueryMsg::GetSaleStatus {} => Some(QueryResponse::SaleStatus(query_sale_status(state))),
    }
}

} // verus!
