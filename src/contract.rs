use vstd::prelude::*;

use crate::balance::{
    commission_of, decrement_project_balance_from_company_withdrawal,
    decrement_project_balance_from_payment_to_investor,
    increment_reserve_balance_from_company_contribution, lemma_transition_keeps_ledger,
    move_from_project_balance_to_reserve_balance, recalculate_contract_balances_from_investment,
    reserve_share_of, Amount, CalculateAmounts, ContractBalances, LedgerOp,
};
use crate::claim::{calculate_next_claim, next_claim_of};
use crate::constants::{SECONDS_IN_MONTH, WITHDRAWAL_VALIDITY_SECS};
use crate::data::{ContractData, Error, FromNumber, Principal, State};
use crate::investment::{
    build_investment, buildable, interest_of, investment_for, paid_once, payable, payment_due,
    principal_of, process_investment_payment, Investment, InvestmentReturnType, InvestmentStatus,
};
use crate::multisig::{MultisigRequest, MultisigStatus, RequestView};
use crate::storage::{claims_valid, ClaimEntry, ClaimsMap, InvestmentBook};
use crate::table::with_entry;

verus! {

/// The whole state of an investment contract: configuration, balance ledger,
/// investments, claim schedule and the open withdrawal request, if any.
///
/// Every operation either fails and leaves the state as it was, or succeeds; an
/// operation that moves tokens succeeds only on the condition that the transfer it
/// names is then made, so the caller keeps the new state only once the transfer went
/// through.
#[derive(Debug)]
pub struct InvestmentContract {
    pub data: ContractData,
    pub balances: ContractBalances,
    pub investments: InvestmentBook,
    pub claims: ClaimsMap,
    pub withdrawal: Option<MultisigRequest>,
}

/// The content of an investment contract's state.
pub struct ContractView {
    pub data: ContractData,
    pub balances: ContractBalances,
    pub investments: Map<(Principal, u64), Investment>,
    pub claims: Seq<ClaimEntry>,
    pub withdrawal: Option<RequestView>,
}

impl View for InvestmentContract {
    type V = ContractView;

    open spec fn view(&self) -> ContractView {
        ContractView {
            data: self.data,
            balances: self.balances,
            investments: self.investments@,
            claims: self.claims.entries@,
            withdrawal: match self.withdrawal {
                Some(r) => Some(r@),
                None => None,
            },
        }
    }
}

impl ContractView {
    /// The configuration is valid, so is the ledger, each investor has one claim at most
    /// and an open request is well formed.
    pub open spec fn is_valid(self) -> bool {
        &&& self.data.is_valid()
        &&& self.balances.is_valid()
        &&& claims_valid(self.claims)
        &&& (self.withdrawal matches Some(r) ==> r.is_valid())
    }
}

/// The failure of initialisation with these parameters, if it fails.
pub open spec fn init_error(
    i_rate: u32,
    goal: i128,
    return_type: u32,
    return_months: u32,
    min_per_investment: i128,
) -> Option<Error> {
    if i_rate == 0 {
        Some(Error::InterestRateMustBeGreaterThanZero)
    } else if goal < 0 {
        Some(Error::GoalMustNotBeNegative)
    } else if return_months == 0 {
        Some(Error::ReturnMonthsMustBeGreaterThanZero)
    } else if min_per_investment <= 0 {
        Some(Error::MinPerInvestmentMustBeGreaterThanZero)
    } else if !InvestmentReturnType::has_code(return_type) {
        Some(Error::UnsupportedReturnType)
    } else {
        None
    }
}

/// The return type that code `1` or `2` names.
pub open spec fn return_type_of(code: u32) -> InvestmentReturnType {
    if code == 1 {
        InvestmentReturnType::ReverseLoan
    } else {
        InvestmentReturnType::Coupon
    }
}

/// The ledger of a contract that has received nothing.
pub open spec fn empty_balances() -> ContractBalances {
    ContractBalances {
        reserve: 0,
        project: 0,
        comission: 0,
        received_so_far: 0,
        payments: 0,
        reserve_contributions: 0,
        project_withdrawals: 0,
        moved_from_project_to_reserve: 0,
    }
}

/// The ledger transition that records a deposit of `amount`.
pub open spec fn split_op(amount: int, rate: int, decimals: nat) -> LedgerOp {
    let c = commission_of(amount, rate, decimals);
    let r = reserve_share_of(amount);
    LedgerOp::Investment {
        to_invest: (amount - c - r) as i128,
        to_reserve: r as i128,
        to_commission: c as i128,
    }
}

/// The failure of a deposit of `amount` by an investor whose token balance is
/// `investor_balance`, at `now`, if it fails.
pub open spec fn invest_error(
    v: ContractView,
    amount: i128,
    investor_balance: i128,
    decimals: u32,
    now: u64,
) -> Option<Error> {
    let cd = v.data;
    let rate = cd.interest_rate as int;
    if amount < cd.min_per_investment {
        Some(Error::AmountLessThanMinimum)
    } else if cd.state != State::Actve {
        Some(Error::ContractMustBeActiveToInvest)
    } else if investor_balance < amount {
        Some(Error::AddressInsufficientBalance)
    } else if amount * rate > i128::MAX {
        Some(Error::ArithmeticOverflow)
    } else if commission_of(amount as int, rate, decimals as nat) + reserve_share_of(amount as int)
        > amount {
        Some(Error::AmountLessThanMinimum)
    } else if cd.goal > 0 && v.balances.received_so_far + principal_of(
        amount as int,
        rate,
        decimals as nat,
    ) > cd.goal {
        Some(Error::WouldExceedGoal)
    } else if !buildable(cd, amount as int, decimals as nat, now) || !v.balances.admits(
        split_op(amount as int, rate, decimals as nat),
    ) || now + SECONDS_IN_MONTH > u64::MAX {
        Some(Error::ArithmeticOverflow)
    } else {
        None
    }
}

/// The state after a successful deposit: the ledger records it, the investor's new
/// investment and next claim are stored, and reaching a configured goal closes the
/// funding.
pub open spec fn invest_result(
    v: ContractView,
    investor: Principal,
    amount: i128,
    decimals: u32,
    now: u64,
) -> ContractView {
    let cd = v.data;
    let inv = investment_for(cd, amount as int, decimals as nat, now);
    let b = v.balances.apply(split_op(amount as int, cd.interest_rate as int, decimals as nat));
    ContractView {
        data: if cd.goal > 0 && b.received_so_far >= cd.goal {
            ContractData { state: State::FundsReached, ..cd }
        } else {
            cd
        },
        balances: b,
        investments: v.investments.insert((investor, inv.claimable_ts), inv),
        claims: with_entry(v.claims, ClaimEntry { investor, claim: next_claim_of(inv, now) }),
        withdrawal: v.withdrawal,
    }
}

/// The failure of a payment of the investment of `investor` claimable at `ts`, at
/// `now`, if it fails.
pub open spec fn payment_error(v: ContractView, investor: Principal, ts: u64, now: u64) -> Option<
    Error,
> {
    if !v.investments.contains_key((investor, ts)) {
        Some(Error::AddressHasNotInvested)
    } else {
        let inv = v.investments[(investor, ts)];
        if now < inv.claimable_ts {
            Some(Error::AddressInvestmentIsNotClaimableYet)
        } else if inv.status == InvestmentStatus::Finished {
            Some(Error::AddressInvestmentIsFinished)
        } else if inv.last_transfer_ts != 0 && now - inv.last_transfer_ts < SECONDS_IN_MONTH {
            Some(Error::AddressInvestmentNextTransferNotClaimableYet)
        } else if !payable(inv, v.data) || now + SECONDS_IN_MONTH > u64::MAX {
            Some(Error::ArithmeticOverflow)
        } else if payment_due(inv, v.data) > v.balances.reserve {
            Some(Error::ContractInsufficientBalance)
        } else if v.balances.payments + payment_due(inv, v.data) > i128::MAX {
            Some(Error::ArithmeticOverflow)
        } else {
            None
        }
    }
}

/// The state after a successful payment: the investment records it, the investor's next
/// claim moves a month on, and the reserve pays.
pub open spec fn payment_result(v: ContractView, investor: Principal, ts: u64, now: u64) -> ContractView {
    let inv = v.investments[(investor, ts)];
    let paid = paid_once(inv, v.data, now);
    ContractView {
        balances: v.balances.apply(LedgerOp::InvestorPayment(payment_due(inv, v.data) as i128)),
        investments: v.investments.insert((investor, ts), paid),
        claims: with_entry(v.claims, ClaimEntry { investor, claim: next_claim_of(paid, now) }),
        ..v
    }
}

/// The failure of a payout of `amount` from a pool that holds `pool`, recorded in a
/// counter that holds `counter`, if it fails.
pub open spec fn pool_draw_error(amount: i128, pool: i128, counter: i128, short: Error) -> Option<Error> {
    if amount < 0 {
        Some(Error::AmountLessOrEqualThan0)
    } else if pool < amount {
        Some(short)
    } else if counter + amount > i128::MAX {
        Some(Error::ArithmeticOverflow)
    } else {
        None
    }
}

/// The failure of a contribution of `amount` by an admin whose token balance is
/// `admin_balance`, if it fails.
pub open spec fn contribution_error(v: ContractView, amount: i128, admin_balance: i128) -> Option<Error> {
    if admin_balance < amount {
        Some(Error::AddressInsufficientBalance)
    } else if amount < 0 {
        Some(Error::AmountLessOrEqualThan0)
    } else if v.balances.reserve + amount > i128::MAX || v.balances.reserve_contributions + amount
        > i128::MAX {
        Some(Error::ArithmeticOverflow)
    } else {
        None
    }
}

/// What the claims due within the week after `now` ask for beyond what `pool` holds;
/// the forecast stops at `i128::MAX`.
pub open spec fn forecast_shortfall(v: ContractView, now: u64, pool: int) -> int {
    let due = crate::storage::due_sum(v.claims, now);
    let forecast = if due > i128::MAX {
        i128::MAX as int
    } else {
        due
    };
    if forecast > pool {
        forecast - pool
    } else {
        0
    }
}

/// The request that a signature at `now` finds: the open one, or a new one for `amount`
/// that accepts signatures for a day.
pub open spec fn open_request(v: ContractView, amount: i128, now: u64) -> RequestView {
    match v.withdrawal {
        Some(r) => r,
        None => RequestView {
            function: "multisig_withdrawn"@,
            successful_signatures: 0,
            expected: seq![v.data.admin, v.data.project_address],
            signed: Seq::empty(),
            valid_ts: (now + WITHDRAWAL_VALIDITY_SECS) as u64,
            amount,
        },
    }
}

/// The failure of a signature by `signer` on a withdrawal of `amount` at `now`, if it
/// fails.
pub open spec fn multisig_error(v: ContractView, signer: Principal, amount: i128, now: u64) -> Option<
    Error,
> {
    let req = open_request(v, amount, now);
    if amount < 0 {
        Some(Error::AmountLessOrEqualThan0)
    } else if amount > v.balances.project {
        Some(Error::ContractInsufficientBalance)
    } else if v.withdrawal is None && now + WITHDRAWAL_VALIDITY_SECS > u64::MAX {
        Some(Error::ArithmeticOverflow)
    } else if !req.expected.contains(signer) {
        Some(Error::WithdrawalUnexpectedSignature)
    } else if req.expired_at(now) {
        Some(Error::WithdrawalExpiredSignature)
    } else if req.amount != amount {
        Some(Error::WithdrawalInvalidAmount)
    } else if v.balances.project_withdrawals + amount > i128::MAX {
        Some(Error::ArithmeticOverflow)
    } else {
        None
    }
}

/// The state and status after a successful signature: once every expected principal has
/// signed, the amount leaves the project pool and the request is closed; until then the
/// request waits with the new signature.
pub open spec fn multisig_result(v: ContractView, signer: Principal, amount: i128, now: u64) -> (
    ContractView,
    MultisigStatus,
) {
    let req = open_request(v, amount, now).signed_by(signer);
    if req.completed() {
        (
            ContractView {
                balances: v.balances.apply(LedgerOp::ProjectWithdrawal(amount)),
                withdrawal: None,
                ..v
            },
            MultisigStatus::Completed,
        )
    } else {
        (ContractView { withdrawal: Some(req), ..v }, MultisigStatus::WaitingForSignatures)
    }
}

/// Signing a withdrawal twice with the same signer and amount counts the signature
/// once: the second signature leaves the state as the first one left it.
pub proof fn lemma_signing_twice_counts_once(
    v: ContractView,
    signer: Principal,
    amount: i128,
    t1: u64,
    t2: u64,
)
    requires
        v.is_valid(),
        multisig_error(v, signer, amount, t1) is None,
        multisig_result(v, signer, amount, t1).1 == MultisigStatus::WaitingForSignatures,
        multisig_error(multisig_result(v, signer, amount, t1).0, signer, amount, t2) is None,
    ensures
        ({
            let v1 = multisig_result(v, signer, amount, t1).0;
            &&& v1.withdrawal matches Some(req) && req.signed.contains(signer)
                && req.signed.no_duplicates()
            &&& multisig_result(v1, signer, amount, t2) == (
                v1,
                MultisigStatus::WaitingForSignatures,
            )
        }),
{
    let req0 = open_request(v, amount, t1);
    let req1 = req0.signed_by(signer);
    let v1 = multisig_result(v, signer, amount, t1).0;
    assert(req1.signed.contains(signer)) by {
        if !req0.signed.contains(signer) {
            assert(req1.signed[req1.signed.len() - 1] == signer);
        }
    }
    assert(req1.signed.no_duplicates()) by {
        if !req0.signed.contains(signer) {
            assert forall|i: int, j: int|
                0 <= i < req1.signed.len() && 0 <= j < req1.signed.len() && i != j implies req1.signed[i]
                != req1.signed[j] by {
                if i == req0.signed.len() as int {
                    assert(req0.signed[j] == req1.signed[j]);
                } else if j == req0.signed.len() as int {
                    assert(req0.signed[i] == req1.signed[i]);
                }
            }
        }
    }
    assert(open_request(v1, amount, t2) == req1);
    assert(req1.signed_by(signer) == req1);
}

/// A request opened at `t0` accepts signatures until `t0 + 86400`: any signature on it
/// after that is rejected, and an expected signer on an admissible amount is told that
/// the request expired.
pub proof fn lemma_request_expires_after_a_day(
    v: ContractView,
    first: Principal,
    amount: i128,
    t0: u64,
    signer: Principal,
    other_amount: i128,
    t: u64,
)
    requires
        v.withdrawal is None,
        multisig_error(v, first, amount, t0) is None,
        multisig_result(v, first, amount, t0).1 == MultisigStatus::WaitingForSignatures,
        t > t0 + 86400,
    ensures
        ({
            let v1 = multisig_result(v, first, amount, t0).0;
            &&& v1.withdrawal matches Some(req) && req.valid_ts == t0 + 86400
            &&& multisig_error(v1, signer, other_amount, t) is Some
            &&& (0 < other_amount <= v1.balances.project && (signer == v.data.admin || signer
                == v.data.project_address)) ==> multisig_error(v1, signer, other_amount, t)
                == Some(Error::WithdrawalExpiredSignature)
        }),
{
    let v1 = multisig_result(v, first, amount, t0).0;
    let req = open_request(v1, other_amount, t);
    assert(req.expected == seq![v.data.admin, v.data.project_address]);
    if signer == v.data.admin {
        assert(req.expected[0] == signer);
    }
    if signer == v.data.project_address {
        assert(req.expected[1] == signer);
    }
}

/// A signature on an open request that names another amount than the request's is
/// refused as a mismatch once the amount, signer and time are acceptable; the operation
/// then leaves the state, and so the request with its signatures, unchanged.
pub proof fn lemma_mismatched_amount_rejected(
    v: ContractView,
    signer: Principal,
    amount: i128,
    now: u64,
)
    requires
        v.withdrawal matches Some(req) && req.expected.contains(signer) && !req.expired_at(now)
            && req.amount != amount,
        0 <= amount <= v.balances.project,
    ensures
        multisig_error(v, signer, amount, now) == Some(Error::WithdrawalInvalidAmount),
{
}

/// A payment asked for before the investment is claimable fails as not claimable yet;
/// one asked for less than a month after the last transfer of a claimable, unfinished
/// investment fails as not ready.
pub proof fn lemma_payment_timing(v: ContractView, investor: Principal, ts: u64, now: u64)
    requires
        v.investments.contains_key((investor, ts)),
    ensures
        ({
            let inv = v.investments[(investor, ts)];
            &&& now < inv.claimable_ts ==> payment_error(v, investor, ts, now) == Some(
                Error::AddressInvestmentIsNotClaimableYet,
            )
            &&& (now >= inv.claimable_ts && inv.status != InvestmentStatus::Finished
                && inv.last_transfer_ts > 0 && now - inv.last_transfer_ts < SECONDS_IN_MONTH)
                ==> payment_error(v, investor, ts, now) == Some(
                Error::AddressInvestmentNextTransferNotClaimableYet,
            )
        }),
{
}

proof fn lemma_investment_for_nonneg(cd: ContractData, amount: int, decimals: nat, now: u64)
    requires
        cd.is_valid(),
        buildable(cd, amount, decimals, now),
    ensures
        investment_for(cd, amount, decimals, now).regular_payment >= 0,
        investment_for(cd, amount, decimals, now).deposited >= 0,
{
    let rate = cd.interest_rate as int;
    crate::balance::lemma_split_conserves_amount(amount, rate, decimals);
    let p = principal_of(amount, rate, decimals);
    assert(p * rate >= 0) by (nonlinear_arith)
        requires
            p >= 0,
            rate >= 0,
    ;
    let i = interest_of(p, rate);
    let m = cd.return_months as int;
    assert(i / m >= 0 && (p + i) / m >= 0) by (nonlinear_arith)
        requires
            i >= 0,
            p >= 0,
            m > 0,
    ;
}

proof fn lemma_product_fits(amount: int, rate: int)
    requires
        rate > 0,
        amount >= 0,
    ensures
        amount * rate <= i128::MAX <==> amount <= i128::MAX as int / rate,
{
    assert(amount * rate <= i128::MAX <==> amount <= i128::MAX as int / rate) by (nonlinear_arith)
        requires
            rate > 0,
            amount >= 0,
    ;
}

proof fn lemma_delay_fits(room: int, days: int)
    requires
        room >= 0,
        days >= 0,
    ensures
        days * 86400 <= room <==> days <= room / 86400,
{
    assert(days * 86400 <= room <==> days <= room / 86400) by (nonlinear_arith)
        requires
            room >= 0,
            days >= 0,
    ;
}

impl InvestmentContract {
    /// A contract in the `Actve` state with the given configuration and nothing
    /// received; fails on a zero rate, a negative goal (zero means no goal), zero
    /// installments, a minimum deposit that is not positive or an unknown return type.
    pub fn init(
        admin: Principal,
        project_address: Principal,
        token: Principal,
        i_rate: u32,
        claim_block_days: u64,
        goal: i128,
        return_type: u32,
        return_months: u32,
        min_per_investment: i128,
    ) -> (r: Result<InvestmentContract, Error>)
        ensures
            match r {
                Ok(c) => {
                    &&& init_error(i_rate, goal, return_type, return_months, min_per_investment)
                        is None
                    &&& c@ == (ContractView {
                        data: ContractData {
                            interest_rate: i_rate,
                            claim_block_days,
                            token,
                            project_address,
                            admin,
                            state: State::Actve,
                            return_type: return_type_of(return_type),
                            return_months,
                            min_per_investment,
                            goal,
                        },
                        balances: empty_balances(),
                        investments: Map::empty(),
                        claims: Seq::empty(),
                        withdrawal: None,
                    })
                    &&& c@.is_valid()
                },
                Err(e) => init_error(i_rate, goal, return_type, return_months, min_per_investment)
                    == Some(e),
            },
    {
        if i_rate == 0 {
            return Err(Error::InterestRateMustBeGreaterThanZero);
        }
        if goal < 0 {
            return Err(Error::GoalMustNotBeNegative);
        }
        if return_months == 0 {
            return Err(Error::ReturnMonthsMustBeGreaterThanZero);
        }
        if min_per_investment <= 0 {
            return Err(Error::MinPerInvestmentMustBeGreaterThanZero);
        }
        let ret_type = match InvestmentReturnType::from_number(return_type) {
            Some(t) => t,
            None => {
                return Err(Error::UnsupportedReturnType);
            },
        };
        let data = ContractData {
            interest_rate: i_rate,
            claim_block_days,
            token,
            project_address,
            admin,
            state: State::Actve,
            return_type: ret_type,
            return_months,
            min_per_investment,
            goal,
        };
        let c = InvestmentContract {
            data,
            balances: ContractBalances::new(),
            investments: InvestmentBook::new(),
            claims: ClaimsMap::new(),
            withdrawal: None,
        };
        assert(c@.claims =~= Seq::<ClaimEntry>::empty());
        Ok(c)
    }

    /// The current balance ledger.
    pub fn get_contract_balance(&self) -> (r: ContractBalances)
        ensures
            r == self.balances,
    {
        self.balances
    }

    /// The investment of `investor` claimable at `ts`, if there is one.
    pub fn get_investment(&self, investor: &Principal, ts: u64) -> (r: Option<Investment>)
        ensures
            self@.investments.contains_key((*investor, ts)) ==> r == Some(
                self@.investments[(*investor, ts)],
            ),
            !self@.investments.contains_key((*investor, ts)) ==> r is None,
    {
        self.investments.get_investment(investor, ts)
    }

    /// Pauses new deposits; only an active contract can be paused.
    pub fn stop_investments(&mut self) -> (r: Result<bool, Error>)
        ensures
            old(self).data.state == State::Actve ==> r == Ok::<bool, Error>(true) && final(self)@
                == (ContractView {
                data: ContractData { state: State::Paused, ..old(self).data },
                ..old(self)@
            }),
            old(self).data.state != State::Actve ==> r == Err::<bool, Error>(
                Error::ContractMustBeActiveToBePaused,
            ) && final(self)@ == old(self)@,
    {
        if self.data.state != State::Actve {
            return Err(Error::ContractMustBeActiveToBePaused);
        }
        self.data.state = State::Paused;
        Ok(true)
    }

    /// Accepts deposits again; only a paused contract can be restarted.
    pub fn restart_investments(&mut self) -> (r: Result<bool, Error>)
        ensures
            old(self).data.state == State::Paused ==> r == Ok::<bool, Error>(true) && final(self)@
                == (ContractView {
                data: ContractData { state: State::Actve, ..old(self).data },
                ..old(self)@
            }),
            old(self).data.state != State::Paused ==> r == Err::<bool, Error>(
                Error::ContractMustBePausedToRestartAgain,
            ) && final(self)@ == old(self)@,
    {
        if self.data.state != State::Paused {
            return Err(Error::ContractMustBePausedToRestartAgain);
        }
        self.data.state = State::Actve;
        Ok(true)
    }

    /// Pays `amount` out of the project pool to the project address; on success the
    /// caller transfers `amount` from the contract to the project address.
    pub fn single_withdrawn(&mut self, amount: i128) -> (r: Result<bool, Error>)
        requires
            old(self)@.is_valid(),
        ensures
            final(self)@.is_valid(),
            amount == 0 ==> r == Ok::<bool, Error>(true) && final(self)@ == old(self)@,
            match r {
                Ok(_) => {
                    &&& pool_draw_error(
                        amount,
                        old(self).balances.project,
                        old(self).balances.project_withdrawals,
                        Error::ContractInsufficientBalance,
                    ) is None
                    &&& r == Ok::<bool, Error>(true)
                    &&& final(self)@ == (ContractView {
                        balances: old(self).balances.apply(LedgerOp::ProjectWithdrawal(amount)),
                        ..old(self)@
                    })
                },
                Err(e) => {
                    &&& pool_draw_error(
                        amount,
                        old(self).balances.project,
                        old(self).balances.project_withdrawals,
                        Error::ContractInsufficientBalance,
                    ) == Some(e)
                    &&& final(self)@ == old(self)@
                },
            },
    {
        if amount < 0 {
            return Err(Error::AmountLessOrEqualThan0);
        }
        if self.balances.project < amount {
            return Err(Error::ContractInsufficientBalance);
        }
        if self.balances.project_withdrawals > i128::MAX - amount {
            return Err(Error::ArithmeticOverflow);
        }
        proof {
            lemma_transition_keeps_ledger(self.balances, LedgerOp::ProjectWithdrawal(amount));
        }
        decrement_project_balance_from_company_withdrawal(&mut self.balances, &amount);
        Ok(true)
    }

    /// Adds `amount` of the admin's own funds to the reserve; on success the caller
    /// transfers `amount` from the admin to the contract. `admin_balance` is the admin's
    /// token balance.
    pub fn add_company_transfer(&mut self, amount: i128, admin_balance: i128) -> (r: Result<
        bool,
        Error,
    >)
        requires
            old(self)@.is_valid(),
        ensures
            final(self)@.is_valid(),
            amount == 0 && admin_balance >= 0 ==> r == Ok::<bool, Error>(true) && final(self)@
                == old(self)@,
            match r {
                Ok(_) => {
                    &&& contribution_error(old(self)@, amount, admin_balance) is None
                    &&& r == Ok::<bool, Error>(true)
                    &&& final(self)@ == (ContractView {
                        balances: old(self).balances.apply(LedgerOp::CompanyContribution(amount)),
                        ..old(self)@
                    })
                },
                Err(e) => {
                    &&& contribution_error(old(self)@, amount, admin_balance) == Some(e)
                    &&& final(self)@ == old(self)@
                },
            },
    {
        if admin_balance < amount {
            return Err(Error::AddressInsufficientBalance);
        }
        if amount < 0 {
            return Err(Error::AmountLessOrEqualThan0);
        }
        if self.balances.reserve > i128::MAX - amount || self.balances.reserve_contributions
            > i128::MAX - amount {
            return Err(Error::ArithmeticOverflow);
        }
        proof {
            lemma_transition_keeps_ledger(self.balances, LedgerOp::CompanyContribution(amount));
        }
        increment_reserve_balance_from_company_contribution(&mut self.balances, &amount);
        Ok(true)
    }

    /// Moves `amount` from the project pool to the reserve. A pool that holds exactly
    /// `amount` can give all of it.
    pub fn move_funds_to_the_reserve(&mut self, amount: i128) -> (r: Result<bool, Error>)
        requires
            old(self)@.is_valid(),
        ensures
            final(self)@.is_valid(),
            amount == 0 ==> r == Ok::<bool, Error>(true) && final(self)@ == old(self)@,
            match r {
                Ok(_) => {
                    &&& pool_draw_error(
                        amount,
                        old(self).balances.project,
                        old(self).balances.moved_from_project_to_reserve,
                        Error::ProjectBalanceInsufficientAmount,
                    ) is None
                    &&& old(self).balances.reserve + amount <= i128::MAX
                    &&& r == Ok::<bool, Error>(true)
                    &&& final(self)@ == (ContractView {
                        balances: old(self).balances.apply(LedgerOp::MoveToReserve(amount)),
                        ..old(self)@
                    })
                },
                Err(e) => {
                    &&& final(self)@ == old(self)@
                    &&& match pool_draw_error(
                        amount,
                        old(self).balances.project,
                        old(self).balances.moved_from_project_to_reserve,
                        Error::ProjectBalanceInsufficientAmount,
                    ) {
                        Some(first) => e == first,
                        None => e == Error::ArithmeticOverflow && old(self).balances.reserve
                            + amount > i128::MAX,
                    }
                },
            },
    {
        if amount < 0 {
            return Err(Error::AmountLessOrEqualThan0);
        }
        if self.balances.project < amount {
            return Err(Error::ProjectBalanceInsufficientAmount);
        }
        if self.balances.moved_from_project_to_reserve > i128::MAX - amount {
            return Err(Error::ArithmeticOverflow);
        }
        if self.balances.reserve > i128::MAX - amount {
            return Err(Error::ArithmeticOverflow);
        }
        proof {
            lemma_transition_keeps_ledger(self.balances, LedgerOp::MoveToReserve(amount));
        }
        move_from_project_balance_to_reserve_balance(&mut self.balances, &amount);
        Ok(true)
    }

    /// Takes a deposit of `amount` from `investor`, whose token balance is
    /// `investor_balance`, at `now`, in a token with `decimals` decimals. On success the
    /// caller transfers `amount` from the investor to the contract; the new investment
    /// is returned.
    pub fn invest(
        &mut self,
        investor: &Principal,
        amount: i128,
        investor_balance: i128,
        decimals: u32,
        now: u64,
    ) -> (r: Result<Investment, Error>)
        requires
            old(self)@.is_valid(),
        ensures
            final(self)@.is_valid(),
            match r {
                Ok(inv) => {
                    &&& invest_error(old(self)@, amount, investor_balance, decimals, now) is None
                    &&& inv == investment_for(old(self).data, amount as int, decimals as nat, now)
                    &&& final(self)@ == invest_result(old(self)@, *investor, amount, decimals, now)
                    &&& final(self).balances.pools_total() == old(self).balances.pools_total()
                        + amount
                },
                Err(e) => {
                    &&& invest_error(old(self)@, amount, investor_balance, decimals, now) == Some(e)
                    &&& final(self)@ == old(self)@
                },
            },
    {
        if amount < self.data.min_per_investment {
            return Err(Error::AmountLessThanMinimum);
        }
        if self.data.state != State::Actve {
            return Err(Error::ContractMustBeActiveToInvest);
        }
        if investor_balance < amount {
            return Err(Error::AddressInsufficientBalance);
        }
        let rate: i128 = self.data.interest_rate as i128;
        proof {
            lemma_product_fits(amount as int, rate as int);
        }
        if amount > i128::MAX / rate {
            return Err(Error::ArithmeticOverflow);
        }
        let amounts: Amount = Amount::from_investment(&amount, &self.data.interest_rate, decimals);
        if amounts.amount_to_invest < 0 {
            return Err(Error::AmountLessThanMinimum);
        }
        proof {
            crate::balance::lemma_split_conserves_amount(
                amount as int,
                rate as int,
                decimals as nat,
            );
        }
        let invested: i128 = amounts.amount_to_invest + amounts.amount_to_reserve_fund;
        if self.data.goal > 0 && self.balances.received_so_far > self.data.goal - invested {
            return Err(Error::WouldExceedGoal);
        }
        proof {
            assert(0 <= invested * rate <= amount * rate) by (nonlinear_arith)
                requires
                    0 <= invested <= amount,
                    rate > 0,
            ;
        }
        let interest: i128 = invested * rate / 100 / 100;
        if invested > i128::MAX - interest {
            return Err(Error::ArithmeticOverflow);
        }
        proof {
            lemma_delay_fits((u64::MAX - now) as int, self.data.claim_block_days as int);
        }
        if self.data.claim_block_days > (u64::MAX - now) / 86400 {
            return Err(Error::ArithmeticOverflow);
        }
        if self.balances.comission > i128::MAX - amounts.amount_to_commission
            || self.balances.reserve > i128::MAX - amounts.amount_to_reserve_fund
            || self.balances.project > i128::MAX - amounts.amount_to_invest
            || self.balances.received_so_far > i128::MAX - invested {
            return Err(Error::ArithmeticOverflow);
        }
        if now > u64::MAX - SECONDS_IN_MONTH {
            return Err(Error::ArithmeticOverflow);
        }
        proof {
            assert(amounts.ledger_op() == split_op(amount as int, rate as int, decimals as nat));
            lemma_transition_keeps_ledger(self.balances, amounts.ledger_op());
            lemma_investment_for_nonneg(self.data, amount as int, decimals as nat, now);
        }
        recalculate_contract_balances_from_investment(&mut self.balances, &amounts);
        let inv = build_investment(&self.data, &amount, decimals, now);
        self.investments.set_investment(investor, &inv);
        let claim = calculate_next_claim(&inv, now);
        self.claims.set(investor, &claim);
        if self.data.goal > 0 && self.balances.received_so_far >= self.data.goal {
            self.data.state = State::FundsReached;
        }
        Ok(inv)
    }

    /// Pays the next installment of the investment of `investor` claimable at `ts`, at
    /// `now`. On success the caller transfers to the investor what the investment's
    /// `paid` grew by; the updated investment is returned.
    pub fn process_investor_payment(&mut self, investor: &Principal, ts: u64, now: u64) -> (r:
        Result<Investment, Error>)
        requires
            old(self)@.is_valid(),
        ensures
            final(self)@.is_valid(),
            match r {
                Ok(inv) => {
                    &&& payment_error(old(self)@, *investor, ts, now) is None
                    &&& inv == paid_once(old(self)@.investments[(*investor, ts)], old(self).data, now)
                    &&& inv.paid == old(self)@.investments[(*investor, ts)].paid + payment_due(
                        old(self)@.investments[(*investor, ts)],
                        old(self).data,
                    )
                    &&& final(self)@ == payment_result(old(self)@, *investor, ts, now)
                },
                Err(e) => {
                    &&& payment_error(old(self)@, *investor, ts, now) == Some(e)
                    &&& final(self)@ == old(self)@
                },
            },
    {
        let mut investment = match self.investments.get_investment(investor, ts) {
            Some(i) => i,
            None => {
                return Err(Error::AddressHasNotInvested);
            },
        };
        if now < investment.claimable_ts {
            return Err(Error::AddressInvestmentIsNotClaimableYet);
        }
        if investment.status == InvestmentStatus::Finished {
            return Err(Error::AddressInvestmentIsFinished);
        }
        if !(investment.last_transfer_ts == 0 || (now >= investment.last_transfer_ts && now
            - investment.last_transfer_ts >= SECONDS_IN_MONTH)) {
            return Err(Error::AddressInvestmentNextTransferNotClaimableYet);
        }
        if investment.payments_transferred == u32::MAX || investment.regular_payment < 0
            || investment.deposited < 0 || investment.paid < 0 || investment.regular_payment
            > i128::MAX - investment.paid {
            return Err(Error::ArithmeticOverflow);
        }
        let returns_principal = self.data.return_type == InvestmentReturnType::Coupon
            && investment.payments_transferred + 1 >= self.data.return_months;
        if returns_principal && investment.deposited > i128::MAX - investment.paid
            - investment.regular_payment {
            return Err(Error::ArithmeticOverflow);
        }
        if now > u64::MAX - SECONDS_IN_MONTH {
            return Err(Error::ArithmeticOverflow);
        }
        let amount_to_transfer: i128 = process_investment_payment(&mut investment, &self.data, now);
        if amount_to_transfer > self.balances.reserve {
            return Err(Error::ContractInsufficientBalance);
        }
        if self.balances.payments > i128::MAX - amount_to_transfer {
            return Err(Error::ArithmeticOverflow);
        }
        proof {
            lemma_transition_keeps_ledger(
                self.balances,
                LedgerOp::InvestorPayment(amount_to_transfer),
            );
        }
        decrement_project_balance_from_payment_to_investor(&mut self.balances, &amount_to_transfer);
        self.investments.set_investment(investor, &investment);
        let claim = calculate_next_claim(&investment, now);
        self.claims.set(investor, &claim);
        Ok(investment)
    }

    /// Signs, as `signer`, the withdrawal of `amount` from the project pool at `now`.
    /// The first signature opens a request that accepts signatures for a day; once every
    /// expected principal has signed, the request closes and the caller transfers
    /// `amount` from the contract to the project address.
    pub fn multisig_withdrawn(&mut self, signer: &Principal, amount: i128, now: u64) -> (r: Result<
        MultisigStatus,
        Error,
    >)
        requires
            old(self)@.is_valid(),
        ensures
            final(self)@.is_valid(),
            match r {
                Ok(s) => {
                    &&& multisig_error(old(self)@, *signer, amount, now) is None
                    &&& (final(self)@, s) == multisig_result(old(self)@, *signer, amount, now)
                },
                Err(e) => {
                    &&& multisig_error(old(self)@, *signer, amount, now) == Some(e)
                    &&& final(self)@ == old(self)@
                },
            },
    {
        if amount < 0 {
            return Err(Error::AmountLessOrEqualThan0);
        }
        if amount > self.balances.project {
            return Err(Error::ContractInsufficientBalance);
        }
        let (expected, expired, same_amount) = match &self.withdrawal {
            Some(req) => (req.is_valid_signature(*signer), req.is_expired(now), req.amount == amount),
            None => {
                if now > u64::MAX - WITHDRAWAL_VALIDITY_SECS {
                    return Err(Error::ArithmeticOverflow);
                }
                let is_signer = signer.same_as(&self.data.admin) || signer.same_as(
                    &self.data.project_address,
                );
                proof {
                    let s = seq![self.data.admin, self.data.project_address];
                    assert(s[0] == self.data.admin && s[1] == self.data.project_address);
                    assert(s.contains(*signer) <==> is_signer);
                }
                (is_signer, false, true)
            },
        };
        if !expected {
            return Err(Error::WithdrawalUnexpectedSignature);
        }
        if expired {
            return Err(Error::WithdrawalExpiredSignature);
        }
        if !same_amount {
            return Err(Error::WithdrawalInvalidAmount);
        }
        if self.balances.project_withdrawals > i128::MAX - amount {
            return Err(Error::ArithmeticOverflow);
        }
        let mut request = match self.withdrawal.take() {
            Some(req) => req,
            None => MultisigRequest::new(
                &self.data,
                "multisig_withdrawn".to_owned(),
                0,
                amount,
                now + WITHDRAWAL_VALIDITY_SECS,
            ),
        };
        request.add_sig(*signer);
        if request.is_completed() {
            proof {
                lemma_transition_keeps_ledger(self.balances, LedgerOp::ProjectWithdrawal(amount));
            }
            decrement_project_balance_from_company_withdrawal(&mut self.balances, &amount);
            Ok(MultisigStatus::Completed)
        } else {
            self.withdrawal = Some(request);
            Ok(MultisigStatus::WaitingForSignatures)
        }
    }

    /// How much the reserve lacks for the claims due within the week after `now`: the
    /// sum of those claims less the reserve, or zero when the reserve covers them.
    pub fn check_reserve_balance(&self, now: u64) -> (r: i128)
        requires
            self@.is_valid(),
        ensures
            r as int == forecast_shortfall(self@, now, self.balances.reserve as int),
            r >= 0,
    {
        let min_funds: i128 = self.claims.due_within_week(now);
        if min_funds > self.balances.reserve {
            min_funds - self.balances.reserve
        } else {
            0
        }
    }

    /// How much the project pool lacks for the claims due within the week after `now`:
    /// the sum of those claims less the project pool, or zero when the pool covers them.
    pub fn check_project_address_balance(&self, now: u64) -> (r: i128)
        requires
            self@.is_valid(),
        ensures
            r as int == forecast_shortfall(self@, now, self.balances.project as int),
            r >= 0,
    {
        let min_funds: i128 = self.claims.due_within_week(now);
        if min_funds > self.balances.project {
            min_funds - self.balances.project
        } else {
            0
        }
    }
}

} // verus!
