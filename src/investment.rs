use vstd::prelude::*;

use crate::balance::{commission_of, fits_i128};
use crate::data::{ContractData, FromNumber};

verus! {

/// One deposit of one investor and its payment schedule.
#[derive(Clone, Copy, Debug, PartialEq, Eq, Structural)]
pub struct Investment {
    pub deposited: i128,
    pub commission: i128,
    pub accumulated_interests: i128,
    pub total: i128,
    pub claimable_ts: u64,
    pub last_transfer_ts: u64,
    pub status: InvestmentStatus,
    pub regular_payment: i128,
    pub paid: i128,
    pub payments_transferred: u32,
}

#[derive(Clone, Copy, Debug, PartialEq, Eq, Structural)]
pub enum InvestmentStatus {
    Blocked,
    Claimable,
    WaitingForPayment,
    CashFlowing,
    Finished,
}

/// How an investment is paid back: the total in equal installments (`ReverseLoan`), or
/// the interest in installments and the principal with the last one (`Coupon`).
#[derive(Clone, Copy, Debug, PartialEq, Eq, Structural)]
pub enum InvestmentReturnType {
    ReverseLoan,
    Coupon,
}

impl FromNumber for InvestmentReturnType {
    open spec fn has_code(number: u32) -> bool {
        number == 1 || number == 2
    }

    /// `1` is `ReverseLoan`, `2` is `Coupon`; no other code names a return type.
    fn from_number(number: u32) -> (r: Option<InvestmentReturnType>)
        ensures
            number == 1 ==> r == Some(InvestmentReturnType::ReverseLoan),
            number == 2 ==> r == Some(InvestmentReturnType::Coupon),
    {
        match number {
            1 => Some(InvestmentReturnType::ReverseLoan),
            2 => Some(InvestmentReturnType::Coupon),
            _ => None,
        }
    }
}

/// The principal of a deposit: what is left once the commission is withheld.
pub open spec fn principal_of(amount: int, rate: int, decimals: nat) -> int {
    amount - commission_of(amount, rate, decimals)
}

/// Interest on a principal at `rate` hundredths of a percent.
pub open spec fn interest_of(principal: int, rate: int) -> int {
    principal * rate / 100 / 100
}

/// The installment: the interest over the installments (`Coupon`) or the total over them
/// (`ReverseLoan`).
pub open spec fn regular_payment_of(
    return_type: InvestmentReturnType,
    interest: int,
    total: int,
    months: int,
) -> int {
    match return_type {
        InvestmentReturnType::Coupon => interest / months,
        InvestmentReturnType::ReverseLoan => total / months,
    }
}

/// The record that a deposit of `amount` made at `now` opens.
pub open spec fn investment_for(cd: ContractData, amount: int, decimals: nat, now: u64) -> Investment {
    let principal = principal_of(amount, cd.interest_rate as int, decimals);
    let interest = interest_of(principal, cd.interest_rate as int);
    let total = principal + interest;
    Investment {
        deposited: principal as i128,
        commission: commission_of(amount, cd.interest_rate as int, decimals) as i128,
        accumulated_interests: interest as i128,
        total: total as i128,
        claimable_ts: (now + cd.claim_block_days * 86400) as u64,
        last_transfer_ts: 0,
        status: if cd.claim_block_days > 0 {
            InvestmentStatus::Blocked
        } else {
            InvestmentStatus::Claimable
        },
        regular_payment: regular_payment_of(
            cd.return_type,
            interest,
            total,
            cd.return_months as int,
        ) as i128,
        paid: 0,
        payments_transferred: 0,
    }
}

/// A deposit from which a record can be built without leaving the machine's integers:
/// the split is valid, the total fits in `i128` and the claimable time in `u64`.
pub open spec fn buildable(cd: ContractData, amount: int, decimals: nat, now: u64) -> bool {
    let principal = principal_of(amount, cd.interest_rate as int, decimals);
    &&& crate::balance::valid_split_input(amount, cd.interest_rate as int, decimals)
    &&& principal + interest_of(principal, cd.interest_rate as int) <= i128::MAX
    &&& now + cd.claim_block_days * 86400 <= u64::MAX
}

/// What the next payment transfers: the installment, and with the last `Coupon`
/// installment the principal too.
pub open spec fn payment_due(inv: Investment, cd: ContractData) -> int {
    if cd.return_type == InvestmentReturnType::Coupon && inv.payments_transferred + 1
        >= cd.return_months {
        inv.regular_payment + inv.deposited
    } else {
        inv.regular_payment as int
    }
}

/// The record after one more payment at `now`: a blocked investment starts cash flowing,
/// and the one that reaches the configured number of installments is finished.
pub open spec fn paid_once(inv: Investment, cd: ContractData, now: u64) -> Investment {
    let n = inv.payments_transferred + 1;
    Investment {
        status: if n >= cd.return_months {
            InvestmentStatus::Finished
        } else if inv.status == InvestmentStatus::Blocked {
            InvestmentStatus::CashFlowing
        } else {
            inv.status
        },
        paid: (inv.paid + payment_due(inv, cd)) as i128,
        last_transfer_ts: now,
        payments_transferred: n as u32,
        ..inv
    }
}

/// One more payment stays within the machine's integers: the installment, and with the
/// last `Coupon` installment the principal too, can be added to what was paid.
pub open spec fn payable(inv: Investment, cd: ContractData) -> bool {
    &&& inv.payments_transferred < u32::MAX
    &&& 0 <= inv.regular_payment
    &&& 0 <= inv.deposited
    &&& 0 <= inv.paid
    &&& inv.paid + inv.regular_payment <= i128::MAX
    &&& inv.paid + payment_due(inv, cd) <= i128::MAX
}

/// Builds the record of a deposit of `amount`, made at `now`, in a token with `decimals`
/// decimals.
pub fn build_investment(cd: &ContractData, amount: &i128, decimals: u32, now: u64) -> (r: Investment)
    requires
        cd.is_valid(),
        buildable(*cd, *amount as int, decimals as nat, now),
    ensures
        r == investment_for(*cd, *amount as int, decimals as nat, now),
{
    let amounts = <crate::balance::Amount as crate::balance::CalculateAmounts>::from_investment(
        amount,
        &cd.interest_rate,
        decimals,
    );
    let real_amount: i128 = amounts.amount_to_invest + amounts.amount_to_reserve_fund;
    proof {
        crate::balance::lemma_split_conserves_amount(
            *amount as int,
            cd.interest_rate as int,
            decimals as nat,
        );
        lemma_interest_fits(*amount as int, real_amount as int, cd.interest_rate as int);
    }
    let current_interest: i128 = real_amount * (cd.interest_rate as i128) / 100 / 100;
    let status = if cd.claim_block_days > 0 {
        InvestmentStatus::Blocked
    } else {
        InvestmentStatus::Claimable
    };
    let total: i128 = real_amount + current_interest;
    let claimable_ts: u64 = now + cd.claim_block_days * 86400;
    proof {
        lemma_quotient_bounded(current_interest as int, cd.return_months as int);
        lemma_quotient_bounded(total as int, cd.return_months as int);
    }
    let regular_payment: i128 = match cd.return_type {
        InvestmentReturnType::Coupon => current_interest / (cd.return_months as i128),
        InvestmentReturnType::ReverseLoan => total / (cd.return_months as i128),
    };
    Investment {
        deposited: real_amount,
        commission: amounts.amount_to_commission,
        accumulated_interests: current_interest,
        total,
        claimable_ts,
        last_transfer_ts: 0,
        status,
        regular_payment,
        paid: 0,
        payments_transferred: 0,
    }
}

proof fn lemma_interest_fits(amount: int, principal: int, rate: int)
    requires
        0 <= principal <= amount,
        0 <= rate,
        amount * rate <= i128::MAX,
    ensures
        0 <= principal * rate <= i128::MAX,
        0 <= interest_of(principal, rate),
{
    assert(0 <= principal * rate <= amount * rate) by (nonlinear_arith)
        requires
            0 <= principal <= amount,
            0 <= rate,
    ;
}

proof fn lemma_quotient_bounded(x: int, d: int)
    requires
        0 <= x,
        0 < d,
    ensures
        0 <= x / d <= x,
{
    assert(0 <= x / d <= x) by (nonlinear_arith)
        requires
            0 <= x,
            0 < d,
    ;
}

/// Records one more payment of the investment at `now` and returns the amount to
/// transfer to the investor.
pub fn process_investment_payment(investment: &mut Investment, contract_data: &ContractData, now: u64) -> (r: i128)
    requires
        payable(*old(investment), *contract_data),
    ensures
        r == payment_due(*old(investment), *contract_data),
        *final(investment) == paid_once(*old(investment), *contract_data, now),
{
    if investment.status == InvestmentStatus::Blocked {
        investment.status = InvestmentStatus::CashFlowing;
    }
    investment.paid = investment.paid + investment.regular_payment;
    investment.last_transfer_ts = now;
    investment.payments_transferred = investment.payments_transferred + 1;
    let mut amount_to_transfer: i128 = investment.regular_payment;
    if contract_data.return_type == InvestmentReturnType::ReverseLoan
        && investment.payments_transferred >= contract_data.return_months {
        investment.status = InvestmentStatus::Finished;
    }
    if contract_data.return_type == InvestmentReturnType::Coupon
        && investment.payments_transferred >= contract_data.return_months {
        investment.status = InvestmentStatus::Finished;
        investment.paid = investment.paid + investment.deposited;
        amount_to_transfer = amount_to_transfer + investment.deposited;
    }
    amount_to_transfer
}

} // verus!
