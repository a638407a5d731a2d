use investment::balance::{
    calculate_rate_denominator, decrement_project_balance_from_company_withdrawal,
    decrement_project_balance_from_payment_to_investor,
    increment_reserve_balance_from_company_contribution,
    move_from_project_balance_to_reserve_balance, recalculate_contract_balances_from_investment,
    Amount, CalculateAmounts, ContractBalances,
};
use investment::claim::{calculate_next_claim, Claim};
use investment::contract::InvestmentContract;
use investment::data::{ContractData, Error, FromNumber, Principal, State};
use investment::investment::{
    build_investment, process_investment_payment, InvestmentReturnType, InvestmentStatus,
};
use investment::multisig::{MultisigRequest, MultisigStatus};

fn who(n: u128) -> Principal {
    Principal { is_contract: false, high: 0, low: n }
}

fn contract(goal: i128, return_type: u32, min_per_investment: i128) -> InvestmentContract {
    InvestmentContract::init(who(1), who(3), who(9), 500, 7, goal, return_type, 4, min_per_investment)
        .unwrap()
}

fn funded_contract() -> InvestmentContract {
    let mut c = contract(1000000, 1, 100);
    c.invest(&who(2), 100000, 1000000, 7, 0).unwrap();
    c.invest(&who(4), 50000, 1000000, 7, 0).unwrap();
    c
}

#[test]
fn split_parts_add_up_to_the_deposit() {
    for (amount, rate, decimals) in [
        (0_i128, 500_u32, 7_u32),
        (100, 500, 0),
        (100000, 500, 0),
        (100000, 500, 7),
        (123456789, 1234, 2),
        (1_000_000_000_000, 95000, 0),
    ] {
        let a = Amount::from_investment(&amount, &rate, decimals);
        assert_eq!(a.amount_to_invest + a.amount_to_reserve_fund + a.amount_to_commission, amount);
        assert!(a.amount_to_invest >= 0 && a.amount_to_reserve_fund >= 0 && a.amount_to_commission >= 0);
    }
}

#[test]
fn split_of_a_hundred_thousand() {
    let a = Amount::from_investment(&100000, &500, 0);
    assert_eq!(a.amount_to_reserve_fund, 5000);
    assert_eq!(a.amount_to_commission, 83);
    assert_eq!(a.amount_to_invest, 94917);
    let b = Amount::from_investment(&100000, &500, 7);
    assert_eq!(b.amount_to_commission, 500);
    assert_eq!(b.amount_to_invest, 94500);
}

#[test]
fn denominator_tiers_and_cap() {
    assert_eq!(calculate_rate_denominator(&100, 0), 10);
    assert_eq!(calculate_rate_denominator(&101, 0), 10);
    assert_eq!(calculate_rate_denominator(&500, 0), 11);
    assert_eq!(calculate_rate_denominator(&20099, 0), 59);
    assert_eq!(calculate_rate_denominator(&20100, 0), 60);
    assert_eq!(calculate_rate_denominator(&24500, 0), 60);
    assert_eq!(calculate_rate_denominator(&i128::MAX, 0), 60);
    assert_eq!(calculate_rate_denominator(&-5, 0), 10);
    assert_eq!(calculate_rate_denominator(&i128::MAX, 38), 10);
}

#[test]
fn ledger_transitions_move_the_pools_by_their_deltas() {
    let mut b = ContractBalances::new();
    assert_eq!(b.sum(), 0);
    let a = Amount::from_investment(&100000, &500, 7);
    recalculate_contract_balances_from_investment(&mut b, &a);
    assert_eq!(b.sum(), 100000);
    assert_eq!(b.received_so_far, 99500);
    increment_reserve_balance_from_company_contribution(&mut b, &2000);
    assert_eq!(b.sum(), 102000);
    assert_eq!(b.reserve, 7000);
    decrement_project_balance_from_company_withdrawal(&mut b, &4500);
    assert_eq!(b.sum(), 97500);
    assert_eq!(b.project, 90000);
    decrement_project_balance_from_payment_to_investor(&mut b, &7000);
    assert_eq!(b.sum(), 90500);
    assert_eq!(b.reserve, 0);
    move_from_project_balance_to_reserve_balance(&mut b, &90000);
    assert_eq!(b.sum(), 90500);
    assert_eq!((b.project, b.reserve, b.comission), (0, 90000, 500));
    assert_eq!(
        (b.payments, b.reserve_contributions, b.project_withdrawals, b.moved_from_project_to_reserve),
        (7000, 2000, 4500, 90000)
    );
    assert_eq!(b.reserve + b.project, b.received_so_far + b.reserve_contributions - b.payments - b.project_withdrawals);
}

#[test]
fn return_type_codes() {
    assert_eq!(InvestmentReturnType::from_number(1), Some(InvestmentReturnType::ReverseLoan));
    assert_eq!(InvestmentReturnType::from_number(2), Some(InvestmentReturnType::Coupon));
    assert_eq!(InvestmentReturnType::from_number(0), None);
    assert_eq!(InvestmentReturnType::from_number(3), None);
}

#[test]
fn claims_within_the_week() {
    let c = Claim { next_transfer_ts: 1000 + 604800, amount_to_pay: 5 };
    assert!(c.is_claim_next(1000));
    assert!(!c.is_claim_next(999));
    assert!(Claim { next_transfer_ts: 0, amount_to_pay: 1 }.is_claim_next(u64::MAX));
}

#[test]
fn four_reverse_loan_installments_pay_the_total() {
    let mut c = InvestmentContract::init(who(1), who(3), who(9), 500, 0, 0, 1, 4, 100000).unwrap();
    let inv = c.invest(&who(2), 100000, 100000, 0, 0).unwrap();
    assert_eq!(inv.deposited, 99917);
    assert_eq!(inv.commission, 83);
    assert_eq!(inv.accumulated_interests, 4995);
    assert_eq!(inv.total, 104912);
    assert_eq!(inv.regular_payment, 26228);
    assert_eq!(inv.status, InvestmentStatus::Claimable);
    assert_eq!(c.get_contract_balance().reserve, 5000);
    assert_eq!(c.add_company_transfer(200000, 200000), Ok(true));
    let mut now = 0_u64;
    let mut last = inv;
    for _ in 0..4 {
        last = c.process_investor_payment(&who(2), inv.claimable_ts, now).unwrap();
        now += 30 * 86400;
    }
    assert_eq!(last.status, InvestmentStatus::Finished);
    assert_eq!(last.paid, last.total);
    assert_eq!(last.payments_transferred, 4);
    assert_eq!(c.get_contract_balance().payments, 104912);
}

#[test]
fn coupon_returns_the_principal_with_the_last_installment() {
    let cd = ContractData {
        interest_rate: 500,
        claim_block_days: 7,
        token: who(9),
        project_address: who(3),
        admin: who(1),
        state: State::Actve,
        return_type: InvestmentReturnType::Coupon,
        return_months: 2,
        min_per_investment: 1,
        goal: 0,
    };
    let mut inv = build_investment(&cd, &100000, 7, 10);
    assert_eq!(inv.claimable_ts, 10 + 7 * 86400);
    assert_eq!(inv.status, InvestmentStatus::Blocked);
    assert_eq!(inv.regular_payment, 4975 / 2);
    assert_eq!(process_investment_payment(&mut inv, &cd, 700000), 2487);
    assert_eq!(inv.status, InvestmentStatus::CashFlowing);
    let next = calculate_next_claim(&inv, 800000);
    assert_eq!(next.next_transfer_ts, 700000 + 30 * 86400);
    assert_eq!(process_investment_payment(&mut inv, &cd, 3300000), 2487 + 99500);
    assert_eq!(inv.status, InvestmentStatus::Finished);
    assert_eq!(inv.paid, 2 * 2487 + 99500);
}

#[test]
fn payment_timing_errors() {
    let mut c = contract(0, 1, 100);
    let inv = c.invest(&who(2), 100000, 100000, 7, 0).unwrap();
    c.add_company_transfer(100000, 100000).unwrap();
    let ts = inv.claimable_ts;
    assert_eq!(
        c.process_investor_payment(&who(2), ts, ts - 1),
        Err(Error::AddressInvestmentIsNotClaimableYet)
    );
    c.process_investor_payment(&who(2), ts, ts).unwrap();
    assert_eq!(
        c.process_investor_payment(&who(2), ts, ts + 30 * 86400 - 1),
        Err(Error::AddressInvestmentNextTransferNotClaimableYet)
    );
    assert!(c.process_investor_payment(&who(2), ts, ts + 30 * 86400).is_ok());
}

#[test]
fn signing_twice_counts_once() {
    let mut c = funded_contract();
    assert_eq!(c.multisig_withdrawn(&who(3), 40000, 0), Ok(MultisigStatus::WaitingForSignatures));
    assert_eq!(c.multisig_withdrawn(&who(3), 40000, 10), Ok(MultisigStatus::WaitingForSignatures));
    let req = c.withdrawal.as_ref().unwrap();
    assert_eq!(req.signed_addrs.len(), 1);
    assert_eq!(req.successful_signatures, 1);
    assert_eq!(c.multisig_withdrawn(&who(1), 40000, 20), Ok(MultisigStatus::Completed));
    assert!(c.withdrawal.is_none());
    assert_eq!(c.get_contract_balance().project_withdrawals, 40000);
}

#[test]
fn request_expires_after_a_day() {
    let mut c = funded_contract();
    let t0 = 1000_u64;
    c.multisig_withdrawn(&who(3), 40000, t0).unwrap();
    assert_eq!(c.withdrawal.as_ref().unwrap().valid_ts, t0 + 86400);
    assert_eq!(c.multisig_withdrawn(&who(1), 40000, t0 + 86401), Err(Error::WithdrawalExpiredSignature));
    assert_eq!(c.multisig_withdrawn(&who(3), 40000, t0 + 90000), Err(Error::WithdrawalExpiredSignature));
    assert_eq!(c.multisig_withdrawn(&who(1), 40000, t0 + 86400), Ok(MultisigStatus::Completed));
}

#[test]
fn mismatched_amount_keeps_the_request_waiting() {
    let mut c = funded_contract();
    c.multisig_withdrawn(&who(3), 40000, 0).unwrap();
    assert_eq!(c.multisig_withdrawn(&who(1), 45000, 0), Err(Error::WithdrawalInvalidAmount));
    let req = c.withdrawal.as_ref().unwrap();
    assert_eq!(req.signed_addrs, vec![who(3)]);
    assert_eq!(req.amount, 40000);
    assert!(!req.is_completed());
    assert_eq!(c.multisig_withdrawn(&who(1), 40000, 0), Ok(MultisigStatus::Completed));
}

#[test]
fn multisig_rejections() {
    let mut c = funded_contract();
    assert_eq!(c.multisig_withdrawn(&who(3), -1, 0), Err(Error::AmountLessOrEqualThan0));
    assert_eq!(c.multisig_withdrawn(&who(3), 141751, 0), Err(Error::ContractInsufficientBalance));
    assert_eq!(c.multisig_withdrawn(&who(7), 1000, 0), Err(Error::WithdrawalUnexpectedSignature));
    assert!(c.withdrawal.is_none());
}

#[test]
fn request_signatures() {
    let cd = contract(0, 1, 100).data;
    let mut req = MultisigRequest::new(&cd, "multisig_withdrawn".to_string(), 7, 10, 5);
    assert!(req.is_valid_signature(who(1)) && req.is_valid_signature(who(3)));
    assert!(!req.is_valid_signature(who(2)));
    assert_eq!(req.add_sig(who(2)), 0);
    assert_eq!(req.successful_signatures, 7);
    assert!(req.signed_addrs.is_empty());
    assert_eq!(req.add_sig(who(1)), 1);
    assert_eq!(req.successful_signatures, 1);
    assert_eq!(req.add_sig(who(1)), 1);
    assert!(!req.is_completed());
    assert_eq!(req.add_sig(who(3)), 2);
    assert!(req.is_completed());
    assert!(!req.is_expired(5) && req.is_expired(6));
}

#[test]
fn reserve_forecast_cases() {
    let mut c = contract(0, 1, 100);
    assert_eq!(c.check_reserve_balance(0), 0);
    c.claims.set(&who(2), &Claim { next_transfer_ts: 8 * 86400, amount_to_pay: 26118 });
    assert_eq!(c.check_reserve_balance(0), 0);
    assert_eq!(c.check_reserve_balance(86400), 26118);
    c.claims.set(&who(4), &Claim { next_transfer_ts: 86400, amount_to_pay: 13059 });
    assert_eq!(c.check_reserve_balance(86400), 26118 + 13059);
    c.claims.set(&who(2), &Claim { next_transfer_ts: 86400, amount_to_pay: 1 });
    assert_eq!(c.check_reserve_balance(86400), 13060);
    c.claims.set(&who(5), &Claim { next_transfer_ts: 0, amount_to_pay: i128::MAX });
    assert_eq!(c.check_reserve_balance(86400), i128::MAX);
}

#[test]
fn reaching_the_goal_closes_funding() {
    let mut c = InvestmentContract::init(who(1), who(3), who(9), 500, 7, 99500, 1, 4, 100).unwrap();
    c.invest(&who(2), 100000, 100000, 7, 0).unwrap();
    assert_eq!(c.data.state, State::FundsReached);
    assert_eq!(c.invest(&who(2), 100, 100, 7, 0), Err(Error::ContractMustBeActiveToInvest));
    assert_eq!(c.stop_investments(), Err(Error::ContractMustBeActiveToBePaused));
}

#[test]
fn zero_goal_means_no_limit() {
    let mut c = contract(0, 1, 100);
    c.invest(&who(2), 10_000_000, 10_000_000, 7, 0).unwrap();
    assert_eq!(c.data.state, State::Actve);
}

#[test]
fn negative_goal_is_refused() {
    assert_eq!(
        InvestmentContract::init(who(1), who(3), who(9), 500, 7, -1, 1, 4, 100).err().map(|e| e),
        Some(Error::GoalMustNotBeNegative)
    );
}

#[test]
fn pool_draws_of_the_whole_pool_and_of_nothing() {
    let mut c = funded_contract();
    let project = c.get_contract_balance().project;
    let before = c.get_contract_balance();
    assert_eq!(c.move_funds_to_the_reserve(0), Ok(true));
    assert_eq!(c.single_withdrawn(0), Ok(true));
    assert_eq!(c.add_company_transfer(0, 10), Ok(true));
    assert_eq!(c.get_contract_balance(), before);
    assert_eq!(c.move_funds_to_the_reserve(-1), Err(Error::AmountLessOrEqualThan0));
    assert_eq!(c.single_withdrawn(-1), Err(Error::AmountLessOrEqualThan0));
    assert_eq!(c.add_company_transfer(-1, 10), Err(Error::AmountLessOrEqualThan0));
    assert_eq!(c.move_funds_to_the_reserve(project), Ok(true));
    assert_eq!(c.get_contract_balance().project, 0);
    assert_eq!(c.single_withdrawn(1), Err(Error::ContractInsufficientBalance));
}

#[test]
fn oversized_deposit_overflows() {
    let mut c = contract(0, 1, 100);
    assert_eq!(c.invest(&who(2), i128::MAX, i128::MAX, 7, 0), Err(Error::ArithmeticOverflow));
    assert_eq!(c.get_contract_balance(), ContractBalances::new());
}

#[test]
fn same_investor_same_time_replaces_the_record() {
    let mut c = InvestmentContract::init(who(1), who(3), who(9), 500, 7, 0, 1, 4, 100).unwrap();
    let first = c.invest(&who(2), 1000, 1000, 0, 5).unwrap();
    let second = c.invest(&who(2), 2000, 2000, 0, 5).unwrap();
    assert_eq!(first.claimable_ts, second.claimable_ts);
    assert_eq!(c.get_investment(&who(2), first.claimable_ts), Some(second));
    assert_eq!(c.claims.entries.len(), 1);
    assert_eq!(c.get_investment(&who(2), 6), None);
}

#[test]
fn project_pool_forecast() {
    let mut c = funded_contract();
    assert_eq!(c.check_project_address_balance(0), 0);
    c.claims.set(&who(6), &Claim { next_transfer_ts: 0, amount_to_pay: 200000 });
    assert_eq!(c.check_project_address_balance(0), 200000 - 141750);
    assert_eq!(c.check_reserve_balance(0), 200000 - 7500);
    assert_eq!(c.check_project_address_balance(30 * 86400), 200000 + 26118 + 13059 - 141750);
}

#[test]
fn deposit_too_small_to_split_is_refused() {
    let mut c = InvestmentContract::init(who(1), who(3), who(9), 4_000_000_000, 7, 0, 1, 4, 100)
        .unwrap();
    assert_eq!(c.invest(&who(2), 100, 100, 0, 0), Err(Error::AmountLessThanMinimum));
    assert!(c.investments.entries.is_empty());
}

#[test]
fn lock_period_past_the_clock_overflows() {
    let mut c = InvestmentContract::init(who(1), who(3), who(9), 500, u64::MAX / 86400, 0, 1, 4, 100)
        .unwrap();
    assert_eq!(c.invest(&who(2), 1000, 1000, 0, 86400), Err(Error::ArithmeticOverflow));
    assert_eq!(c.get_contract_balance(), ContractBalances::new());
}

#[test]
fn zero_withdrawal_by_signatures() {
    let mut c = funded_contract();
    assert_eq!(c.multisig_withdrawn(&who(3), 0, 0), Ok(MultisigStatus::WaitingForSignatures));
    assert_eq!(c.multisig_withdrawn(&who(1), 0, 0), Ok(MultisigStatus::Completed));
    assert_eq!(c.get_contract_balance().project_withdrawals, 0);
}
