use vstd::prelude::*;

verus! {

/// Amounts up to this one pay the lowest commission denominator (in whole tokens).
pub const LOWER_AMOUNT_FOR_COMMISSION_REDUCTION: i128 = 100;

/// Commission denominator for the smallest deposits.
pub const LOWER_DIVISOR: u32 = 10;

/// The largest commission denominator.
pub const UPPER_DIVISOR: u32 = 60;

/// Each further step of this many whole tokens raises the denominator by one.
pub const AMOUNT_PER_COMMISSION_REDUCTION: i128 = 400;

/// `10` to the power `n`.
pub open spec fn pow10(n: nat) -> int
    decreases n,
{
    if n == 0 {
        1
    } else {
        10 * pow10((n - 1) as nat)
    }
}

pub proof fn lemma_pow10_positive(n: nat)
    ensures
        pow10(n) >= 1,
    decreases n,
{
    if n > 0 {
        lemma_pow10_positive((n - 1) as nat);
    }
}

pub proof fn lemma_pow10_monotone(a: nat, b: nat)
    requires
        a <= b,
    ensures
        pow10(a) <= pow10(b),
    decreases b - a,
{
    if a < b {
        lemma_pow10_monotone(a, (b - 1) as nat);
        lemma_pow10_positive((b - 1) as nat);
    }
}

/// The tiered commission denominator: `LOWER_DIVISOR` up to the threshold, then one
/// more per step of amount above it, never more than `UPPER_DIVISOR`. Threshold and
/// step are in whole tokens, scaled by the token's decimals.
pub open spec fn rate_denominator(amount: int, decimals: nat) -> int {
    let scale = pow10(decimals);
    let threshold = LOWER_AMOUNT_FOR_COMMISSION_REDUCTION * scale;
    let step = AMOUNT_PER_COMMISSION_REDUCTION * scale;
    if amount <= threshold {
        LOWER_DIVISOR as int
    } else if LOWER_DIVISOR + (amount - threshold) / step > UPPER_DIVISOR {
        UPPER_DIVISOR as int
    } else {
        LOWER_DIVISOR + (amount - threshold) / step
    }
}

/// Commission withheld from a deposit: `amount * rate / denominator / 100 / 100`.
pub open spec fn commission_of(amount: int, rate: int, decimals: nat) -> int {
    amount * rate / rate_denominator(amount, decimals) / 100 / 100
}

/// The reserve share of a deposit: five percent.
pub open spec fn reserve_share_of(amount: int) -> int {
    amount * 5 / 100
}

/// A deposit that can be split: not negative, `amount * rate` fits in `i128`, and
/// large enough that commission and reserve share leave a non-negative amount to invest.
pub open spec fn valid_split_input(amount: int, rate: int, decimals: nat) -> bool {
    &&& 0 <= amount
    &&& amount * rate <= i128::MAX
    &&& commission_of(amount, rate, decimals) + reserve_share_of(amount) <= amount
}

/// Once the step of amount no longer fits in `i128`, no `i128` deposit leaves the
/// lowest tier.
proof fn lemma_large_scale_keeps_lower_divisor(amount: int, i: nat, decimals: nat)
    requires
        i < decimals,
        amount <= i128::MAX,
        pow10(i) > i128::MAX / 4000,
    ensures
        rate_denominator(amount, decimals) == LOWER_DIVISOR as int,
{
    lemma_pow10_monotone(i + 1, decimals);
    let scale = pow10(decimals);
    let threshold = LOWER_AMOUNT_FOR_COMMISSION_REDUCTION * scale;
    let step = AMOUNT_PER_COMMISSION_REDUCTION * scale;
    assert(pow10(i + 1) == 10 * pow10(i));
    assert(step > i128::MAX) by (nonlinear_arith)
        requires
            scale >= 10 * pow10(i),
            pow10(i) > i128::MAX / 4000,
            step == 400 * scale,
    ;
    if amount > threshold {
        assert(0 < amount - threshold < step);
        assert((amount - threshold) / step == 0) by (nonlinear_arith)
            requires
                0 < amount - threshold < step,
        ;
    }
}

/// Returns the commission denominator for a deposit of `amount` in a token with
/// `decimals` decimals.
pub fn calculate_rate_denominator(amount: &i128, decimals: u32) -> (r: u32)
    ensures
        r as int == rate_denominator(*amount as int, decimals as nat),
        LOWER_DIVISOR <= r <= UPPER_DIVISOR,
{
    let mut scale: i128 = 1;
    let mut i: u32 = 0;
    while i < decimals
        invariant
            i <= decimals,
            scale as int == pow10(i as nat),
            1 <= scale,
            400 * scale <= i128::MAX,
        decreases decimals - i,
    {
        if scale > i128::MAX / 4000 {
            proof {
                lemma_large_scale_keeps_lower_divisor(*amount as int, i as nat, decimals as nat);
            }
            return LOWER_DIVISOR;
        }
        scale = scale * 10;
        i = i + 1;
    }
    let threshold: i128 = LOWER_AMOUNT_FOR_COMMISSION_REDUCTION * scale;
    let step: i128 = AMOUNT_PER_COMMISSION_REDUCTION * scale;
    if *amount <= threshold {
        return LOWER_DIVISOR;
    }
    let a: i128 = (*amount - threshold) / step;
    if a > (UPPER_DIVISOR - LOWER_DIVISOR) as i128 {
        return UPPER_DIVISOR;
    }
    LOWER_DIVISOR + a as u32
}

/// The contract's fund pools and running totals.
#[derive(Clone, Copy, Debug, PartialEq, Eq, Structural)]
pub struct ContractBalances {
    pub reserve: i128,
    pub project: i128,
    pub comission: i128,
    pub received_so_far: i128,
    pub payments: i128,
    pub reserve_contributions: i128,
    pub project_withdrawals: i128,
    pub moved_from_project_to_reserve: i128,
}

/// What an investor deposited, the interest accumulated on it, and both together.
#[derive(Clone, Copy, Debug, PartialEq, Eq, Structural)]
pub struct Balance {
    pub deposited: i128,
    pub accumulated_interests: i128,
    pub total: i128,
}

/// How a deposit is divided.
#[derive(Clone, Copy, Debug, PartialEq, Eq, Structural)]
pub struct Amount {
    pub amount_to_invest: i128,
    pub amount_to_reserve_fund: i128,
    pub amount_to_commission: i128,
}

/// One transition of the balance ledger, with the amounts it moves.
#[derive(Clone, Copy, Debug, PartialEq, Eq, Structural)]
pub enum LedgerOp {
    Investment { to_invest: i128, to_reserve: i128, to_commission: i128 },
    CompanyContribution(i128),
    ProjectWithdrawal(i128),
    InvestorPayment(i128),
    MoveToReserve(i128),
}

pub open spec fn fits_i128(x: int) -> bool {
    i128::MIN <= x <= i128::MAX
}

impl Amount {
    /// The ledger transition that records this deposit.
    pub open spec fn ledger_op(self) -> LedgerOp {
        LedgerOp::Investment {
            to_invest: self.amount_to_invest,
            to_reserve: self.amount_to_reserve_fund,
            to_commission: self.amount_to_commission,
        }
    }
}

impl LedgerOp {
    /// What the transition adds to (or, when negative, takes from) the three pools together.
    pub open spec fn delta(self) -> int {
        match self {
            LedgerOp::Investment { to_invest, to_reserve, to_commission } => to_invest + to_reserve
                + to_commission,
            LedgerOp::CompanyContribution(a) => a as int,
            LedgerOp::ProjectWithdrawal(a) => -a,
            LedgerOp::InvestorPayment(a) => -a,
            LedgerOp::MoveToReserve(a) => 0,
        }
    }
}

impl ContractBalances {
    /// reserve + project + commission.
    pub open spec fn pools_total(self) -> int {
        self.reserve + self.project + self.comission
    }

    /// No field is negative, and the reserve and project pools hold exactly what was
    /// received and contributed less what was paid out and withdrawn.
    pub open spec fn is_valid(self) -> bool {
        &&& self.reserve >= 0
        &&& self.project >= 0
        &&& self.comission >= 0
        &&& self.received_so_far >= 0
        &&& self.payments >= 0
        &&& self.reserve_contributions >= 0
        &&& self.project_withdrawals >= 0
        &&& self.moved_from_project_to_reserve >= 0
        &&& self.reserve + self.project == self.received_so_far + self.reserve_contributions
            - self.payments - self.project_withdrawals
    }

    /// The transition may run: its amounts are not negative, the pool it draws on holds
    /// enough, and every field it raises stays within `i128`.
    pub open spec fn admits(self, op: LedgerOp) -> bool {
        match op {
            LedgerOp::Investment { to_invest, to_reserve, to_commission } => {
                &&& to_invest >= 0
                &&& to_reserve >= 0
                &&& to_commission >= 0
                &&& self.comission + to_commission <= i128::MAX
                &&& self.reserve + to_reserve <= i128::MAX
                &&& self.project + to_invest <= i128::MAX
                &&& self.received_so_far + to_reserve + to_invest <= i128::MAX
            },
            LedgerOp::CompanyContribution(a) => {
                &&& a >= 0
                &&& self.reserve + a <= i128::MAX
                &&& self.reserve_contributions + a <= i128::MAX
            },
            LedgerOp::ProjectWithdrawal(a) => {
                &&& 0 <= a <= self.project
                &&& self.project_withdrawals + a <= i128::MAX
            },
            LedgerOp::InvestorPayment(a) => {
                &&& 0 <= a <= self.reserve
                &&& self.payments + a <= i128::MAX
            },
            LedgerOp::MoveToReserve(a) => {
                &&& 0 <= a <= self.project
                &&& self.reserve + a <= i128::MAX
                &&& self.moved_from_project_to_reserve + a <= i128::MAX
            },
        }
    }

    /// The balances after the transition.
    pub open spec fn apply(self, op: LedgerOp) -> ContractBalances {
        match op {
            LedgerOp::Investment { to_invest, to_reserve, to_commission } => ContractBalances {
                comission: (self.comission + to_commission) as i128,
                reserve: (self.reserve + to_reserve) as i128,
                project: (self.project + to_invest) as i128,
                received_so_far: (self.received_so_far + to_reserve + to_invest) as i128,
                ..self
            },
            LedgerOp::CompanyContribution(a) => ContractBalances {
                reserve: (self.reserve + a) as i128,
                reserve_contributions: (self.reserve_contributions + a) as i128,
                ..self
            },
            LedgerOp::ProjectWithdrawal(a) => ContractBalances {
                project: (self.project - a) as i128,
                project_withdrawals: (self.project_withdrawals + a) as i128,
                ..self
            },
            LedgerOp::InvestorPayment(a) => ContractBalances {
                reserve: (self.reserve - a) as i128,
                payments: (self.payments + a) as i128,
                ..self
            },
            LedgerOp::MoveToReserve(a) => ContractBalances {
                project: (self.project - a) as i128,
                reserve: (self.reserve + a) as i128,
                moved_from_project_to_reserve: (self.moved_from_project_to_reserve + a) as i128,
                ..self
            },
        }
    }

    /// Balances of a contract that has received nothing.
    pub fn new() -> (r: ContractBalances)
        ensures
            r.reserve == 0 && r.project == 0 && r.comission == 0,
            r.received_so_far == 0 && r.payments == 0 && r.reserve_contributions == 0,
            r.project_withdrawals == 0 && r.moved_from_project_to_reserve == 0,
            r.is_valid(),
    {
        ContractBalances {
            reserve: 0,
            project: 0,
            comission: 0,
            received_so_far: 0,
            payments: 0,
            reserve_contributions: 0,
            project_withdrawals: 0,
            moved_from_project_to_reserve: 0,
        }
    }

    /// The funds held in the three pools together.
    pub fn sum(&self) -> (r: i128)
        requires
            fits_i128(self.pools_total()),
            fits_i128(self.comission + self.project),
        ensures
            r as int == self.pools_total(),
    {
        self.comission + self.project + self.reserve
    }
}

/// Splitting a deposit into the amount to invest, the reserve share and the commission.
pub trait CalculateAmounts: Sized {
    fn from_investment(amount: &i128, i_rate: &u32, decimals: u32) -> (r: Self)
        requires
            0 <= *amount,
            *amount * *i_rate <= i128::MAX,
    ;
}

impl CalculateAmounts for Amount {
    /// The commission follows the tiered denominator, the reserve share is five percent,
    /// and what remains is invested.
    fn from_investment(amount: &i128, i_rate: &u32, decimals: u32) -> (r: Amount)
        ensures
            r.amount_to_commission == commission_of(*amount as int, *i_rate as int, decimals as nat),
            r.amount_to_reserve_fund == reserve_share_of(*amount as int),
            r.amount_to_invest == *amount - r.amount_to_commission - r.amount_to_reserve_fund,
    {
        let rate_denominator: u32 = calculate_rate_denominator(amount, decimals);
        let product: i128 = *amount * (*i_rate as i128);
        proof {
            assert(product >= 0) by (nonlinear_arith)
                requires
                    product == *amount * *i_rate,
                    *amount >= 0,
                    *i_rate >= 0,
            ;
        }
        proof {
            lemma_split_parts_bounded(*amount as int, *i_rate as int, decimals as nat);
        }
        let amount_to_commission: i128 = product / (rate_denominator as i128) / 100 / 100;
        let amount_to_reserve_fund: i128 = *amount / 100 * 5 + *amount % 100 * 5 / 100;
        let amount_to_invest: i128 = *amount - amount_to_commission - amount_to_reserve_fund;
        Amount { amount_to_invest, amount_to_reserve_fund, amount_to_commission }
    }
}

proof fn lemma_split_parts_bounded(amount: int, rate: int, decimals: nat)
    requires
        0 <= amount,
        0 <= rate,
        amount * rate <= i128::MAX,
    ensures
        0 <= commission_of(amount, rate, decimals) <= i128::MAX,
        0 <= reserve_share_of(amount) <= amount,
{
    let d = rate_denominator(amount, decimals);
    lemma_rate_denominator_bounds(amount, decimals);
    let p = amount * rate;
    assert(p >= 0) by (nonlinear_arith)
        requires
            p == amount * rate,
            0 <= amount,
            0 <= rate,
    ;
    assert(0 <= p / d <= p) by (nonlinear_arith)
        requires
            p >= 0,
            d >= 10,
    ;
    assert(0 <= amount * 5 / 100 <= amount) by (nonlinear_arith)
        requires
            amount >= 0,
    ;
    assert(amount / 100 * 5 + amount % 100 * 5 / 100 == amount * 5 / 100) by (nonlinear_arith)
        requires
            amount >= 0,
    ;
}

pub proof fn lemma_rate_denominator_bounds(amount: int, decimals: nat)
    ensures
        LOWER_DIVISOR <= rate_denominator(amount, decimals) <= UPPER_DIVISOR,
{
    lemma_pow10_positive(decimals);
    let scale = pow10(decimals);
    let threshold = LOWER_AMOUNT_FOR_COMMISSION_REDUCTION * scale;
    let step = AMOUNT_PER_COMMISSION_REDUCTION * scale;
    if amount > threshold {
        assert((amount - threshold) / step >= 0) by (nonlinear_arith)
            requires
                amount - threshold > 0,
                step > 0,
        ;
    }
}

/// Records a deposit: commission, reserve and project pools grow by their shares, and
/// the amount received grows by what was not withheld as commission.
pub fn recalculate_contract_balances_from_investment(
    contract_balances: &mut ContractBalances,
    amounts: &Amount,
)
    requires
        old(contract_balances).admits(amounts.ledger_op()),
    ensures
        *final(contract_balances) == old(contract_balances).apply(amounts.ledger_op()),
{
    contract_balances.comission = contract_balances.comission + amounts.amount_to_commission;
    contract_balances.reserve = contract_balances.reserve + amounts.amount_to_reserve_fund;
    contract_balances.project = contract_balances.project + amounts.amount_to_invest;
    contract_balances.received_so_far = contract_balances.received_so_far
        + amounts.amount_to_reserve_fund + amounts.amount_to_invest;
}

/// Records funds that the company added to the reserve.
pub fn increment_reserve_balance_from_company_contribution(
    contract_balances: &mut ContractBalances,
    amount: &i128,
)
    requires
        old(contract_balances).admits(LedgerOp::CompanyContribution(*amount)),
    ensures
        *final(contract_balances) == old(contract_balances).apply(
            LedgerOp::CompanyContribution(*amount),
        ),
{
    contract_balances.reserve = contract_balances.reserve + *amount;
    contract_balances.reserve_contributions = contract_balances.reserve_contributions + *amount;
}

/// Records a payout from the project pool to the project address.
pub fn decrement_project_balance_from_company_withdrawal(
    contract_balances: &mut ContractBalances,
    amount: &i128,
)
    requires
        old(contract_balances).admits(LedgerOp::ProjectWithdrawal(*amount)),
    ensures
        *final(contract_balances) == old(contract_balances).apply(
            LedgerOp::ProjectWithdrawal(*amount),
        ),
{
    contract_balances.project = contract_balances.project - *amount;
    contract_balances.project_withdrawals = contract_balances.project_withdrawals + *amount;
}

/// Records a payment to an investor, drawn from the reserve.
pub fn decrement_project_balance_from_payment_to_investor(
    contract_balances: &mut ContractBalances,
    amount: &i128,
)
    requires
        old(contract_balances).admits(LedgerOp::InvestorPayment(*amount)),
    ensures
        *final(contract_balances) == old(contract_balances).apply(
            LedgerOp::InvestorPayment(*amount),
        ),
{
    contract_balances.reserve = contract_balances.reserve - *amount;
    contract_balances.payments = contract_balances.payments + *amount;
}

/// Moves funds from the project pool to the reserve.
pub fn move_from_project_balance_to_reserve_balance(
    contract_balances: &mut ContractBalances,
    amount: &i128,
)
    requires
        old(contract_balances).admits(LedgerOp::MoveToReserve(*amount)),
    ensures
        *final(contract_balances) == old(contract_balances).apply(LedgerOp::MoveToReserve(*amount)),
{
    contract_balances.project = contract_balances.project - *amount;
    contract_balances.reserve = contract_balances.reserve + *amount;
    contract_balances.moved_from_project_to_reserve = contract_balances.moved_from_project_to_reserve
        + *amount;
}

/// Splitting a valid deposit loses nothing and yields no negative part.
pub proof fn lemma_split_conserves_amount(amount: int, rate: int, decimals: nat)
    requires
        0 <= rate,
        valid_split_input(amount, rate, decimals),
    ensures
        ({
            let c = commission_of(amount, rate, decimals);
            let r = reserve_share_of(amount);
            let i = amount - c - r;
            &&& i + r + c == amount
            &&& c >= 0
            &&& r >= 0
            &&& i >= 0
        }),
{
    lemma_split_parts_bounded(amount, rate, decimals);
}

/// One admitted transition keeps the balances valid and changes the pools' total by
/// exactly its delta.
pub proof fn lemma_transition_keeps_ledger(b: ContractBalances, op: LedgerOp)
    requires
        b.is_valid(),
        b.admits(op),
    ensures
        b.apply(op).is_valid(),
        b.apply(op).pools_total() == b.pools_total() + op.delta(),
{
}

/// Applies transitions in order; `None` once one of them is not admitted.
pub open spec fn replay(b: ContractBalances, ops: Seq<LedgerOp>) -> Option<ContractBalances>
    decreases ops.len(),
{
    if ops.len() == 0 {
        Some(b)
    } else if b.admits(ops[0]) {
        replay(b.apply(ops[0]), ops.drop_first())
    } else {
        None
    }
}

/// The sum of the transitions' deltas.
pub open spec fn total_delta(ops: Seq<LedgerOp>) -> int
    decreases ops.len(),
{
    if ops.len() == 0 {
        0
    } else {
        ops[0].delta() + total_delta(ops.drop_first())
    }
}

/// Over any sequence of admitted transitions the ledger stays valid (no pool or counter
/// goes negative) and the pools' total moves by exactly the sum of the deltas.
pub proof fn lemma_replay_keeps_ledger(b: ContractBalances, ops: Seq<LedgerOp>)
    requires
        b.is_valid(),
        replay(b, ops) is Some,
    ensures
        replay(b, ops)->Some_0.is_valid(),
        replay(b, ops)->Some_0.pools_total() == b.pools_total() + total_delta(ops),
        replay(b, ops)->Some_0.pools_total() >= 0,
    decreases ops.len(),
{
    if ops.len() > 0 {
        lemma_transition_keeps_ledger(b, ops[0]);
        lemma_replay_keeps_ledger(b.apply(ops[0]), ops.drop_first());
    }
}

} // verus!
