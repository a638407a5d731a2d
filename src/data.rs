use vstd::prelude::*;

use crate::investment::InvestmentReturnType;

verus! {

/// An authenticated identity: an account key or a contract id, as 32 bytes split into
/// two big-endian halves.
#[derive(Clone, Copy, Debug, PartialEq, Eq, Structural)]
pub struct Principal {
    pub is_contract: bool,
    pub high: u128,
    pub low: u128,
}

impl Principal {
    /// Whether the two principals are the same identity.
    pub fn same_as(&self, other: &Principal) -> (r: bool)
        ensures
            r == (*self == *other),
    {
        self.is_contract == other.is_contract && self.high == other.high && self.low == other.low
    }
}

/// Reading a configuration value from its numeric code.
pub trait FromNumber: Sized {
    /// Whether `number` is the code of some value.
    spec fn has_code(number: u32) -> bool;

    fn from_number(number: u32) -> (r: Option<Self>)
        ensures
            r is Some <==> Self::has_code(number),
    ;
}

/// The contract's configuration, fixed at initialisation but for `state`.
#[derive(Clone, Copy, Debug, PartialEq, Eq, Structural)]
pub struct ContractData {
    pub interest_rate: u32,
    pub claim_block_days: u64,
    pub token: Principal,
    pub project_address: Principal,
    pub admin: Principal,
    pub state: State,
    pub return_type: InvestmentReturnType,
    pub return_months: u32,
    pub min_per_investment: i128,
    pub goal: i128,
}

impl ContractData {
    /// What initialisation guarantees: a positive rate, a goal that is zero (no limit) or
    /// positive, at least one installment and a positive minimum deposit.
    pub open spec fn is_valid(self) -> bool {
        &&& self.interest_rate > 0
        &&& self.goal >= 0
        &&& self.return_months > 0
        &&& self.min_per_investment > 0
    }
}

/// Failures of the contract's operations.
#[derive(Clone, Copy, Debug, PartialEq, Eq, Structural)]
pub enum Error {
    AddressInsufficientBalance,
    ContractInsufficientBalance,
    AmountLessOrEqualThan0,
    AmountLessThanMinimum,
    AddressHasNotInvested,
    AddressInvestmentIsNotClaimableYet,
    AddressInvestmentIsFinished,
    AddressInvestmentNextTransferNotClaimableYet,
    WithdrawalUnexpectedSignature,
    WithdrawalExpiredSignature,
    WithdrawalInvalidAmount,
    ProjectBalanceInsufficientAmount,
    ContractMustBePausedToRestartAgain,
    ContractMustBeActiveToBePaused,
    ContractMustBeActiveToInvest,
    RecipientCannotReceivePayment,
    InvalidPaymentData,
    WouldExceedGoal,
    InterestRateMustBeGreaterThanZero,
    GoalMustNotBeNegative,
    ReturnMonthsMustBeGreaterThanZero,
    MinPerInvestmentMustBeGreaterThanZero,
    UnsupportedReturnType,
    ArithmeticOverflow,
}

/// The contract's lifecycle state.
#[derive(Clone, Copy, Debug, PartialEq, Eq, Structural)]
pub enum State {
    Pending,
    Actve,
    FundsReached,
    Paused,
}

} // verus!
