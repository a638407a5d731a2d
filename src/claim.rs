use vstd::prelude::*;

use crate::constants::{SECONDS_IN_MONTH, SECONDS_IN_WEEK};
use crate::investment::Investment;

verus! {

/// The next payment due to an investor.
#[derive(Clone, Copy, Debug, PartialEq, Eq, Structural)]
pub struct Claim {
    pub next_transfer_ts: u64,
    pub amount_to_pay: i128,
}

impl Claim {
    /// The claim falls due within the week after `now`.
    pub open spec fn due_within_week(self, now: u64) -> bool {
        self.next_transfer_ts <= now + SECONDS_IN_WEEK
    }

    /// Whether the claim falls due within the week after `now`.
    pub fn is_claim_next(&self, now: u64) -> (r: bool)
        ensures
            r == self.due_within_week(now),
    {
        self.next_transfer_ts <= now || self.next_transfer_ts - now <= SECONDS_IN_WEEK
    }
}

/// The claim that follows an investment's last transfer: one month after it, or one
/// month after `now` when nothing was transferred yet.
pub open spec fn next_claim_of(investment: Investment, now: u64) -> Claim {
    Claim {
        next_transfer_ts: if investment.last_transfer_ts > 0 {
            (investment.last_transfer_ts + SECONDS_IN_MONTH) as u64
        } else {
            (now + SECONDS_IN_MONTH) as u64
        },
        amount_to_pay: investment.regular_payment,
    }
}

/// The next claim can be dated within `u64`.
pub open spec fn claim_datable(investment: Investment, now: u64) -> bool {
    &&& investment.last_transfer_ts + SECONDS_IN_MONTH <= u64::MAX
    &&& now + SECONDS_IN_MONTH <= u64::MAX
}

/// Computes the claim that follows the investment's last transfer.
pub fn calculate_next_claim(investment: &Investment, now: u64) -> (r: Claim)
    requires
        claim_datable(*investment, now),
    ensures
        r == next_claim_of(*investment, now),
{
    let next_transfer_ts: u64 = if investment.last_transfer_ts > 0 {
        investment.last_transfer_ts + SECONDS_IN_MONTH
    } else {
        now + SECONDS_IN_MONTH
    };
    Claim { next_transfer_ts, amount_to_pay: investment.regular_payment }
}

} // verus!
