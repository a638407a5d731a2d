use vstd::prelude::*;

verus! {

/// Seconds in one day of ledger time.
pub const SECONDS_IN_DAY: u64 = 86400;

/// Seconds in the seven-day lookahead window of the liquidity forecast.
pub const SECONDS_IN_WEEK: u64 = 604800;

/// Seconds in one payment period (thirty days).
pub const SECONDS_IN_MONTH: u64 = 2592000;

/// How long a withdrawal request accepts signatures after it is opened.
pub const WITHDRAWAL_VALIDITY_SECS: u64 = 86400;

} // verus!
