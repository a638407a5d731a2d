// An investment and escrow engine: deposits are split into project, reserve and
// commission pools, returns are paid out on a monthly schedule, a weekly forecast tells
// how much the pools lack, and project withdrawals can require several signatures.
use vstd::prelude::*;

pub mod balance;
pub mod claim;
pub mod constants;
pub mod contract;
pub mod data;
pub mod investment;
pub mod multisig;
pub mod storage;
pub mod table;

verus! {

} // verus!
