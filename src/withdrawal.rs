//! The retirement draw policy.
use vstd::prelude::*;

verus! {

/// Draws the monthly retirement income from all accounts in proportion to
/// their balances, which keeps the allocation across accounts as it was.
#[derive(Copy, Clone, Debug)]
pub struct WithdrawalStrategyOrig {}

impl WithdrawalStrategyOrig {
    pub fn new() -> (r: WithdrawalStrategyOrig)
        ensures
            r == (WithdrawalStrategyOrig {}),
    {
        WithdrawalStrategyOrig {}
    }
}

} // verus!
