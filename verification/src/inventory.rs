//! On-chain inventory interface: the balance snapshot the exchange reports
//! and resolution detection. The chain calls themselves (splitting, merging
//! and redeeming token pairs) are transport and live outside the library.

use vstd::prelude::*;

use crate::fixed::Dec;

verus! {

/// Collateral balance reported by the exchange.
#[derive(Clone, Copy, Debug)]
pub struct BalanceInfo {
    pub usdc_balance: Dec,
}

/// Outcome of a resolution check.
#[derive(Clone, Copy, Debug, PartialEq, Eq, Structural)]
pub struct ResolutionResult {
    pub resolved: bool,
}

/// Detect whether a market has been resolved: a closed market is resolved,
/// an open one is not.
pub fn check_resolution(market_closed: bool) -> (r: Option<ResolutionResult>)
    ensures
        r == if market_closed {
            Some(ResolutionResult { resolved: true })
        } else {
            None::<ResolutionResult>
        },
{
    if market_closed {
        Some(ResolutionResult { resolved: true })
    } else {
        None
    }
}

} // verus!
