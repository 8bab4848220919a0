use vstd::prelude::*;

use crate::types::PriceData;

verus! {

/// A minimal single-asset price feed that reports whatever observation it
/// was last given. It stands in for an external oracle wherever one is
/// needed in-process, chiefly in tests that drive option exercise.
pub struct MyPriceFeed {
    /// The most recent observation, if any has been recorded.
    pub last: Option<PriceData>,
}

impl MyPriceFeed {
    /// A feed with no observation yet: `lastprice` reports `None`.
    pub fn new() -> (r: Self)
        ensures
            r.last is None,
    {
        MyPriceFeed { last: None }
    }

    /// Record a new observation, replacing any earlier one.
    pub fn set_price(&mut self, observation: PriceData)
        ensures
            final(self).last == Some(observation),
    {
        self.last = Some(observation);
    }

    /// The last recorded observation. The feed quotes a single asset, so
    /// the asset identifier does not select among histories.
    pub fn lastprice(&self, _asset: u64) -> (r: Option<PriceData>)
        ensures
            r == self.last,
    {
        self.last
    }
}

} // verus!
