use vstd::prelude::*;

verus! {

/// Whether an option pays off when the spot price ends up above the strike
/// (a call) or below it (a put).
#[derive(Clone, Copy, Debug, PartialEq, Eq, Structural)]
pub enum OptionType {
    Call,
    Put,
}

/// One collateral pool: identity and configuration. Assets, feeds and
/// principals are carried as plain numeric identifiers; resolving them to
/// on-ledger addresses is the embedding's concern, not the core's.
#[derive(Debug)]
pub struct PoolData {
    /// Identifier of the pool; equal to its position in creation order.
    pub pool_id: u64,
    /// Settlement asset: premiums, deposits and payoffs move in this token.
    pub stable_token: u64,
    /// The asset whose price the pool writes options on.
    pub underlying_asset: u64,
    /// The oracle feed that quotes the underlying asset.
    pub price_feed: u64,
    /// Human-readable label, e.g. a trading-pair name.
    pub name: String,
    /// Pools can be paused by the admin; a paused pool accepts no deposits,
    /// withdrawals or purchases.
    pub is_active: bool,
}

impl Clone for PoolData {
    fn clone(&self) -> (r: Self)
        ensures
            r.pool_id == self.pool_id,
            r.stable_token == self.stable_token,
            r.underlying_asset == self.underlying_asset,
            r.price_feed == self.price_feed,
            r.name@ == self.name@,
            r.is_active == self.is_active,
    {
        PoolData {
            pool_id: self.pool_id,
            stable_token: self.stable_token,
            underlying_asset: self.underlying_asset,
            price_feed: self.price_feed,
            name: self.name.clone(),
            is_active: self.is_active,
        }
    }
}

/// Aggregate accounting for one pool. All quantities are 7-decimal
/// fixed-point amounts of the settlement asset, except `total_lp_shares`,
/// which counts proportional claims.
#[derive(Clone, Copy, Debug)]
pub struct PoolLedger {
    /// Depositor capital currently credited to the pool.
    pub total_liquidity: i128,
    /// The part of `total_liquidity` reserved against live options.
    pub locked_collateral: i128,
    /// Outstanding provider shares over the whole pool.
    pub total_lp_shares: i128,
}

/// One provider's share balance in one pool.
#[derive(Clone, Copy, Debug)]
pub struct LpShare {
    pub pool_id: u64,
    pub provider: u64,
    pub shares: i128,
}

/// One issued option. `is_active` starts true; exercise and expiry each
/// clear it exactly once and release `collateral` back to the pool.
#[derive(Clone, Copy, Debug)]
pub struct OptionData {
    /// The pool whose collateral backs this option.
    pub pool_id: u64,
    /// The principal that bought, and alone may exercise, the option.
    pub buyer: u64,
    pub opt_type: OptionType,
    /// Strike price, 7-decimal fixed point.
    pub strike: i128,
    /// Latest timestamp at which exercise is still allowed.
    pub expiry: u64,
    /// Contract size, 7-decimal fixed point.
    pub amount: i128,
    /// Premium collected from the buyer at purchase.
    pub premium_paid: i128,
    /// Collateral reserved from the pool for this option's lifetime.
    pub collateral: i128,
    /// True once the option has been exercised.
    pub is_exercised: bool,
    /// True while the option is live; false once exercised or expired.
    pub is_active: bool,
}

/// A price observation, as an oracle feed reports it.
#[derive(Clone, Copy, Debug, PartialEq, Eq, Structural)]
pub struct PriceData {
    /// Last traded price, 7-decimal fixed point.
    pub price: i128,
    /// When the observation was taken.
    pub timestamp: u64,
}

} // verus!
