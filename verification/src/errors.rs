use vstd::prelude::*;

verus! {

/// Every way a venue operation can fail. Each operation's contract states
/// exactly which of these it returns, and on which inputs; no operation
/// commits any state change when it returns an error.
#[derive(Clone, Copy, Debug, PartialEq, Eq, Structural)]
pub enum OptionsError {
    /// An operation that needs an admin ran before `initialize`.
    NotInitialized,
    /// `initialize` was called a second time.
    AlreadyInitialized,
    /// The caller is not the admin recorded at initialization.
    Unauthorized,
    /// A non-positive amount, share count or strike was supplied.
    InvalidAmount,
    /// A withdrawal or collateral reservation exceeds the unlocked part of
    /// the pool's liquidity.
    InsufficientLiquidity,
    /// No option carries the given identifier.
    OptionNotFound,
    /// The option is no longer `Active`.
    OptionNotActive,
    /// Exercise after expiry, purchase with a past expiry, or expiry called
    /// while the option is still live.
    OptionExpired,
    /// Exercise attempted by someone other than the recorded buyer.
    NotOptionOwner,
    /// Reserved by the error table; no operation currently returns it.
    NotInTheMoney,
    /// The provider holds fewer shares than the withdrawal asks for.
    InsufficientShares,
    /// No pool carries the given identifier.
    PoolNotFound,
    /// The pool exists but trading on it is disabled.
    PoolNotActive,
    /// A pool for this (settlement asset, underlying asset) pair already exists.
    PoolAlreadyExists,
    /// The price feed had no observation to report.
    InvalidPrice,
    /// A fixed-point multiply-divide chain, or an identifier counter, would
    /// exceed its integer range.
    ArithmeticOverflow,
}

} // verus!
