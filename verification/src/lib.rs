//! Accounting and lifecycle core of a pooled, cash-settled American-style
//! options venue. Independent collateral pools, funded by depositors and
//! denominated in one settlement asset each, issue fully collateralized
//! options on one underlying asset. The core keeps proportional-share
//! liquidity accounting, enforces that locked collateral never exceeds pool
//! liquidity, and drives each option's `Active -> Exercised | Expired`
//! state machine, including the fixed-point premium and payoff arithmetic.
//!
//! Storage, caller authentication, token transfers, the price oracle and the
//! clock are external collaborators: operations take the values those
//! collaborators produced (caller identity, current timestamp, last quoted
//! price) as plain arguments, and report the transfers the embedding must
//! perform through their results.

pub mod errors;
pub mod math;
pub mod types;
pub mod sums;
pub mod contract;
pub mod feed;
pub mod laws;

pub use crate::contract::OptionsContract;
pub use crate::errors::OptionsError;
pub use crate::feed::MyPriceFeed;
pub use crate::types::{LpShare, OptionData, OptionType, PoolData, PoolLedger, PriceData};
