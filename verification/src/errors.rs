//! Failure taxonomy of the lending engine. Every failure is terminal for the
//! single operation that raised it; no partial state is ever committed.

use vstd::prelude::*;

verus! {

/// Reason an operation was refused.
#[derive(Clone, Copy, Debug, PartialEq, Eq, Structural)]
pub enum Error {
    /// The caller lacks the role the operation demands.
    Unauthorized,
    /// The relevant pause flag is set for this market.
    Paused,
    /// A zero amount, or a piece of configuration that was never set.
    InvalidParam,
    /// The oracle's price is older than the configured staleness window.
    PriceStale,
    /// The oracle holds no price for the asset.
    PriceMissing,
    /// An intermediate or final value does not fit its 128-bit field.
    MathOverflow,
    /// The pool does not hold enough underlying cash.
    InsufficientLiquidity,
    /// A borrow or supply cap would be exceeded.
    BorrowTooLarge,
    /// The position would be, or remain, undercollateralized.
    HealthFactorTooLow,
    /// A degenerate liquidation that would repay nothing.
    LiquidationTooLarge,
    /// The asset is not registered.
    MarketNotFound,
    /// The asset is already registered.
    MarketAlreadyRegistered,
    /// The account's balance is smaller than the requested amount.
    InsufficientBalance,
    /// The borrower's position is healthy enough that it cannot be seized.
    NotLiquidatable,
}

} // verus!
