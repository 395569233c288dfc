//! Events that operations hand back to the host for emission. Each carries
//! the literal amounts and state involved, precisely enough to reconstruct
//! ledger history by replay; the engine never consumes them.

use vstd::prelude::*;

verus! {

/// An asset was registered with its market, receipt token and oracle.
#[derive(Clone, Copy, Debug, PartialEq, Eq, Structural)]
pub struct MarketRegistered {
    pub asset: u64,
    pub market: u64,
    pub a_token: u64,
    pub oracle: u64,
}

/// A market was switched on or off.
#[derive(Clone, Copy, Debug, PartialEq, Eq, Structural)]
pub struct MarketActiveUpdated {
    pub asset: u64,
    pub is_active: bool,
}

/// A market's pause gates were rewritten.
#[derive(Clone, Copy, Debug, PartialEq, Eq, Structural)]
pub struct PauseFlagsUpdated {
    pub asset: u64,
    pub supply_paused: bool,
    pub borrow_paused: bool,
    pub withdraw_paused: bool,
    pub repay_paused: bool,
    pub liquidation_paused: bool,
}

/// The oracle recorded a fresh price for an asset.
#[derive(Clone, Copy, Debug, PartialEq, Eq, Structural)]
pub struct PriceUpdated {
    pub asset: u64,
    pub price: u128,
    pub timestamp: u64,
}

/// A market's interest rate model was replaced.
#[derive(Clone, Copy, Debug, PartialEq, Eq, Structural)]
pub struct RateModelUpdated {
    pub base_rate_per_sec: u128,
    pub slope_rate_per_sec: u128,
}

/// A market's risk parameters were replaced.
#[derive(Clone, Copy, Debug, PartialEq, Eq, Structural)]
pub struct RiskParamsUpdated {
    pub collateral_factor: u128,
    pub liquidation_threshold: u128,
    pub close_factor: u128,
    pub liquidation_bonus: u128,
    pub reserve_factor: u128,
    pub borrow_cap: u128,
    pub supply_cap: u128,
}

/// Snapshot of a market's ledger fields and instantaneous rates.
#[derive(Clone, Copy, Debug, PartialEq, Eq, Structural)]
pub struct MarketStateUpdated {
    pub cash: u128,
    pub total_borrows: u128,
    pub total_reserves: u128,
    pub supply_index: u128,
    pub borrow_index: u128,
    pub utilization: u128,
    pub supply_rate_per_sec: u128,
    pub borrow_rate_per_sec: u128,
    pub timestamp: u64,
}

/// Underlying entered the pool and receipt tokens were minted one-for-one.
#[derive(Clone, Copy, Debug, PartialEq, Eq, Structural)]
pub struct Deposit {
    pub account: u64,
    pub amount: u128,
}

/// Receipt tokens were burned and underlying left the pool.
#[derive(Clone, Copy, Debug, PartialEq, Eq, Structural)]
pub struct Withdraw {
    pub account: u64,
    pub amount: u128,
}

/// Underlying was lent out against the caller's receipt-token collateral.
#[derive(Clone, Copy, Debug, PartialEq, Eq, Structural)]
pub struct Borrow {
    pub account: u64,
    pub amount: u128,
}

/// Debt was repaid; the amount is the clamped figure actually pulled.
#[derive(Clone, Copy, Debug, PartialEq, Eq, Structural)]
pub struct Repay {
    pub account: u64,
    pub amount: u128,
}

/// An undercollateralized position was partially closed.
#[derive(Clone, Copy, Debug, PartialEq, Eq, Structural)]
pub struct Liquidate {
    pub borrower: u64,
    pub liquidator: u64,
    pub repay_amount: u128,
    pub seize_amount: u128,
}

} // verus!
