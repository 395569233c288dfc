//! Plain-value data model of the pool: parameter records, pause flags and
//! oracle readings. Amounts and WAD-scaled fractions are 128-bit unsigned
//! integers; accounts, assets and contracts are named by 64-bit identifiers;
//! timestamps are milliseconds.

use vstd::prelude::*;

verus! {

/// Milliseconds since an arbitrary origin, as the host's clock reports it.
pub type Timestamp = u64;

/// Interest rate model: borrow_rate = base + slope * utilization, all
/// WAD-scaled per-second rates.
#[derive(Clone, Copy, Debug, PartialEq, Eq, Structural)]
pub struct RateModel {
    pub base_rate_per_sec: u128,
    pub slope_rate_per_sec: u128,
}

impl Default for RateModel {
    /// Zero rates: no interest accrues under the default model.
    fn default() -> (r: Self)
        ensures
            r.base_rate_per_sec == 0,
            r.slope_rate_per_sec == 0,
    {
        RateModel { base_rate_per_sec: 0, slope_rate_per_sec: 0 }
    }
}

/// Risk parameters: WAD-scaled fractions, except the two caps, which are
/// absolute amounts with zero meaning uncapped.
#[derive(Clone, Copy, Debug, PartialEq, Eq, Structural)]
pub struct RiskParams {
    pub collateral_factor: u128,
    pub liquidation_threshold: u128,
    pub close_factor: u128,
    pub liquidation_bonus: u128,
    pub reserve_factor: u128,
    pub borrow_cap: u128,
    pub supply_cap: u128,
}

impl Default for RiskParams {
    /// All factors and caps zero: nothing may be borrowed and no cap binds.
    fn default() -> (r: Self)
        ensures
            r.collateral_factor == 0,
            r.liquidation_threshold == 0,
            r.close_factor == 0,
            r.liquidation_bonus == 0,
            r.reserve_factor == 0,
            r.borrow_cap == 0,
            r.supply_cap == 0,
    {
        RiskParams {
            collateral_factor: 0,
            liquidation_threshold: 0,
            close_factor: 0,
            liquidation_bonus: 0,
            reserve_factor: 0,
            borrow_cap: 0,
            supply_cap: 0,
        }
    }
}

/// Independent gates over the five state-changing operations of a market.
#[derive(Clone, Copy, Debug, PartialEq, Eq, Structural)]
pub struct PauseFlags {
    pub supply_paused: bool,
    pub borrow_paused: bool,
    pub withdraw_paused: bool,
    pub repay_paused: bool,
    pub liquidation_paused: bool,
}

/// A price reading: WAD-scaled value of one underlying unit, and when the
/// oracle last updated it.
#[derive(Clone, Copy, Debug, PartialEq, Eq, Structural)]
pub struct OraclePrice {
    pub price: u128,
    pub last_updated: Timestamp,
}

/// The contracts serving one registered asset.
#[derive(Clone, Copy, Debug, PartialEq, Eq, Structural)]
pub struct MarketAddresses {
    pub market: u64,
    pub a_token: u64,
    pub oracle: u64,
}

} // verus!
