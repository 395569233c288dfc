//! Lending market for a single asset: interest accrual, solvency checks and
//! the five state-changing operations. The market is a pure state machine:
//! the host hands in the caller, the block time, the oracle reading and the
//! pause flags, and every operation either returns its event with the state
//! advanced, or an error with the state exactly as it was.

use vstd::prelude::*;

use crate::a_token::AToken;
use crate::balances::BalanceMap;
use crate::errors::Error;
use crate::events::{
    Borrow, Deposit, Liquidate, MarketStateUpdated, RateModelUpdated, Repay,
    RiskParamsUpdated, Withdraw,
};
use crate::math::{
    pow2_128, utilization_rate, utilization_spec, wad_mul, wad_mul_val,
    WAD_U128,
};
use crate::price_oracle::PriceOracle;
use crate::types::{PauseFlags, RateModel, RiskParams};

verus! {

/// The scalar ledger fields of a market, the part of its state that the
/// accrual step and the solvency rules read and write.
#[derive(Clone, Copy, Debug, PartialEq, Eq, Structural)]
pub struct MarketCore {
    pub rate_model: RateModel,
    pub risk_params: RiskParams,
    pub cash: u128,
    pub total_borrows: u128,
    pub total_reserves: u128,
    pub supply_index: u128,
    pub borrow_index: u128,
    pub last_accrual: u64,
}

/// What one accrual step leaves behind, and the interest it charged.
#[derive(Clone, Copy, Debug, PartialEq, Eq, Structural)]
pub struct AccrualOutcome {
    pub total_borrows: u128,
    pub total_reserves: u128,
    pub supply_index: u128,
    pub borrow_index: u128,
    pub last_accrual: u64,
    pub interest: u128,
}

/// The accrual outcome that changes nothing.
pub open spec fn accrual_noop(core: MarketCore) -> AccrualOutcome {
    AccrualOutcome {
        total_borrows: core.total_borrows,
        total_reserves: core.total_reserves,
        supply_index: core.supply_index,
        borrow_index: core.borrow_index,
        last_accrual: core.last_accrual,
        interest: 0u128,
    }
}

/// A core with an accrual outcome written into it.
pub open spec fn apply_accrual(core: MarketCore, acc: AccrualOutcome)
    -> MarketCore {
    MarketCore {
        rate_model: core.rate_model,
        risk_params: core.risk_params,
        cash: core.cash,
        total_borrows: acc.total_borrows,
        total_reserves: acc.total_reserves,
        supply_index: acc.supply_index,
        borrow_index: acc.borrow_index,
        last_accrual: acc.last_accrual,
    }
}

/// Borrow rate per second: base + slope * utilization, WAD-scaled.
pub open spec fn borrow_rate_spec(rm: RateModel, cash: u128, borrows: u128,
    reserves: u128) -> Result<u128, Error> {
    match utilization_spec(cash, borrows, reserves) {
        Err(e) => Err(e),
        Ok(util) => {
            let slope_part = wad_mul_val(rm.slope_rate_per_sec as int,
                util as int);
            if slope_part >= pow2_128() {
                Err(Error::MathOverflow)
            } else if rm.base_rate_per_sec + slope_part >= pow2_128() {
                Err(Error::MathOverflow)
            } else {
                Ok((rm.base_rate_per_sec + slope_part) as u128)
            }
        },
    }
}

/// Supply rate per second: borrow_rate * utilization * (1 - reserve_factor).
pub open spec fn supply_rate_spec(rm: RateModel, rp: RiskParams, cash: u128,
    borrows: u128, reserves: u128) -> Result<u128, Error> {
    match utilization_spec(cash, borrows, reserves) {
        Err(e) => Err(e),
        Ok(util) => match borrow_rate_spec(rm, cash, borrows, reserves) {
            Err(e) => Err(e),
            Ok(br) => {
                let gross = wad_mul_val(br as int, util as int);
                if gross >= pow2_128() {
                    Err(Error::MathOverflow)
                } else if rp.reserve_factor > WAD_U128 {
                    Err(Error::MathOverflow)
                } else {
                    let net = wad_mul_val(gross,
                        WAD_U128 - rp.reserve_factor);
                    if net >= pow2_128() {
                        Err(Error::MathOverflow)
                    } else {
                        Ok(net as u128)
                    }
                }
            },
        },
    }
}

/// The market snapshot emitted after an operation, over the core it leaves.
pub open spec fn snapshot_spec(core: MarketCore, now: u64)
    -> Result<MarketStateUpdated, Error> {
    match utilization_spec(core.cash, core.total_borrows, core.total_reserves) {
        Err(e) => Err(e),
        Ok(util) => match borrow_rate_spec(core.rate_model, core.cash,
            core.total_borrows, core.total_reserves) {
            Err(e) => Err(e),
            Ok(br) => match supply_rate_spec(core.rate_model,
                core.risk_params, core.cash, core.total_borrows,
                core.total_reserves) {
                Err(e) => Err(e),
                Ok(sr) => Ok(MarketStateUpdated {
                    cash: core.cash,
                    total_borrows: core.total_borrows,
                    total_reserves: core.total_reserves,
                    supply_index: core.supply_index,
                    borrow_index: core.borrow_index,
                    utilization: util,
                    supply_rate_per_sec: sr,
                    borrow_rate_per_sec: br,
                    timestamp: now,
                }),
            },
        },
    }
}

/// Whether the accrual step at `now` runs its interest math, rather than
/// returning at one of its no-op gates.
pub open spec fn accrual_runs(core: MarketCore, now: u64) -> bool {
    &&& now > core.last_accrual
    &&& (now - core.last_accrual) as int / 1000 >= 1
    &&& core.total_borrows != 0
}

/// Time-segmented compounding: what the accrual step at `now` does to the
/// core's ledger fields. Fails only with `MathOverflow`.
pub open spec fn accrue_spec(core: MarketCore, now: u64)
    -> Result<AccrualOutcome, Error> {
    if now <= core.last_accrual {
        Ok(accrual_noop(core))
    } else {
        let delta = (now - core.last_accrual) as int / 1000;
        if delta == 0 {
            Ok(accrual_noop(core))
        } else if core.total_borrows == 0 {
            Ok(AccrualOutcome { last_accrual: now, ..accrual_noop(core) })
        } else {
            match borrow_rate_spec(core.rate_model, core.cash,
                core.total_borrows, core.total_reserves) {
                Err(e) => Err(e),
                Ok(br) => {
                    let ifactor = br * delta;
                    if ifactor >= pow2_128() {
                        Err(Error::MathOverflow)
                    } else {
                        let interest = wad_mul_val(core.total_borrows as int,
                            ifactor);
                        if interest >= pow2_128() {
                            Err(Error::MathOverflow)
                        } else if core.total_borrows + interest
                            >= pow2_128() {
                            Err(Error::MathOverflow)
                        } else {
                            accrue_spec_tail(core, now, delta, ifactor,
                                interest)
                        }
                    }
                }
            }
        }
    }
}

/// Rest of the accrual step, once the interest itself is known to fit:
/// reserves, both indices, and the supply-side rate over the updated
/// utilization.
pub open spec fn accrue_spec_tail(core: MarketCore, now: u64, delta: int,
    ifactor: int, interest: int) -> Result<AccrualOutcome, Error> {
    let new_borrows = core.total_borrows + interest;
    let reserve_add = wad_mul_val(interest, core.risk_params.reserve_factor as int);
    if reserve_add >= pow2_128() {
        Err(Error::MathOverflow)
    } else if core.total_reserves + reserve_add >= pow2_128() {
        Err(Error::MathOverflow)
    } else if WAD_U128 + ifactor >= pow2_128() {
        Err(Error::MathOverflow)
    } else {
        let new_borrow_index = wad_mul_val(core.borrow_index as int,
            WAD_U128 + ifactor);
        if new_borrow_index >= pow2_128() {
            Err(Error::MathOverflow)
        } else {
            match supply_rate_spec(core.rate_model, core.risk_params,
                core.cash, new_borrows as u128,
                (core.total_reserves + reserve_add) as u128) {
                Err(e) => Err(e),
                Ok(sr) => {
                    let sfactor = sr * delta;
                    if sfactor >= pow2_128() {
                        Err(Error::MathOverflow)
                    } else if WAD_U128 + sfactor >= pow2_128() {
                        Err(Error::MathOverflow)
                    } else {
                        let new_supply_index = wad_mul_val(
                            core.supply_index as int, WAD_U128 + sfactor);
                        if new_supply_index >= pow2_128() {
                            Err(Error::MathOverflow)
                        } else {
                            Ok(AccrualOutcome {
                                total_borrows: new_borrows as u128,
                                total_reserves: (core.total_reserves
                                    + reserve_add) as u128,
                                supply_index: new_supply_index as u128,
                                borrow_index: new_borrow_index as u128,
                                last_accrual: now,
                                interest: interest as u128,
                            })
                        }
                    }
                }
            }
        }
    }
}

/// Computes the borrow rate per second for the given ledger fields.
fn borrow_rate_of(rm: RateModel, cash: u128, borrows: u128, reserves: u128)
    -> (r: Result<u128, Error>)
    ensures
        r == borrow_rate_spec(rm, cash, borrows, reserves),
{
    let util = match utilization_rate(cash, borrows, reserves) {
        Ok(v) => v,
        Err(e) => {
            return Err(e);
        },
    };
    let slope_part = match wad_mul(rm.slope_rate_per_sec, util) {
        Ok(v) => v,
        Err(e) => {
            return Err(e);
        },
    };
    match rm.base_rate_per_sec.checked_add(slope_part) {
        Some(v) => Ok(v),
        None => Err(Error::MathOverflow),
    }
}

/// Computes the supply rate per second for the given ledger fields.
fn supply_rate_of(rm: RateModel, rp: RiskParams, cash: u128, borrows: u128,
    reserves: u128) -> (r: Result<u128, Error>)
    ensures
        r == supply_rate_spec(rm, rp, cash, borrows, reserves),
{
    let util = match utilization_rate(cash, borrows, reserves) {
        Ok(v) => v,
        Err(e) => {
            return Err(e);
        },
    };
    let br = match borrow_rate_of(rm, cash, borrows, reserves) {
        Ok(v) => v,
        Err(e) => {
            return Err(e);
        },
    };
    let gross = match wad_mul(br, util) {
        Ok(v) => v,
        Err(e) => {
            return Err(e);
        },
    };
    if rp.reserve_factor > WAD_U128 {
        return Err(Error::MathOverflow);
    }
    let keep = WAD_U128 - rp.reserve_factor;
    match wad_mul(gross, keep) {
        Ok(v) => Ok(v),
        Err(e) => Err(e),
    }
}

/// Computes the snapshot event for the given core.
fn compute_snapshot(core: MarketCore, now: u64)
    -> (r: Result<MarketStateUpdated, Error>)
    ensures
        r == snapshot_spec(core, now),
{
    let util = match utilization_rate(core.cash, core.total_borrows,
        core.total_reserves) {
        Ok(v) => v,
        Err(e) => {
            return Err(e);
        },
    };
    let br = match borrow_rate_of(core.rate_model, core.cash,
        core.total_borrows, core.total_reserves) {
        Ok(v) => v,
        Err(e) => {
            return Err(e);
        },
    };
    let sr = match supply_rate_of(core.rate_model, core.risk_params,
        core.cash, core.total_borrows, core.total_reserves) {
        Ok(v) => v,
        Err(e) => {
            return Err(e);
        },
    };
    Ok(MarketStateUpdated {
        cash: core.cash,
        total_borrows: core.total_borrows,
        total_reserves: core.total_reserves,
        supply_index: core.supply_index,
        borrow_index: core.borrow_index,
        utilization: util,
        supply_rate_per_sec: sr,
        borrow_rate_per_sec: br,
        timestamp: now,
    })
}

/// Lending market for a single asset.
///
/// The per-account debt ledger lives in `borrow_balances`; its recorded
/// total is `core.total_borrows`, which also absorbs accrued interest.
pub struct LendingMarket {
    pub admin: u64,
    pub asset: u64,
    pub a_token: u64,
    pub oracle: u64,
    pub registry: u64,
    pub address: u64,
    pub core: MarketCore,
    pub borrow_balances: BalanceMap,
}

impl LendingMarket {
    /// The debt ledger is well formed.
    pub open spec fn wf(&self) -> bool {
        self.borrow_balances.wf()
    }

    /// The recorded total debt equals the sum of all per-account balances.
    /// Holds after every operation whose accrual step charged no interest;
    /// accrued interest raises the total without touching the per-account
    /// entries.
    pub open spec fn debt_consistent(&self) -> bool {
        self.core.total_borrows as int == self.borrow_balances.spec_sum()
    }

    /// The identities the market was wired with.
    pub open spec fn same_wiring(&self, other: &LendingMarket) -> bool {
        &&& self.admin == other.admin
        &&& self.asset == other.asset
        &&& self.a_token == other.a_token
        &&& self.oracle == other.oracle
        &&& self.registry == other.registry
        &&& self.address == other.address
    }

    /// Creates a market with both indices at 1.0, an empty ledger, and the
    /// accrual clock started at `now`.
    pub fn init(admin: u64, asset: u64, a_token: u64, oracle: u64,
        registry: u64, address: u64, rate_model: RateModel,
        risk_params: RiskParams, now: u64) -> (r: Self)
        ensures
            r.wf(),
            r.debt_consistent(),
            r.admin == admin,
            r.asset == asset,
            r.a_token == a_token,
            r.oracle == oracle,
            r.registry == registry,
            r.address == address,
            r.core.rate_model == rate_model,
            r.core.risk_params == risk_params,
            r.core.cash == 0,
            r.core.total_borrows == 0,
            r.core.total_reserves == 0,
            r.core.supply_index == WAD_U128,
            r.core.borrow_index == WAD_U128,
            r.core.last_accrual == now,
            forall|a: u64| r.spec_borrow_balance(a) == 0,
    {
        LendingMarket {
            admin,
            asset,
            a_token,
            oracle,
            registry,
            address,
            core: MarketCore {
                rate_model,
                risk_params,
                cash: 0,
                total_borrows: 0,
                total_reserves: 0,
                supply_index: WAD_U128,
                borrow_index: WAD_U128,
                last_accrual: now,
            },
            borrow_balances: BalanceMap::new(),
        }
    }

    /// The debt recorded for an account.
    pub open spec fn spec_borrow_balance(&self, account: u64) -> u128 {
        self.borrow_balances.spec_get(account)
    }

    /// Pure view of what the accrual step at `now` would leave.
    fn accrued(&self, now: u64) -> (r: Result<AccrualOutcome, Error>)
        ensures
            r == accrue_spec(self.core, now),
    {
        let c = self.core;
        if now <= c.last_accrual {
            return Ok(AccrualOutcome {
                total_borrows: c.total_borrows,
                total_reserves: c.total_reserves,
                supply_index: c.supply_index,
                borrow_index: c.borrow_index,
                last_accrual: c.last_accrual,
                interest: 0,
            });
        }
        let delta_secs: u64 = (now - c.last_accrual) / 1000;
        if delta_secs == 0 {
            return Ok(AccrualOutcome {
                total_borrows: c.total_borrows,
                total_reserves: c.total_reserves,
                supply_index: c.supply_index,
                borrow_index: c.borrow_index,
                last_accrual: c.last_accrual,
                interest: 0,
            });
        }
        if c.total_borrows == 0 {
            return Ok(AccrualOutcome {
                total_borrows: c.total_borrows,
                total_reserves: c.total_reserves,
                supply_index: c.supply_index,
                borrow_index: c.borrow_index,
                last_accrual: now,
                interest: 0,
            });
        }
        let br = match borrow_rate_of(c.rate_model, c.cash, c.total_borrows,
            c.total_reserves) {
            Ok(v) => v,
            Err(e) => {
                return Err(e);
            },
        };
        let ifactor = match br.checked_mul(delta_secs as u128) {
            Some(v) => v,
            None => {
                return Err(Error::MathOverflow);
            },
        };
        let interest = match wad_mul(c.total_borrows, ifactor) {
            Ok(v) => v,
            Err(e) => {
                return Err(e);
            },
        };
        let new_borrows = match c.total_borrows.checked_add(interest) {
            Some(v) => v,
            None => {
                return Err(Error::MathOverflow);
            },
        };
        let reserve_add = match wad_mul(interest,
            c.risk_params.reserve_factor) {
            Ok(v) => v,
            Err(e) => {
                return Err(e);
            },
        };
        let new_reserves = match c.total_reserves.checked_add(reserve_add) {
            Some(v) => v,
            None => {
                return Err(Error::MathOverflow);
            },
        };
        let bif = match WAD_U128.checked_add(ifactor) {
            Some(v) => v,
            None => {
                return Err(Error::MathOverflow);
            },
        };
        let new_borrow_index = match wad_mul(c.borrow_index, bif) {
            Ok(v) => v,
            Err(e) => {
                return Err(e);
            },
        };
        let sr = match supply_rate_of(c.rate_model, c.risk_params, c.cash,
            new_borrows, new_reserves) {
            Ok(v) => v,
            Err(e) => {
                return Err(e);
            },
        };
        let sfactor = match sr.checked_mul(delta_secs as u128) {
            Some(v) => v,
            None => {
                return Err(Error::MathOverflow);
            },
        };
        let sif = match WAD_U128.checked_add(sfactor) {
            Some(v) => v,
            None => {
                return Err(Error::MathOverflow);
            },
        };
        let new_supply_index = match wad_mul(c.supply_index, sif) {
            Ok(v) => v,
            Err(e) => {
                return Err(e);
            },
        };
        Ok(AccrualOutcome {
            total_borrows: new_borrows,
            total_reserves: new_reserves,
            supply_index: new_supply_index,
            borrow_index: new_borrow_index,
            last_accrual: now,
            interest,
        })
    }

    /// Runs the accrual step: charges interest for the whole seconds since
    /// the last accrual, moving both indices, the total debt and the
    /// reserves. Returns the snapshot event when the interest math ran,
    /// `None` when the step was a no-op gate; on error the market is
    /// unchanged.
    pub fn accrue_interest(&mut self, now: u64)
        -> (r: Result<Option<MarketStateUpdated>, Error>)
        requires
            old(self).wf(),
        ensures
            final(self).wf(),
            final(self).same_wiring(old(self)),
            final(self).borrow_balances == old(self).borrow_balances,
            match r {
                Ok(opt) => {
                    &&& accrue_spec(old(self).core, now) is Ok
                    &&& final(self).core == apply_accrual(old(self).core,
                        accrue_spec(old(self).core, now)->Ok_0)
                    &&& if accrual_runs(old(self).core, now) {
                        opt == Some(snapshot_spec(final(self).core, now)->Ok_0)
                            && snapshot_spec(final(self).core, now) is Ok
                    } else {
                        opt is None
                    }
                },
                Err(e) => {
                    &&& accrue_spec(old(self).core, now) == Err::<AccrualOutcome,
                        Error>(e)
                    &&& *final(self) == *old(self)
                },
            },
    {
        let c = self.core;
        let acc = match self.accrued(now) {
            Ok(a) => a,
            Err(e) => {
                return Err(e);
            },
        };
        let ran: bool = now > c.last_accrual && (now - c.last_accrual) / 1000
            >= 1 && c.total_borrows != 0;
        self.core = MarketCore {
            rate_model: c.rate_model,
            risk_params: c.risk_params,
            cash: c.cash,
            total_borrows: acc.total_borrows,
            total_reserves: acc.total_reserves,
            supply_index: acc.supply_index,
            borrow_index: acc.borrow_index,
            last_accrual: acc.last_accrual,
        };
        if ran {
            match compute_snapshot(self.core, now) {
                Ok(snap) => Ok(Some(snap)),
                Err(e) => {
                    proof {
                        lemma_accrual_snapshot_ok(c, now);
                    }
                    Err(e)
                },
            }
        } else {
            Ok(None)
        }
    }

    /// Snapshot of the market's ledger fields and instantaneous rates.
    pub fn market_snapshot(&self, now: u64)
        -> (r: Result<MarketStateUpdated, Error>)
        ensures
            r == snapshot_spec(self.core, now),
    {
        compute_snapshot(self.core, now)
    }

    /// Underlying held by the pool.
    pub fn get_cash(&self) -> (r: u128)
        ensures
            r == self.core.cash,
    {
        self.core.cash
    }

    /// The WAD-scaled borrow-side compounding accumulator.
    pub fn get_borrow_index(&self) -> (r: u128)
        ensures
            r == self.core.borrow_index,
    {
        self.core.borrow_index
    }

    /// The WAD-scaled supply-side compounding accumulator.
    pub fn get_supply_index(&self) -> (r: u128)
        ensures
            r == self.core.supply_index,
    {
        self.core.supply_index
    }

    /// Outstanding debt across all accounts, interest included.
    pub fn get_total_borrows(&self) -> (r: u128)
        ensures
            r == self.core.total_borrows,
    {
        self.core.total_borrows
    }

    /// Interest set aside for the protocol.
    pub fn get_total_reserves(&self) -> (r: u128)
        ensures
            r == self.core.total_reserves,
    {
        self.core.total_reserves
    }

    /// The debt recorded for one account.
    pub fn get_borrow_balance(&self, owner: u64) -> (r: u128)
        ensures
            r == self.spec_borrow_balance(owner),
    {
        self.borrow_balances.get(owner)
    }

    /// The interest rate model in force.
    pub fn get_rate_model(&self) -> (r: RateModel)
        ensures
            r == self.core.rate_model,
    {
        self.core.rate_model
    }

    /// The risk parameters in force.
    pub fn get_risk_params(&self) -> (r: RiskParams)
        ensures
            r == self.core.risk_params,
    {
        self.core.risk_params
    }

    /// Current utilization of the pool's liquidity.
    pub fn get_utilization(&self) -> (r: Result<u128, Error>)
        ensures
            r == utilization_spec(self.core.cash, self.core.total_borrows,
                self.core.total_reserves),
    {
        utilization_rate(self.core.cash, self.core.total_borrows,
            self.core.total_reserves)
    }

    /// Current borrow rate per second.
    pub fn get_borrow_rate_per_sec(&self) -> (r: Result<u128, Error>)
        ensures
            r == borrow_rate_spec(self.core.rate_model, self.core.cash,
                self.core.total_borrows, self.core.total_reserves),
    {
        borrow_rate_of(self.core.rate_model, self.core.cash,
            self.core.total_borrows, self.core.total_reserves)
    }

    /// Current supply rate per second.
    pub fn get_supply_rate_per_sec(&self) -> (r: Result<u128, Error>)
        ensures
            r == supply_rate_spec(self.core.rate_model, self.core.risk_params,
                self.core.cash, self.core.total_borrows,
                self.core.total_reserves),
    {
        supply_rate_of(self.core.rate_model, self.core.risk_params,
            self.core.cash, self.core.total_borrows, self.core.total_reserves)
    }

    /// Points the market at another receipt token; the admin only.
    pub fn set_a_token(&mut self, caller: u64, a_token: u64)
        -> (r: Result<(), Error>)
        requires
            old(self).wf(),
        ensures
            final(self).wf(),
            match r {
                Ok(()) => caller == old(self).admin
                    && *final(self) == (LendingMarket {
                        a_token,
                        ..*old(self)
                    }),
                Err(e) => e == Error::Unauthorized
                    && caller != old(self).admin
                    && *final(self) == *old(self),
            },
    {
        if caller != self.admin {
            return Err(Error::Unauthorized);
        }
        self.a_token = a_token;
        Ok(())
    }

    /// Points the market at another registry; the admin only.
    pub fn set_registry(&mut self, caller: u64, registry: u64)
        -> (r: Result<(), Error>)
        requires
            old(self).wf(),
        ensures
            final(self).wf(),
            match r {
                Ok(()) => caller == old(self).admin
                    && *final(self) == (LendingMarket {
                        registry,
                        ..*old(self)
                    }),
                Err(e) => e == Error::Unauthorized
                    && caller != old(self).admin
                    && *final(self) == *old(self),
            },
    {
        if caller != self.admin {
            return Err(Error::Unauthorized);
        }
        self.registry = registry;
        Ok(())
    }

    /// Replaces the interest rate model; the admin or the registry only.
    pub fn set_rate_model(&mut self, caller: u64, base_rate_per_sec: u128,
        slope_rate_per_sec: u128) -> (r: Result<RateModelUpdated, Error>)
        requires
            old(self).wf(),
        ensures
            final(self).wf(),
            match r {
                Ok(ev) => {
                    &&& caller == old(self).admin
                        || caller == old(self).registry
                    &&& *final(self) == (LendingMarket {
                        core: MarketCore {
                            rate_model: RateModel {
                                base_rate_per_sec,
                                slope_rate_per_sec,
                            },
                            ..old(self).core
                        },
                        ..*old(self)
                    })
                    &&& ev == (RateModelUpdated {
                        base_rate_per_sec,
                        slope_rate_per_sec,
                    })
                },
                Err(e) => e == Error::Unauthorized
                    && caller != old(self).admin
                    && caller != old(self).registry
                    && *final(self) == *old(self),
            },
    {
        if caller != self.admin && caller != self.registry {
            return Err(Error::Unauthorized);
        }
        self.core = MarketCore {
            rate_model: RateModel { base_rate_per_sec, slope_rate_per_sec },
            risk_params: self.core.risk_params,
            cash: self.core.cash,
            total_borrows: self.core.total_borrows,
            total_reserves: self.core.total_reserves,
            supply_index: self.core.supply_index,
            borrow_index: self.core.borrow_index,
            last_accrual: self.core.last_accrual,
        };
        Ok(RateModelUpdated { base_rate_per_sec, slope_rate_per_sec })
    }

    /// Replaces the risk parameters; the admin or the registry only.
    pub fn set_risk_params(&mut self, caller: u64, collateral_factor: u128,
        liquidation_threshold: u128, close_factor: u128,
        liquidation_bonus: u128, reserve_factor: u128, borrow_cap: u128,
        supply_cap: u128) -> (r: Result<RiskParamsUpdated, Error>)
        requires
            old(self).wf(),
        ensures
            final(self).wf(),
            match r {
                Ok(ev) => {
                    &&& caller == old(self).admin
                        || caller == old(self).registry
                    &&& *final(self) == (LendingMarket {
                        core: MarketCore {
                            risk_params: RiskParams {
                                collateral_factor,
                                liquidation_threshold,
                                close_factor,
                                liquidation_bonus,
                                reserve_factor,
                                borrow_cap,
                                supply_cap,
                            },
                            ..old(self).core
                        },
                        ..*old(self)
                    })
                    &&& ev == (RiskParamsUpdated {
                        collateral_factor,
                        liquidation_threshold,
                        close_factor,
                        liquidation_bonus,
                        reserve_factor,
                        borrow_cap,
                        supply_cap,
                    })
                },
                Err(e) => e == Error::Unauthorized
                    && caller != old(self).admin
                    && caller != old(self).registry
                    && *final(self) == *old(self),
            },
    {
        if caller != self.admin && caller != self.registry {
            return Err(Error::Unauthorized);
        }
        self.core = MarketCore {
            rate_model: self.core.rate_model,
            risk_params: RiskParams {
                collateral_factor,
                liquidation_threshold,
                close_factor,
                liquidation_bonus,
                reserve_factor,
                borrow_cap,
                supply_cap,
            },
            cash: self.core.cash,
            total_borrows: self.core.total_borrows,
            total_reserves: self.core.total_reserves,
            supply_index: self.core.supply_index,
            borrow_index: self.core.borrow_index,
            last_accrual: self.core.last_accrual,
        };
        Ok(RiskParamsUpdated {
            collateral_factor,
            liquidation_threshold,
            close_factor,
            liquidation_bonus,
            reserve_factor,
            borrow_cap,
            supply_cap,
        })
    }

    /// How far an account is from its liquidation threshold, from a fresh
    /// oracle read; 1.0 exactly for a debt-free account.
    pub fn health_factor(&self, a_token: &AToken, oracle: &PriceOracle,
        owner: u64, now: u64) -> (r: Result<u128, Error>)
        ensures
            r == match oracle.checked_price_spec(self.asset, now) {
                Err(e) => Err::<u128, Error>(e),
                Ok(p) => health_factor_spec(a_token.spec_balance_of(owner),
                    self.spec_borrow_balance(owner), p,
                    self.core.risk_params.liquidation_threshold),
            },
    {
        let price = match oracle.get_price_checked(self.asset, now) {
            Ok(p) => p,
            Err(e) => {
                return Err(e);
            },
        };
        let collateral = a_token.balance_of(owner);
        let collateral_value = match wad_mul(collateral, price) {
            Ok(v) => v,
            Err(e) => {
                return Err(e);
            },
        };
        let debt = self.borrow_balances.get(owner);
        if debt == 0 {
            return Ok(WAD_U128);
        }
        let borrow_value = match wad_mul(debt, price) {
            Ok(v) => v,
            Err(e) => {
                return Err(e);
            },
        };
        let threshold_value = match wad_mul(collateral_value,
            self.core.risk_params.liquidation_threshold) {
            Ok(v) => v,
            Err(e) => {
                return Err(e);
            },
        };
        if borrow_value == 0 {
            return Err(Error::MathOverflow);
        }
        wad_mul(threshold_value, WAD_U128 / borrow_value)
    }

    /// Whether the account's debt value exceeds its thresholded collateral
    /// value, from a fresh oracle read.
    pub fn is_liquidatable(&self, a_token: &AToken, oracle: &PriceOracle,
        owner: u64, now: u64) -> (r: Result<bool, Error>)
        ensures
            r == match oracle.checked_price_spec(self.asset, now) {
                Err(e) => Err::<bool, Error>(e),
                Ok(p) => liquidatable_spec(a_token.spec_balance_of(owner),
                    self.spec_borrow_balance(owner), p,
                    self.core.risk_params.liquidation_threshold),
            },
    {
        let price = match oracle.get_price_checked(self.asset, now) {
            Ok(p) => p,
            Err(e) => {
                return Err(e);
            },
        };
        let collateral = a_token.balance_of(owner);
        let debt = self.borrow_balances.get(owner);
        liquidatable_of(collateral, debt, price,
            self.core.risk_params.liquidation_threshold)
    }

    /// Pulls `amount` of underlying into the pool and mints receipt tokens
    /// one-for-one to the caller. The host must move the underlying
    /// (`transfer_from` caller to pool) exactly when this returns `Ok`.
    pub fn deposit(&mut self, a_token: &mut AToken, oracle: &PriceOracle,
        flags: &PauseFlags, caller: u64, amount: u128, now: u64)
        -> (r: Result<Deposit, Error>)
        requires
            old(self).wf(),
            old(a_token).wf(),
        ensures
            final(self).wf(),
            final(a_token).wf(),
            final(self).same_wiring(old(self)),
            final(a_token).market == old(a_token).market,
            final(a_token).name@ == old(a_token).name@,
            final(a_token).symbol@ == old(a_token).symbol@,
            final(a_token).decimals == old(a_token).decimals,
            ({
                let d = deposit_spec(old(self).core, flags.supply_paused,
                    oracle.checked_price_spec(old(self).asset, now),
                    old(self).address, old(a_token).market,
                    old(a_token).total_supply,
                    old(a_token).spec_balance_of(caller), amount, now);
                match r {
                    Ok(ev) => {
                        &&& d is Ok
                        &&& final(self).core == d->Ok_0.core
                        &&& final(self).borrow_balances
                            == old(self).borrow_balances
                        &&& final(a_token).total_supply == d->Ok_0.ledger_total
                        &&& final(a_token).spec_balance_of(caller)
                            == d->Ok_0.caller_bal
                        &&& forall|a: u64| a != caller
                            ==> final(a_token).spec_balance_of(a)
                                == old(a_token).spec_balance_of(a)
                        &&& ev == (Deposit { account: caller, amount })
                    },
                    Err(e) => {
                        &&& d == Err::<DepositOutcome, Error>(e)
                        &&& *final(self) == *old(self)
                        &&& *final(a_token) == *old(a_token)
                    },
                }
            }),
            r is Ok && old(self).debt_consistent()
                && accrue_spec(old(self).core, now)->Ok_0.interest == 0
                ==> final(self).debt_consistent(),
    {
        if amount == 0 {
            return Err(Error::InvalidParam);
        }
        if flags.supply_paused {
            return Err(Error::Paused);
        }
        let acc = match self.accrued(now) {
            Ok(a) => a,
            Err(e) => {
                return Err(e);
            },
        };
        match oracle.get_price_checked(self.asset, now) {
            Ok(_) => (),
            Err(e) => {
                return Err(e);
            },
        };
        let total_supply = a_token.total_supply();
        if self.core.risk_params.supply_cap != 0 {
            let projected = match total_supply.checked_add(amount) {
                Some(v) => v,
                None => {
                    return Err(Error::MathOverflow);
                },
            };
            if projected > self.core.risk_params.supply_cap {
                return Err(Error::BorrowTooLarge);
            }
        }
        let new_cash = match self.core.cash.checked_add(amount) {
            Some(v) => v,
            None => {
                return Err(Error::MathOverflow);
            },
        };
        if a_token.get_market() != self.address {
            return Err(Error::Unauthorized);
        }
        if total_supply > u128::MAX - amount {
            return Err(Error::MathOverflow);
        }
        let c3 = MarketCore {
            rate_model: self.core.rate_model,
            risk_params: self.core.risk_params,
            cash: new_cash,
            total_borrows: acc.total_borrows,
            total_reserves: acc.total_reserves,
            supply_index: acc.supply_index,
            borrow_index: acc.borrow_index,
            last_accrual: acc.last_accrual,
        };
        match compute_snapshot(c3, now) {
            Ok(_) => (),
            Err(e) => {
                return Err(e);
            },
        };
        match a_token.mint(self.address, caller, amount) {
            Ok(()) => (),
            Err(_) => {
                // dead branch: the authority and overflow checks above are
                // exactly the mint's failure conditions
                proof {
                    assert(false);
                }
                return Err(Error::Unauthorized);
            },
        };
        self.core = c3;
        Ok(Deposit { account: caller, amount })
    }

    /// Burns the caller's receipt tokens and releases `amount` of
    /// underlying, refusing when the remaining position would be
    /// liquidatable. The host must transfer the underlying out exactly when
    /// this returns `Ok`.
    pub fn withdraw(&mut self, a_token: &mut AToken, oracle: &PriceOracle,
        flags: &PauseFlags, caller: u64, amount: u128, now: u64)
        -> (r: Result<Withdraw, Error>)
        requires
            old(self).wf(),
            old(a_token).wf(),
        ensures
            final(self).wf(),
            final(a_token).wf(),
            final(self).same_wiring(old(self)),
            final(a_token).market == old(a_token).market,
            final(a_token).name@ == old(a_token).name@,
            final(a_token).symbol@ == old(a_token).symbol@,
            final(a_token).decimals == old(a_token).decimals,
            ({
                let d = withdraw_spec(old(self).core, flags.withdraw_paused,
                    oracle.checked_price_spec(old(self).asset, now),
                    old(self).address, old(a_token).market,
                    old(a_token).total_supply,
                    old(a_token).spec_balance_of(caller),
                    old(self).spec_borrow_balance(caller), amount, now);
                match r {
                    Ok(ev) => {
                        &&& d is Ok
                        &&& final(self).core == d->Ok_0.core
                        &&& final(self).borrow_balances
                            == old(self).borrow_balances
                        &&& final(a_token).total_supply == d->Ok_0.ledger_total
                        &&& final(a_token).spec_balance_of(caller)
                            == d->Ok_0.caller_bal
                        &&& forall|a: u64| a != caller
                            ==> final(a_token).spec_balance_of(a)
                                == old(a_token).spec_balance_of(a)
                        &&& ev == (Withdraw { account: caller, amount })
                    },
                    Err(e) => {
                        &&& d == Err::<WithdrawOutcome, Error>(e)
                        &&& *final(self) == *old(self)
                        &&& *final(a_token) == *old(a_token)
                    },
                }
            }),
            r is Ok && old(self).debt_consistent()
                && accrue_spec(old(self).core, now)->Ok_0.interest == 0
                ==> final(self).debt_consistent(),
    {
        if amount == 0 {
            return Err(Error::InvalidParam);
        }
        if flags.withdraw_paused {
            return Err(Error::Paused);
        }
        let acc = match self.accrued(now) {
            Ok(a) => a,
            Err(e) => {
                return Err(e);
            },
        };
        let price = match oracle.get_price_checked(self.asset, now) {
            Ok(p) => p,
            Err(e) => {
                return Err(e);
            },
        };
        let bal = a_token.balance_of(caller);
        if bal < amount {
            return Err(Error::InsufficientBalance);
        }
        if self.core.cash < amount {
            return Err(Error::InsufficientLiquidity);
        }
        if a_token.get_market() != self.address {
            return Err(Error::Unauthorized);
        }
        let new_bal = bal - amount;
        let debt = self.borrow_balances.get(caller);
        if debt > 0 {
            match liquidatable_of(new_bal, debt, price,
                self.core.risk_params.liquidation_threshold) {
                Ok(false) => (),
                Ok(true) => {
                    return Err(Error::HealthFactorTooLow);
                },
                Err(e) => {
                    return Err(e);
                },
            };
        }
        let c3 = MarketCore {
            rate_model: self.core.rate_model,
            risk_params: self.core.risk_params,
            cash: self.core.cash - amount,
            total_borrows: acc.total_borrows,
            total_reserves: acc.total_reserves,
            supply_index: acc.supply_index,
            borrow_index: acc.borrow_index,
            last_accrual: acc.last_accrual,
        };
        match compute_snapshot(c3, now) {
            Ok(_) => (),
            Err(e) => {
                return Err(e);
            },
        };
        match a_token.burn(self.address, caller, amount) {
            Ok(()) => (),
            Err(_) => {
                // dead branch: the authority and balance checks above are
                // exactly the burn's failure conditions
                proof {
                    assert(false);
                }
                return Err(Error::Unauthorized);
            },
        };
        self.core = c3;
        Ok(Withdraw { account: caller, amount })
    }

    /// Lends `amount` of underlying to the caller against the priced value
    /// of their receipt-token collateral. The host must transfer the
    /// underlying to the caller exactly when this returns `Ok`.
    pub fn borrow(&mut self, a_token: &AToken, oracle: &PriceOracle,
        flags: &PauseFlags, caller: u64, amount: u128, now: u64)
        -> (r: Result<Borrow, Error>)
        requires
            old(self).wf(),
        ensures
            final(self).wf(),
            final(self).same_wiring(old(self)),
            ({
                let d = borrow_spec(old(self).core, flags.borrow_paused,
                    oracle.checked_price_spec(old(self).asset, now),
                    a_token.spec_balance_of(caller),
                    old(self).spec_borrow_balance(caller), amount, now);
                match r {
                    Ok(ev) => {
                        &&& d is Ok
                        &&& final(self).core == d->Ok_0.core
                        &&& final(self).spec_borrow_balance(caller)
                            == d->Ok_0.caller_debt
                        &&& forall|a: u64| a != caller
                            ==> final(self).spec_borrow_balance(a)
                                == old(self).spec_borrow_balance(a)
                        &&& final(self).borrow_balances.spec_sum()
                            == old(self).borrow_balances.spec_sum() + amount
                        &&& ev == (Borrow { account: caller, amount })
                    },
                    Err(e) => {
                        &&& d == Err::<BorrowOutcome, Error>(e)
                        &&& *final(self) == *old(self)
                    },
                }
            }),
            r is Ok && old(self).debt_consistent()
                && accrue_spec(old(self).core, now)->Ok_0.interest == 0
                ==> final(self).debt_consistent(),
    {
        if amount == 0 {
            return Err(Error::InvalidParam);
        }
        if flags.borrow_paused {
            return Err(Error::Paused);
        }
        let acc = match self.accrued(now) {
            Ok(a) => a,
            Err(e) => {
                return Err(e);
            },
        };
        if self.core.cash < amount {
            return Err(Error::InsufficientLiquidity);
        }
        let price = match oracle.get_price_checked(self.asset, now) {
            Ok(p) => p,
            Err(e) => {
                return Err(e);
            },
        };
        let collateral = a_token.balance_of(caller);
        let collateral_value = match wad_mul(collateral, price) {
            Ok(v) => v,
            Err(e) => {
                return Err(e);
            },
        };
        let current = self.borrow_balances.get(caller);
        let new_borrow = match current.checked_add(amount) {
            Some(v) => v,
            None => {
                return Err(Error::MathOverflow);
            },
        };
        let borrow_value = match wad_mul(new_borrow, price) {
            Ok(v) => v,
            Err(e) => {
                return Err(e);
            },
        };
        let max_borrow = match wad_mul(collateral_value,
            self.core.risk_params.collateral_factor) {
            Ok(v) => v,
            Err(e) => {
                return Err(e);
            },
        };
        if borrow_value > max_borrow {
            return Err(Error::HealthFactorTooLow);
        }
        let new_total = match acc.total_borrows.checked_add(amount) {
            Some(v) => v,
            None => {
                return Err(Error::MathOverflow);
            },
        };
        if self.core.risk_params.borrow_cap != 0
            && new_total > self.core.risk_params.borrow_cap {
            return Err(Error::BorrowTooLarge);
        }
        let c3 = MarketCore {
            rate_model: self.core.rate_model,
            risk_params: self.core.risk_params,
            cash: self.core.cash - amount,
            total_borrows: new_total,
            total_reserves: acc.total_reserves,
            supply_index: acc.supply_index,
            borrow_index: acc.borrow_index,
            last_accrual: acc.last_accrual,
        };
        match compute_snapshot(c3, now) {
            Ok(_) => (),
            Err(e) => {
                return Err(e);
            },
        };
        self.borrow_balances.set(caller, new_borrow);
        self.core = c3;
        Ok(Borrow { account: caller, amount })
    }

    /// Repays the caller's debt, clamped to what they owe; with no debt the
    /// call is a no-op that still commits the accrual. The host must pull
    /// the repaid amount from the caller exactly when this returns
    /// `Ok(Some(_))`.
    pub fn repay(&mut self, oracle: &PriceOracle, caller: u64, amount: u128,
        now: u64) -> (r: Result<Option<Repay>, Error>)
        requires
            old(self).wf(),
        ensures
            final(self).wf(),
            final(self).same_wiring(old(self)),
            ({
                let d = repay_spec(old(self).core,
                    oracle.checked_price_spec(old(self).asset, now),
                    old(self).spec_borrow_balance(caller), amount, now);
                match r {
                    Ok(opt) => {
                        &&& d is Ok
                        &&& final(self).core == d->Ok_0.core
                        &&& final(self).spec_borrow_balance(caller)
                            == d->Ok_0.caller_debt
                        &&& forall|a: u64| a != caller
                            ==> final(self).spec_borrow_balance(a)
                                == old(self).spec_borrow_balance(a)
                        &&& final(self).borrow_balances.spec_sum()
                            == old(self).borrow_balances.spec_sum()
                                - d->Ok_0.repaid
                        &&& if d->Ok_0.repaid == 0 {
                            opt is None
                        } else {
                            opt == Some(Repay { account: caller,
                                amount: d->Ok_0.repaid })
                        }
                    },
                    Err(e) => {
                        &&& d == Err::<RepayOutcome, Error>(e)
                        &&& *final(self) == *old(self)
                    },
                }
            }),
            r is Ok && old(self).debt_consistent()
                && accrue_spec(old(self).core, now)->Ok_0.interest == 0
                ==> final(self).debt_consistent(),
    {
        if amount == 0 {
            return Err(Error::InvalidParam);
        }
        let acc = match self.accrued(now) {
            Ok(a) => a,
            Err(e) => {
                return Err(e);
            },
        };
        match oracle.get_price_checked(self.asset, now) {
            Ok(_) => (),
            Err(e) => {
                return Err(e);
            },
        };
        let current = self.borrow_balances.get(caller);
        if current == 0 {
            self.core = MarketCore {
                rate_model: self.core.rate_model,
                risk_params: self.core.risk_params,
                cash: self.core.cash,
                total_borrows: acc.total_borrows,
                total_reserves: acc.total_reserves,
                supply_index: acc.supply_index,
                borrow_index: acc.borrow_index,
                last_accrual: acc.last_accrual,
            };
            return Ok(None);
        }
        let pay = if amount > current {
            current
        } else {
            amount
        };
        if acc.total_borrows < pay {
            return Err(Error::MathOverflow);
        }
        let new_cash = match self.core.cash.checked_add(pay) {
            Some(v) => v,
            None => {
                return Err(Error::MathOverflow);
            },
        };
        let c3 = MarketCore {
            rate_model: self.core.rate_model,
            risk_params: self.core.risk_params,
            cash: new_cash,
            total_borrows: acc.total_borrows - pay,
            total_reserves: acc.total_reserves,
            supply_index: acc.supply_index,
            borrow_index: acc.borrow_index,
            last_accrual: acc.last_accrual,
        };
        match compute_snapshot(c3, now) {
            Ok(_) => (),
            Err(e) => {
                return Err(e);
            },
        };
        self.borrow_balances.set(caller, current - pay);
        self.core = c3;
        Ok(Some(Repay { account: caller, amount: pay }))
    }

    /// Closes part of an undercollateralized position: the caller repays up
    /// to close_factor of the borrower's debt and seizes the bonus-priced
    /// receipt tokens, capped at what the borrower holds. The host must
    /// pull the repaid amount from the caller exactly when this returns
    /// `Ok`.
    pub fn liquidate(&mut self, a_token: &mut AToken, oracle: &PriceOracle,
        flags: &PauseFlags, caller: u64, borrower: u64, repay_amount: u128,
        now: u64) -> (r: Result<Liquidate, Error>)
        requires
            old(self).wf(),
            old(a_token).wf(),
        ensures
            final(self).wf(),
            final(a_token).wf(),
            final(self).same_wiring(old(self)),
            final(a_token).market == old(a_token).market,
            final(a_token).name@ == old(a_token).name@,
            final(a_token).symbol@ == old(a_token).symbol@,
            final(a_token).decimals == old(a_token).decimals,
            final(a_token).total_supply == old(a_token).total_supply,
            ({
                let d = liquidate_spec(old(self).core,
                    flags.liquidation_paused,
                    oracle.checked_price_spec(old(self).asset, now),
                    old(self).address, old(a_token).market,
                    old(a_token).spec_balance_of(borrower),
                    old(self).spec_borrow_balance(borrower), repay_amount,
                    now);
                match r {
                    Ok(ev) => {
                        &&& d is Ok
                        &&& final(self).core == d->Ok_0.core
                        &&& final(self).spec_borrow_balance(borrower)
                            == d->Ok_0.borrower_debt
                        &&& forall|a: u64| a != borrower
                            ==> final(self).spec_borrow_balance(a)
                                == old(self).spec_borrow_balance(a)
                        &&& final(self).borrow_balances.spec_sum()
                            == old(self).borrow_balances.spec_sum()
                                - d->Ok_0.repay
                        &&& caller != borrower ==> {
                            &&& final(a_token).spec_balance_of(borrower)
                                == old(a_token).spec_balance_of(borrower)
                                    - d->Ok_0.seize
                            &&& final(a_token).spec_balance_of(caller)
                                == old(a_token).spec_balance_of(caller)
                                    + d->Ok_0.seize
                        }
                        &&& caller == borrower
                            ==> final(a_token).spec_balance_of(borrower)
                                == old(a_token).spec_balance_of(borrower)
                        &&& forall|a: u64| a != borrower && a != caller
                            ==> final(a_token).spec_balance_of(a)
                                == old(a_token).spec_balance_of(a)
                        &&& ev == (Liquidate { borrower, liquidator: caller,
                            repay_amount: d->Ok_0.repay,
                            seize_amount: d->Ok_0.seize })
                    },
                    Err(e) => {
                        &&& d == Err::<LiquidateOutcome, Error>(e)
                        &&& *final(self) == *old(self)
                        &&& *final(a_token) == *old(a_token)
                    },
                }
            }),
            r is Ok && old(self).debt_consistent()
                && accrue_spec(old(self).core, now)->Ok_0.interest == 0
                ==> final(self).debt_consistent(),
    {
        if repay_amount == 0 {
            return Err(Error::InvalidParam);
        }
        if flags.liquidation_paused {
            return Err(Error::Paused);
        }
        let acc = match self.accrued(now) {
            Ok(a) => a,
            Err(e) => {
                return Err(e);
            },
        };
        let price = match oracle.get_price_checked(self.asset, now) {
            Ok(p) => p,
            Err(e) => {
                return Err(e);
            },
        };
        let borrower_bal = a_token.balance_of(borrower);
        let debt = self.borrow_balances.get(borrower);
        match liquidatable_of(borrower_bal, debt, price,
            self.core.risk_params.liquidation_threshold) {
            Ok(true) => (),
            Ok(false) => {
                return Err(Error::NotLiquidatable);
            },
            Err(e) => {
                return Err(e);
            },
        };
        let max_repay = match wad_mul(debt,
            self.core.risk_params.close_factor) {
            Ok(v) => v,
            Err(e) => {
                return Err(e);
            },
        };
        let actual = if repay_amount > max_repay {
            max_repay
        } else {
            repay_amount
        };
        if actual == 0 {
            return Err(Error::LiquidationTooLarge);
        }
        let bonus_factor = match WAD_U128.checked_add(
            self.core.risk_params.liquidation_bonus) {
            Some(v) => v,
            None => {
                return Err(Error::MathOverflow);
            },
        };
        let seize = match wad_mul(actual, bonus_factor) {
            Ok(v) => v,
            Err(e) => {
                return Err(e);
            },
        };
        let seize_amount = if seize > borrower_bal {
            borrower_bal
        } else {
            seize
        };
        if debt < actual {
            return Err(Error::MathOverflow);
        }
        if acc.total_borrows < actual {
            return Err(Error::MathOverflow);
        }
        let new_cash = match self.core.cash.checked_add(actual) {
            Some(v) => v,
            None => {
                return Err(Error::MathOverflow);
            },
        };
        if a_token.get_market() != self.address {
            return Err(Error::Unauthorized);
        }
        let c3 = MarketCore {
            rate_model: self.core.rate_model,
            risk_params: self.core.risk_params,
            cash: new_cash,
            total_borrows: acc.total_borrows - actual,
            total_reserves: acc.total_reserves,
            supply_index: acc.supply_index,
            borrow_index: acc.borrow_index,
            last_accrual: acc.last_accrual,
        };
        match compute_snapshot(c3, now) {
            Ok(_) => (),
            Err(e) => {
                return Err(e);
            },
        };
        match a_token.burn(self.address, borrower, seize_amount) {
            Ok(()) => (),
            Err(_) => {
                proof {
                    assert(false);
                }
                return Err(Error::Unauthorized);
            },
        };
        match a_token.mint(self.address, caller, seize_amount) {
            Ok(()) => (),
            Err(_) => {
                proof {
                    assert(false);
                }
                return Err(Error::Unauthorized);
            },
        };
        self.borrow_balances.set(borrower, debt - actual);
        self.core = c3;
        Ok(Liquidate {
            borrower,
            liquidator: caller,
            repay_amount: actual,
            seize_amount,
        })
    }
}

/// Whether a position with the given collateral and debt is liquidatable
/// at the given price and threshold: debt value exceeds the thresholded
/// collateral value. Fails only with `MathOverflow`.
pub open spec fn liquidatable_spec(collateral: u128, debt: u128, price: u128,
    threshold: u128) -> Result<bool, Error> {
    let cv = wad_mul_val(collateral as int, price as int);
    if cv >= pow2_128() {
        Err(Error::MathOverflow)
    } else if debt == 0 {
        Ok(false)
    } else {
        let bv = wad_mul_val(debt as int, price as int);
        if bv >= pow2_128() {
            Err(Error::MathOverflow)
        } else {
            let tv = wad_mul_val(cv, threshold as int);
            if tv >= pow2_128() {
                Err(Error::MathOverflow)
            } else {
                Ok(bv > tv)
            }
        }
    }
}

/// How far a position is from its liquidation threshold, WAD-scaled:
/// 1.0 for a debt-free account, else
/// (collateral value * threshold) * (1.0 / debt value), each factor
/// half-up rounded. Fails with `MathOverflow` when a product does not fit
/// or the debt value rounds to zero.
pub open spec fn health_factor_spec(collateral: u128, debt: u128, price: u128,
    threshold: u128) -> Result<u128, Error> {
    let cv = wad_mul_val(collateral as int, price as int);
    if cv >= pow2_128() {
        Err(Error::MathOverflow)
    } else if debt == 0 {
        Ok(WAD_U128)
    } else {
        let bv = wad_mul_val(debt as int, price as int);
        if bv >= pow2_128() {
            Err(Error::MathOverflow)
        } else {
            let tv = wad_mul_val(cv, threshold as int);
            if tv >= pow2_128() {
                Err(Error::MathOverflow)
            } else if bv == 0 {
                Err(Error::MathOverflow)
            } else {
                let hf = wad_mul_val(tv, WAD_U128 as int / bv);
                if hf >= pow2_128() {
                    Err(Error::MathOverflow)
                } else {
                    Ok(hf as u128)
                }
            }
        }
    }
}

/// What a successful deposit leaves: the new core, and the receipt ledger's
/// new total and caller balance.
#[derive(Clone, Copy, Debug, PartialEq, Eq, Structural)]
pub struct DepositOutcome {
    pub core: MarketCore,
    pub ledger_total: u128,
    pub caller_bal: u128,
}

/// The deposit transition: pause and freshness gates, the supply cap, the
/// cash increment and the one-for-one mint, in the order the operation
/// checks them.
pub open spec fn deposit_spec(core: MarketCore, supply_paused: bool,
    price: Result<u128, Error>, market_addr: u64, ledger_market: u64,
    ledger_total: u128, caller_bal: u128, amount: u128, now: u64)
    -> Result<DepositOutcome, Error> {
    if amount == 0 {
        Err(Error::InvalidParam)
    } else if supply_paused {
        Err(Error::Paused)
    } else {
        match accrue_spec(core, now) {
            Err(e) => Err(e),
            Ok(acc) => match price {
                Err(e) => Err(e),
                Ok(_) => {
                    let c2 = apply_accrual(core, acc);
                    if c2.risk_params.supply_cap != 0
                        && ledger_total + amount >= pow2_128() {
                        Err(Error::MathOverflow)
                    } else if c2.risk_params.supply_cap != 0
                        && ledger_total + amount > c2.risk_params.supply_cap {
                        Err(Error::BorrowTooLarge)
                    } else if c2.cash + amount >= pow2_128() {
                        Err(Error::MathOverflow)
                    } else if market_addr != ledger_market {
                        Err(Error::Unauthorized)
                    } else if ledger_total + amount >= pow2_128() {
                        Err(Error::MathOverflow)
                    } else {
                        let c3 = MarketCore {
                            cash: (c2.cash + amount) as u128,
                            ..c2
                        };
                        match snapshot_spec(c3, now) {
                            Err(e) => Err(e),
                            Ok(_) => Ok(DepositOutcome {
                                core: c3,
                                ledger_total: (ledger_total + amount) as u128,
                                caller_bal: (caller_bal + amount) as u128,
                            }),
                        }
                    }
                },
            },
        }
    }
}

/// What a successful withdrawal leaves.
#[derive(Clone, Copy, Debug, PartialEq, Eq, Structural)]
pub struct WithdrawOutcome {
    pub core: MarketCore,
    pub ledger_total: u128,
    pub caller_bal: u128,
}

/// The withdraw transition: pause and freshness gates, receipt balance and
/// pool liquidity, then the health of what remains after the burn.
pub open spec fn withdraw_spec(core: MarketCore, withdraw_paused: bool,
    price: Result<u128, Error>, market_addr: u64, ledger_market: u64,
    ledger_total: u128, caller_bal: u128, caller_debt: u128, amount: u128,
    now: u64) -> Result<WithdrawOutcome, Error> {
    if amount == 0 {
        Err(Error::InvalidParam)
    } else if withdraw_paused {
        Err(Error::Paused)
    } else {
        match accrue_spec(core, now) {
            Err(e) => Err(e),
            Ok(acc) => match price {
                Err(e) => Err(e),
                Ok(p) => {
                    let c2 = apply_accrual(core, acc);
                    if caller_bal < amount {
                        Err(Error::InsufficientBalance)
                    } else if c2.cash < amount {
                        Err(Error::InsufficientLiquidity)
                    } else if market_addr != ledger_market {
                        Err(Error::Unauthorized)
                    } else {
                        let new_bal = (caller_bal - amount) as u128;
                        let blocked = if caller_debt > 0 {
                            liquidatable_spec(new_bal, caller_debt, p,
                                c2.risk_params.liquidation_threshold)
                        } else {
                            Ok(false)
                        };
                        match blocked {
                            Err(e) => Err(e),
                            Ok(true) => Err(Error::HealthFactorTooLow),
                            Ok(false) => {
                                let c3 = MarketCore {
                                    cash: (c2.cash - amount) as u128,
                                    ..c2
                                };
                                match snapshot_spec(c3, now) {
                                    Err(e) => Err(e),
                                    Ok(_) => Ok(WithdrawOutcome {
                                        core: c3,
                                        ledger_total: (ledger_total
                                            - amount) as u128,
                                        caller_bal: new_bal,
                                    }),
                                }
                            },
                        }
                    }
                },
            },
        }
    }
}

/// What a successful borrow leaves.
#[derive(Clone, Copy, Debug, PartialEq, Eq, Structural)]
pub struct BorrowOutcome {
    pub core: MarketCore,
    pub caller_debt: u128,
}

/// The borrow transition: pause gate, pool liquidity, the loan-to-value
/// check of the grown position against the priced collateral, and the
/// borrow cap.
pub open spec fn borrow_spec(core: MarketCore, borrow_paused: bool,
    price: Result<u128, Error>, collateral: u128, caller_debt: u128,
    amount: u128, now: u64) -> Result<BorrowOutcome, Error> {
    if amount == 0 {
        Err(Error::InvalidParam)
    } else if borrow_paused {
        Err(Error::Paused)
    } else {
        match accrue_spec(core, now) {
            Err(e) => Err(e),
            Ok(acc) => {
                let c2 = apply_accrual(core, acc);
                if c2.cash < amount {
                    Err(Error::InsufficientLiquidity)
                } else {
                    match price {
                        Err(e) => Err(e),
                        Ok(p) => borrow_spec_checked(c2, p, collateral,
                            caller_debt, amount, now),
                    }
                }
            },
        }
    }
}

/// Rest of the borrow transition, after the accrual, liquidity and price
/// gates have passed.
pub open spec fn borrow_spec_checked(c2: MarketCore, p: u128,
    collateral: u128, caller_debt: u128, amount: u128, now: u64)
    -> Result<BorrowOutcome, Error> {
    let cv = wad_mul_val(collateral as int, p as int);
    if cv >= pow2_128() {
        Err(Error::MathOverflow)
    } else if caller_debt + amount >= pow2_128() {
        Err(Error::MathOverflow)
    } else {
        let bv = wad_mul_val(caller_debt + amount, p as int);
        if bv >= pow2_128() {
            Err(Error::MathOverflow)
        } else {
            let max_borrow = wad_mul_val(cv,
                c2.risk_params.collateral_factor as int);
            if max_borrow >= pow2_128() {
                Err(Error::MathOverflow)
            } else if bv > max_borrow {
                Err(Error::HealthFactorTooLow)
            } else if c2.total_borrows + amount >= pow2_128() {
                Err(Error::MathOverflow)
            } else if c2.risk_params.borrow_cap != 0
                && c2.total_borrows + amount > c2.risk_params.borrow_cap {
                Err(Error::BorrowTooLarge)
            } else {
                let c3 = MarketCore {
                    total_borrows: (c2.total_borrows + amount) as u128,
                    cash: (c2.cash - amount) as u128,
                    ..c2
                };
                match snapshot_spec(c3, now) {
                    Err(e) => Err(e),
                    Ok(_) => Ok(BorrowOutcome {
                        core: c3,
                        caller_debt: (caller_debt + amount) as u128,
                    }),
                }
            }
        }
    }
}

/// What a repayment leaves: the new core, the caller's remaining debt and
/// the amount actually pulled (zero for the debt-free no-op).
#[derive(Clone, Copy, Debug, PartialEq, Eq, Structural)]
pub struct RepayOutcome {
    pub core: MarketCore,
    pub caller_debt: u128,
    pub repaid: u128,
}

/// The repay transition: freshness gate first, then the debt-free no-op
/// (which still keeps the committed accrual), else the clamped repayment.
pub open spec fn repay_spec(core: MarketCore, price: Result<u128, Error>,
    caller_debt: u128, amount: u128, now: u64) -> Result<RepayOutcome, Error> {
    if amount == 0 {
        Err(Error::InvalidParam)
    } else {
        match accrue_spec(core, now) {
            Err(e) => Err(e),
            Ok(acc) => match price {
                Err(e) => Err(e),
                Ok(_) => {
                    let c2 = apply_accrual(core, acc);
                    if caller_debt == 0 {
                        Ok(RepayOutcome {
                            core: c2,
                            caller_debt: 0u128,
                            repaid: 0u128,
                        })
                    } else {
                        let pay = if amount > caller_debt {
                            caller_debt
                        } else {
                            amount
                        };
                        if c2.total_borrows < pay {
                            Err(Error::MathOverflow)
                        } else if c2.cash + pay >= pow2_128() {
                            Err(Error::MathOverflow)
                        } else {
                            let c3 = MarketCore {
                                total_borrows: (c2.total_borrows
                                    - pay) as u128,
                                cash: (c2.cash + pay) as u128,
                                ..c2
                            };
                            match snapshot_spec(c3, now) {
                                Err(e) => Err(e),
                                Ok(_) => Ok(RepayOutcome {
                                    core: c3,
                                    caller_debt: (caller_debt - pay) as u128,
                                    repaid: pay,
                                }),
                            }
                        }
                    }
                },
            },
        }
    }
}

/// What a successful liquidation leaves.
#[derive(Clone, Copy, Debug, PartialEq, Eq, Structural)]
pub struct LiquidateOutcome {
    pub core: MarketCore,
    pub borrower_debt: u128,
    pub repay: u128,
    pub seize: u128,
}

/// The liquidate transition: pause and freshness gates, the liquidatability
/// test, the close-factor clamp, and the bonus-priced seizure capped at the
/// borrower's receipt balance.
pub open spec fn liquidate_spec(core: MarketCore, liquidation_paused: bool,
    price: Result<u128, Error>, market_addr: u64, ledger_market: u64,
    borrower_bal: u128, borrower_debt: u128, repay_amount: u128, now: u64)
    -> Result<LiquidateOutcome, Error> {
    if repay_amount == 0 {
        Err(Error::InvalidParam)
    } else if liquidation_paused {
        Err(Error::Paused)
    } else {
        match accrue_spec(core, now) {
            Err(e) => Err(e),
            Ok(acc) => match price {
                Err(e) => Err(e),
                Ok(p) => {
                    let c2 = apply_accrual(core, acc);
                    match liquidatable_spec(borrower_bal, borrower_debt, p,
                        c2.risk_params.liquidation_threshold) {
                        Err(e) => Err(e),
                        Ok(false) => Err(Error::NotLiquidatable),
                        Ok(true) => liquidate_spec_checked(c2, market_addr,
                            ledger_market, borrower_bal, borrower_debt,
                            repay_amount, now),
                    }
                },
            },
        }
    }
}

/// Rest of the liquidate transition, once the position is known seizable.
pub open spec fn liquidate_spec_checked(c2: MarketCore, market_addr: u64,
    ledger_market: u64, borrower_bal: u128, borrower_debt: u128,
    repay_amount: u128, now: u64) -> Result<LiquidateOutcome, Error> {
    let max_repay = wad_mul_val(borrower_debt as int,
        c2.risk_params.close_factor as int);
    if max_repay >= pow2_128() {
        Err(Error::MathOverflow)
    } else {
        let actual = if repay_amount > max_repay {
            max_repay
        } else {
            repay_amount as int
        };
        if actual == 0 {
            Err(Error::LiquidationTooLarge)
        } else if WAD_U128 + c2.risk_params.liquidation_bonus >= pow2_128() {
            Err(Error::MathOverflow)
        } else {
            let seize = wad_mul_val(actual,
                WAD_U128 + c2.risk_params.liquidation_bonus);
            if seize >= pow2_128() {
                Err(Error::MathOverflow)
            } else {
                let seized = if seize > borrower_bal {
                    borrower_bal as int
                } else {
                    seize
                };
                if borrower_debt < actual {
                    Err(Error::MathOverflow)
                } else if c2.total_borrows < actual {
                    Err(Error::MathOverflow)
                } else if c2.cash + actual >= pow2_128() {
                    Err(Error::MathOverflow)
                } else if market_addr != ledger_market {
                    Err(Error::Unauthorized)
                } else {
                    let c3 = MarketCore {
                        total_borrows: (c2.total_borrows - actual) as u128,
                        cash: (c2.cash + actual) as u128,
                        ..c2
                    };
                    match snapshot_spec(c3, now) {
                        Err(e) => Err(e),
                        Ok(_) => Ok(LiquidateOutcome {
                            core: c3,
                            borrower_debt: (borrower_debt - actual) as u128,
                            repay: actual as u128,
                            seize: seized as u128,
                        }),
                    }
                }
            }
        }
    }
}

/// Whether a position is liquidatable at the given price and threshold.
fn liquidatable_of(collateral: u128, debt: u128, price: u128, threshold: u128)
    -> (r: Result<bool, Error>)
    ensures
        r == liquidatable_spec(collateral, debt, price, threshold),
{
    let cv = match wad_mul(collateral, price) {
        Ok(v) => v,
        Err(e) => {
            return Err(e);
        },
    };
    if debt == 0 {
        return Ok(false);
    }
    let bv = match wad_mul(debt, price) {
        Ok(v) => v,
        Err(e) => {
            return Err(e);
        },
    };
    let tv = match wad_mul(cv, threshold) {
        Ok(v) => v,
        Err(e) => {
            return Err(e);
        },
    };
    Ok(bv > tv)
}

/// After an accrual step whose interest math ran, the snapshot over the
/// updated core succeeds: the step's own supply-rate computation already
/// exercised every piece the snapshot needs.
proof fn lemma_accrual_snapshot_ok(core: MarketCore, now: u64)
    requires
        accrue_spec(core, now) is Ok,
        accrual_runs(core, now),
    ensures
        snapshot_spec(apply_accrual(core, accrue_spec(core, now)->Ok_0), now)
            is Ok,
{
}

} // verus!
