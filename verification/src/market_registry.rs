//! Registry of isolated markets and their shared configuration: which
//! assets are registered, their contract addresses, per-market pause flags
//! and active switches, and the administrator and guardian sets that may
//! change them. Parameter updates triggered through the registry funnel
//! into the market's own setter under the registry's identity.

use vstd::prelude::*;

use crate::errors::Error;
use crate::events::{
    MarketActiveUpdated, MarketRegistered, PauseFlagsUpdated,
    RateModelUpdated, RiskParamsUpdated,
};
use crate::kvstore::KeyedStore;
use crate::lending_market::{LendingMarket, MarketCore};
use crate::types::{MarketAddresses, PauseFlags, RateModel, RiskParams};

verus! {

/// Everything the registry records for one asset.
#[derive(Clone, Copy, Debug, PartialEq, Eq, Structural)]
pub struct MarketInfo {
    pub addresses: MarketAddresses,
    pub active: bool,
    pub flags: PauseFlags,
}

/// The pause flags a market starts with: nothing paused.
pub open spec fn default_flags() -> PauseFlags {
    PauseFlags {
        supply_paused: false,
        borrow_paused: false,
        withdraw_paused: false,
        repay_paused: false,
        liquidation_paused: false,
    }
}

/// Registry of markets, keyed by asset identity.
pub struct MarketRegistry {
    pub address: u64,
    pub admins: Vec<u64>,
    pub guardians: Vec<u64>,
    pub markets: KeyedStore<MarketInfo>,
}

impl MarketRegistry {
    /// The market store and both role lists are well formed.
    pub open spec fn wf(&self) -> bool {
        &&& self.markets.wf()
        &&& forall|i: int, j: int| 0 <= i < j < self.admins@.len()
            ==> self.admins@[i] != self.admins@[j]
        &&& forall|i: int, j: int| 0 <= i < j < self.guardians@.len()
            ==> self.guardians@[i] != self.guardians@[j]
    }

    /// Whether the account is a protocol administrator.
    pub open spec fn is_admin(&self, account: u64) -> bool {
        self.admins@.contains(account)
    }

    /// Whether the account is a guardian.
    pub open spec fn is_guardian(&self, account: u64) -> bool {
        self.guardians@.contains(account)
    }

    /// The record for an asset, if it is registered.
    pub open spec fn spec_market_of(&self, asset: u64) -> Option<MarketInfo> {
        self.markets.spec_get(asset)
    }

    /// Creates a registry at the given address with one administrator.
    pub fn init(address: u64, admin: u64) -> (r: Self)
        ensures
            r.wf(),
            r.address == address,
            r.is_admin(admin),
            forall|a: u64| a != admin ==> !r.is_admin(a),
            forall|a: u64| !r.is_guardian(a),
            forall|asset: u64| r.spec_market_of(asset) is None,
            r.markets.pairs@.len() == 0,
    {
        let mut admins: Vec<u64> = Vec::new();
        admins.push(admin);
        proof {
            assert(admins@ =~= seq![admin]);
            assert(admins@[0] == admin);
        }
        MarketRegistry {
            address,
            admins,
            guardians: Vec::new(),
            markets: KeyedStore::new(),
        }
    }

    /// Whether the account is a protocol administrator.
    pub fn has_protocol_admin(&self, account: u64) -> (r: bool)
        ensures
            r == self.is_admin(account),
    {
        contains_account(&self.admins, account)
    }

    /// Whether the account is a guardian.
    pub fn has_guardian(&self, account: u64) -> (r: bool)
        ensures
            r == self.is_guardian(account),
    {
        contains_account(&self.guardians, account)
    }

    /// Records an asset's market, receipt token and oracle; administrators
    /// only, and each asset at most once. The new market starts active with
    /// nothing paused.
    pub fn register_market(&mut self, caller: u64, asset: u64, market: u64,
        a_token: u64, oracle: u64) -> (r: Result<MarketRegistered, Error>)
        requires
            old(self).wf(),
        ensures
            final(self).wf(),
            final(self).address == old(self).address,
            final(self).admins@ == old(self).admins@,
            final(self).guardians@ == old(self).guardians@,
            match r {
                Ok(ev) => {
                    &&& old(self).is_admin(caller)
                    &&& old(self).spec_market_of(asset) is None
                    &&& final(self).spec_market_of(asset)
                        == Some(MarketInfo {
                            addresses: MarketAddresses {
                                market,
                                a_token,
                                oracle,
                            },
                            active: true,
                            flags: default_flags(),
                        })
                    &&& forall|a2: u64| a2 != asset
                        ==> final(self).spec_market_of(a2)
                            == old(self).spec_market_of(a2)
                    &&& final(self).markets.pairs@.len()
                        == old(self).markets.pairs@.len() + 1
                    &&& final(self).markets.pairs@[
                        old(self).markets.pairs@.len() as int].0 == asset
                    &&& forall|i: int| 0 <= i < old(self).markets.pairs@.len()
                        ==> final(self).markets.pairs@[i].0
                            == old(self).markets.pairs@[i].0
                    &&& ev == (MarketRegistered { asset, market, a_token,
                        oracle })
                },
                Err(e) => {
                    &&& *final(self) == *old(self)
                    &&& if !old(self).is_admin(caller) {
                        e == Error::Unauthorized
                    } else {
                        e == Error::MarketAlreadyRegistered
                            && old(self).spec_market_of(asset) is Some
                    }
                },
            },
    {
        if !self.has_protocol_admin(caller) {
            return Err(Error::Unauthorized);
        }
        match self.markets.get(asset) {
            Some(_) => {
                return Err(Error::MarketAlreadyRegistered);
            },
            None => (),
        };
        self.markets.set(asset, MarketInfo {
            addresses: MarketAddresses { market, a_token, oracle },
            active: true,
            flags: PauseFlags {
                supply_paused: false,
                borrow_paused: false,
                withdraw_paused: false,
                repay_paused: false,
                liquidation_paused: false,
            },
        });
        Ok(MarketRegistered { asset, market, a_token, oracle })
    }

    /// Switches a registered market on or off; administrators only.
    pub fn set_market_active(&mut self, caller: u64, asset: u64,
        is_active: bool) -> (r: Result<MarketActiveUpdated, Error>)
        requires
            old(self).wf(),
        ensures
            final(self).wf(),
            final(self).address == old(self).address,
            final(self).admins@ == old(self).admins@,
            final(self).guardians@ == old(self).guardians@,
            match r {
                Ok(ev) => {
                    &&& old(self).is_admin(caller)
                    &&& old(self).spec_market_of(asset) is Some
                    &&& final(self).spec_market_of(asset)
                        == Some(MarketInfo {
                            active: is_active,
                            ..old(self).spec_market_of(asset)->0
                        })
                    &&& forall|a2: u64| a2 != asset
                        ==> final(self).spec_market_of(a2)
                            == old(self).spec_market_of(a2)
                    &&& ev == (MarketActiveUpdated { asset, is_active })
                },
                Err(e) => {
                    &&& *final(self) == *old(self)
                    &&& if !old(self).is_admin(caller) {
                        e == Error::Unauthorized
                    } else {
                        e == Error::MarketNotFound
                            && old(self).spec_market_of(asset) is None
                    }
                },
            },
    {
        if !self.has_protocol_admin(caller) {
            return Err(Error::Unauthorized);
        }
        let info = match self.markets.get(asset) {
            Some(i) => i,
            None => {
                return Err(Error::MarketNotFound);
            },
        };
        self.markets.set(asset, MarketInfo { active: is_active, ..info });
        Ok(MarketActiveUpdated { asset, is_active })
    }

    /// Rewrites a registered market's pause gates; guardians or
    /// administrators.
    pub fn set_pause_flags(&mut self, caller: u64, asset: u64,
        supply_paused: bool, borrow_paused: bool, withdraw_paused: bool,
        repay_paused: bool, liquidation_paused: bool)
        -> (r: Result<PauseFlagsUpdated, Error>)
        requires
            old(self).wf(),
        ensures
            final(self).wf(),
            final(self).address == old(self).address,
            final(self).admins@ == old(self).admins@,
            final(self).guardians@ == old(self).guardians@,
            match r {
                Ok(ev) => {
                    &&& old(self).is_guardian(caller)
                        || old(self).is_admin(caller)
                    &&& old(self).spec_market_of(asset) is Some
                    &&& final(self).spec_market_of(asset)
                        == Some(MarketInfo {
                            flags: PauseFlags {
                                supply_paused,
                                borrow_paused,
                                withdraw_paused,
                                repay_paused,
                                liquidation_paused,
                            },
                            ..old(self).spec_market_of(asset)->0
                        })
                    &&& forall|a2: u64| a2 != asset
                        ==> final(self).spec_market_of(a2)
                            == old(self).spec_market_of(a2)
                    &&& ev == (PauseFlagsUpdated { asset, supply_paused,
                        borrow_paused, withdraw_paused, repay_paused,
                        liquidation_paused })
                },
                Err(e) => {
                    &&& *final(self) == *old(self)
                    &&& if !old(self).is_guardian(caller)
                        && !old(self).is_admin(caller) {
                        e == Error::Unauthorized
                    } else {
                        e == Error::MarketNotFound
                            && old(self).spec_market_of(asset) is None
                    }
                },
            },
    {
        if !self.has_guardian(caller) && !self.has_protocol_admin(caller) {
            return Err(Error::Unauthorized);
        }
        let info = match self.markets.get(asset) {
            Some(i) => i,
            None => {
                return Err(Error::MarketNotFound);
            },
        };
        self.markets.set(asset, MarketInfo {
            flags: PauseFlags {
                supply_paused,
                borrow_paused,
                withdraw_paused,
                repay_paused,
                liquidation_paused,
            },
            ..info
        });
        Ok(PauseFlagsUpdated {
            asset,
            supply_paused,
            borrow_paused,
            withdraw_paused,
            repay_paused,
            liquidation_paused,
        })
    }

    /// The contracts serving a registered asset.
    pub fn get_market_addresses(&self, asset: u64)
        -> (r: Result<MarketAddresses, Error>)
        ensures
            match r {
                Ok(a) => self.spec_market_of(asset) is Some
                    && a == self.spec_market_of(asset)->0.addresses,
                Err(e) => e == Error::MarketNotFound
                    && self.spec_market_of(asset) is None,
            },
    {
        match self.markets.get(asset) {
            Some(i) => Ok(i.addresses),
            None => Err(Error::MarketNotFound),
        }
    }

    /// The pause gates of a registered asset.
    pub fn get_pause_flags(&self, asset: u64)
        -> (r: Result<PauseFlags, Error>)
        ensures
            match r {
                Ok(f) => self.spec_market_of(asset) is Some
                    && f == self.spec_market_of(asset)->0.flags,
                Err(e) => e == Error::MarketNotFound
                    && self.spec_market_of(asset) is None,
            },
    {
        match self.markets.get(asset) {
            Some(i) => Ok(i.flags),
            None => Err(Error::MarketNotFound),
        }
    }

    /// Whether the asset's market is switched on; false when unregistered.
    pub fn is_market_active(&self, asset: u64) -> (r: bool)
        ensures
            r == match self.spec_market_of(asset) {
                Some(i) => i.active,
                None => false,
            },
    {
        match self.markets.get(asset) {
            Some(i) => i.active,
            None => false,
        }
    }

    /// How many assets are registered.
    pub fn get_market_count(&self) -> (r: u64)
        ensures
            r == self.markets.pairs@.len(),
    {
        self.markets.len() as u64
    }

    /// The asset registered in the given position.
    pub fn get_market_by_index(&self, index: u64) -> (r: Result<u64, Error>)
        ensures
            match r {
                Ok(a) => index < self.markets.pairs@.len()
                    && a == self.markets.pairs@[index as int].0,
                Err(e) => e == Error::MarketNotFound
                    && index >= self.markets.pairs@.len(),
            },
    {
        let n = self.markets.len();
        if index >= n as u64 {
            return Err(Error::MarketNotFound);
        }
        Ok(self.markets.key_at(index as usize))
    }

    /// Adds a protocol administrator; administrators only.
    pub fn grant_protocol_admin(&mut self, caller: u64, account: u64)
        -> (r: Result<(), Error>)
        requires
            old(self).wf(),
        ensures
            final(self).wf(),
            final(self).address == old(self).address,
            final(self).guardians@ == old(self).guardians@,
            final(self).markets == old(self).markets,
            match r {
                Ok(()) => {
                    &&& old(self).is_admin(caller)
                    &&& final(self).is_admin(account)
                    &&& forall|a2: u64| a2 != account
                        ==> final(self).is_admin(a2) == old(self).is_admin(a2)
                },
                Err(e) => *final(self) == *old(self)
                    && e == Error::Unauthorized
                    && !old(self).is_admin(caller),
            },
    {
        if !self.has_protocol_admin(caller) {
            return Err(Error::Unauthorized);
        }
        if contains_account(&self.admins, account) {
            return Ok(());
        }
        proof {
            push_keeps_memberships(self.admins@, account);
        }
        self.admins.push(account);
        Ok(())
    }

    /// Removes a protocol administrator; administrators only.
    pub fn revoke_protocol_admin(&mut self, caller: u64, account: u64)
        -> (r: Result<(), Error>)
        requires
            old(self).wf(),
        ensures
            final(self).wf(),
            final(self).address == old(self).address,
            final(self).guardians@ == old(self).guardians@,
            final(self).markets == old(self).markets,
            match r {
                Ok(()) => {
                    &&& old(self).is_admin(caller)
                    &&& !final(self).is_admin(account)
                    &&& forall|a2: u64| a2 != account
                        ==> final(self).is_admin(a2) == old(self).is_admin(a2)
                },
                Err(e) => *final(self) == *old(self)
                    && e == Error::Unauthorized
                    && !old(self).is_admin(caller),
            },
    {
        if !self.has_protocol_admin(caller) {
            return Err(Error::Unauthorized);
        }
        remove_account(&mut self.admins, account);
        Ok(())
    }

    /// Adds a guardian; administrators only.
    pub fn grant_guardian(&mut self, caller: u64, account: u64)
        -> (r: Result<(), Error>)
        requires
            old(self).wf(),
        ensures
            final(self).wf(),
            final(self).address == old(self).address,
            final(self).admins@ == old(self).admins@,
            final(self).markets == old(self).markets,
            match r {
                Ok(()) => {
                    &&& old(self).is_admin(caller)
                    &&& final(self).is_guardian(account)
                    &&& forall|a2: u64| a2 != account
                        ==> final(self).is_guardian(a2)
                            == old(self).is_guardian(a2)
                },
                Err(e) => *final(self) == *old(self)
                    && e == Error::Unauthorized
                    && !old(self).is_admin(caller),
            },
    {
        if !self.has_protocol_admin(caller) {
            return Err(Error::Unauthorized);
        }
        if contains_account(&self.guardians, account) {
            return Ok(());
        }
        proof {
            push_keeps_memberships(self.guardians@, account);
        }
        self.guardians.push(account);
        Ok(())
    }

    /// Removes a guardian; administrators only.
    pub fn revoke_guardian(&mut self, caller: u64, account: u64)
        -> (r: Result<(), Error>)
        requires
            old(self).wf(),
        ensures
            final(self).wf(),
            final(self).address == old(self).address,
            final(self).admins@ == old(self).admins@,
            final(self).markets == old(self).markets,
            match r {
                Ok(()) => {
                    &&& old(self).is_admin(caller)
                    &&& !final(self).is_guardian(account)
                    &&& forall|a2: u64| a2 != account
                        ==> final(self).is_guardian(a2)
                            == old(self).is_guardian(a2)
                },
                Err(e) => *final(self) == *old(self)
                    && e == Error::Unauthorized
                    && !old(self).is_admin(caller),
            },
    {
        if !self.has_protocol_admin(caller) {
            return Err(Error::Unauthorized);
        }
        remove_account(&mut self.guardians, account);
        Ok(())
    }

    /// Replaces a registered market's rate model through the registry's
    /// authority; administrators only. The caller must hand in the market
    /// registered for the asset.
    pub fn update_market_rate_model(&self, caller: u64, asset: u64,
        market: &mut LendingMarket, base_rate_per_sec: u128,
        slope_rate_per_sec: u128) -> (r: Result<RateModelUpdated, Error>)
        requires
            self.wf(),
            old(market).wf(),
            self.spec_market_of(asset) is Some
                ==> old(market).address
                    == self.spec_market_of(asset)->0.addresses.market,
        ensures
            final(market).wf(),
            match r {
                Ok(ev) => {
                    &&& self.is_admin(caller)
                    &&& self.spec_market_of(asset) is Some
                    &&& *final(market) == (LendingMarket {
                        core: MarketCore {
                            rate_model: RateModel {
                                base_rate_per_sec,
                                slope_rate_per_sec,
                            },
                            ..old(market).core
                        },
                        ..*old(market)
                    })
                    &&& ev == (RateModelUpdated {
                        base_rate_per_sec,
                        slope_rate_per_sec,
                    })
                },
                Err(e) => {
                    &&& *final(market) == *old(market)
                    &&& if !self.is_admin(caller) {
                        e == Error::Unauthorized
                    } else if self.spec_market_of(asset) is None {
                        e == Error::MarketNotFound
                    } else {
                        e == Error::Unauthorized
                            && self.address != old(market).admin
                            && self.address != old(market).registry
                    }
                },
            },
    {
        if !self.has_protocol_admin(caller) {
            return Err(Error::Unauthorized);
        }
        match self.markets.get(asset) {
            Some(_) => (),
            None => {
                return Err(Error::MarketNotFound);
            },
        };
        market.set_rate_model(self.address, base_rate_per_sec,
            slope_rate_per_sec)
    }

    /// Replaces a registered market's risk parameters through the
    /// registry's authority; administrators only. The caller must hand in
    /// the market registered for the asset.
    pub fn update_market_risk_params(&self, caller: u64, asset: u64,
        market: &mut LendingMarket, collateral_factor: u128,
        liquidation_threshold: u128, close_factor: u128,
        liquidation_bonus: u128, reserve_factor: u128, borrow_cap: u128,
        supply_cap: u128) -> (r: Result<RiskParamsUpdated, Error>)
        requires
            self.wf(),
            old(market).wf(),
            self.spec_market_of(asset) is Some
                ==> old(market).address
                    == self.spec_market_of(asset)->0.addresses.market,
        ensures
            final(market).wf(),
            match r {
                Ok(ev) => {
                    &&& self.is_admin(caller)
                    &&& self.spec_market_of(asset) is Some
                    &&& *final(market) == (LendingMarket {
                        core: MarketCore {
                            risk_params: RiskParams {
                                collateral_factor,
                                liquidation_threshold,
                                close_factor,
                                liquidation_bonus,
                                reserve_factor,
                                borrow_cap,
                                supply_cap,
                            },
                            ..old(market).core
                        },
                        ..*old(market)
                    })
                    &&& ev == (RiskParamsUpdated {
                        collateral_factor,
                        liquidation_threshold,
                        close_factor,
                        liquidation_bonus,
                        reserve_factor,
                        borrow_cap,
                        supply_cap,
                    })
                },
                Err(e) => {
                    &&& *final(market) == *old(market)
                    &&& if !self.is_admin(caller) {
                        e == Error::Unauthorized
                    } else if self.spec_market_of(asset) is None {
                        e == Error::MarketNotFound
                    } else {
                        e == Error::Unauthorized
                            && self.address != old(market).admin
                            && self.address != old(market).registry
                    }
                },
            },
    {
        if !self.has_protocol_admin(caller) {
            return Err(Error::Unauthorized);
        }
        match self.markets.get(asset) {
            Some(_) => (),
            None => {
                return Err(Error::MarketNotFound);
            },
        };
        market.set_risk_params(self.address, collateral_factor,
            liquidation_threshold, close_factor, liquidation_bonus,
            reserve_factor, borrow_cap, supply_cap)
    }
}

/// Whether the list names the account.
fn contains_account(list: &Vec<u64>, account: u64) -> (r: bool)
    ensures
        r == list@.contains(account),
{
    let n = list.len();
    let mut i: usize = 0;
    while i < n
        invariant
            n == list@.len(),
            0 <= i <= n,
            forall|j: int| 0 <= j < i ==> list@[j] != account,
        decreases n - i,
    {
        if list[i] == account {
            return true;
        }
        i += 1;
    }
    false
}

/// Pushing a fresh account keeps every other account's membership.
proof fn push_keeps_memberships(s: Seq<u64>, account: u64)
    ensures
        s.push(account).contains(account),
        forall|a2: u64| a2 != account
            ==> s.push(account).contains(a2) == s.contains(a2),
{
    let s2 = s.push(account);
    assert(s2[s.len() as int] == account);
    assert forall|a2: u64| a2 != account
        implies s2.contains(a2) == s.contains(a2) by {
        if s.contains(a2) {
            let w = choose|w: int| 0 <= w < s.len() && s[w] == a2;
            assert(s2[w] == a2);
        }
        if s2.contains(a2) {
            let w = choose|w: int| 0 <= w < s2.len() && s2[w] == a2;
            assert(w < s.len() && s[w] == a2);
        }
    }
}

/// Removes every occurrence of the account from a duplicate-free list.
fn remove_account(list: &mut Vec<u64>, account: u64)
    requires
        forall|i: int, j: int| 0 <= i < j < old(list)@.len()
            ==> old(list)@[i] != old(list)@[j],
    ensures
        forall|i: int, j: int| 0 <= i < j < final(list)@.len()
            ==> final(list)@[i] != final(list)@[j],
        !final(list)@.contains(account),
        forall|a2: u64| a2 != account
            ==> final(list)@.contains(a2) == old(list)@.contains(a2),
{
    let n = list.len();
    let mut i: usize = 0;
    while i < n
        invariant
            list@ == old(list)@,
            forall|i2: int, j2: int| 0 <= i2 < j2 < list@.len()
                ==> list@[i2] != list@[j2],
            n == list@.len(),
            0 <= i <= n,
            forall|j: int| 0 <= j < i ==> list@[j] != account,
        decreases n - i,
    {
        if list[i] == account {
            proof {
                let s0 = list@;
                let s2 = s0.remove(i as int);
                assert forall|j: int| 0 <= j < s2.len()
                    implies s2[j] != account by {
                    if j < i {
                        assert(s2[j] == s0[j]);
                    } else {
                        assert(s2[j] == s0[j + 1]);
                    }
                }
                assert(!s2.contains(account));
                assert forall|a2: u64| a2 != account
                    implies s2.contains(a2) == s0.contains(a2) by {
                    if s0.contains(a2) {
                        let w = choose|w: int|
                            0 <= w < s0.len() && s0[w] == a2;
                        if w < i {
                            assert(s2[w] == a2);
                        } else {
                            assert(s2[w - 1] == a2);
                        }
                    }
                    if s2.contains(a2) {
                        let w = choose|w: int|
                            0 <= w < s2.len() && s2[w] == a2;
                        if w < i {
                            assert(s0[w] == a2);
                        } else {
                            assert(s0[w + 1] == a2);
                        }
                    }
                }
                assert forall|i2: int, j2: int| 0 <= i2 < j2 < s2.len()
                    implies s2[i2] != s2[j2] by {
                    let m1: int = if i2 < i { i2 } else { i2 + 1 };
                    let m2: int = if j2 < i { j2 } else { j2 + 1 };
                    assert(s2[i2] == s0[m1] && s2[j2] == s0[m2]);
                }
            }
            list.remove(i);
            return;
        }
        i += 1;
    }
    proof {
        assert(!list@.contains(account));
    }
}

} // verus!
