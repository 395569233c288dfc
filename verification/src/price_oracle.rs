//! Centralized price oracle with staleness protection: administrators record
//! WAD-scaled prices per asset, and a checked read refuses a price that was
//! never set or is older than the configured window.

use vstd::prelude::*;

use crate::errors::Error;
use crate::events::PriceUpdated;
use crate::kvstore::KeyedStore;
use crate::types::OraclePrice;

verus! {

/// `now - then`, floored at zero when the clock reads earlier than the
/// update (the host clock never goes back, but the read must not underflow).
pub open spec fn age_millis(now: u64, then: u64) -> u64 {
    if now >= then {
        (now - then) as u64
    } else {
        0u64
    }
}

/// Price store with an administrator set and a staleness window.
pub struct PriceOracle {
    pub admins: Vec<u64>,
    pub max_stale_millis: u64,
    pub prices: KeyedStore<OraclePrice>,
}

impl PriceOracle {
    /// The administrator list holds no duplicates and the price store is
    /// well formed.
    pub open spec fn wf(&self) -> bool {
        &&& self.prices.wf()
        &&& forall|i: int, j: int| 0 <= i < j < self.admins@.len()
            ==> self.admins@[i] != self.admins@[j]
    }

    /// Whether the account may set prices.
    pub open spec fn is_admin(&self, account: u64) -> bool {
        self.admins@.contains(account)
    }

    /// The stored reading for an asset, if any.
    pub open spec fn spec_price_of(&self, asset: u64) -> Option<OraclePrice> {
        self.prices.spec_get(asset)
    }

    /// Outcome of a checked read at time `now`: the price, or why it is
    /// unusable.
    pub open spec fn checked_price_spec(&self, asset: u64, now: u64)
        -> Result<u128, Error> {
        match self.spec_price_of(asset) {
            None => Err(Error::PriceMissing),
            Some(p) => if age_millis(now, p.last_updated)
                > self.max_stale_millis {
                Err(Error::PriceStale)
            } else {
                Ok(p.price)
            },
        }
    }

    /// Creates an oracle with one administrator and the given window.
    pub fn init(admin: u64, max_stale_millis: u64) -> (r: Self)
        ensures
            r.wf(),
            r.is_admin(admin),
            forall|a: u64| a != admin ==> !r.is_admin(a),
            r.max_stale_millis == max_stale_millis,
            forall|asset: u64| r.spec_price_of(asset) is None,
    {
        let mut admins: Vec<u64> = Vec::new();
        admins.push(admin);
        proof {
            assert(admins@ =~= seq![admin]);
            assert(admins@[0] == admin);
        }
        PriceOracle { admins, max_stale_millis, prices: KeyedStore::new() }
    }

    /// Whether the account may set prices.
    pub fn has_oracle_admin(&self, account: u64) -> (r: bool)
        ensures
            r == self.is_admin(account),
    {
        let n = self.admins.len();
        let mut i: usize = 0;
        while i < n
            invariant
                n == self.admins@.len(),
                0 <= i <= n,
                forall|j: int| 0 <= j < i ==> self.admins@[j] != account,
            decreases n - i,
        {
            if self.admins[i] == account {
                return true;
            }
            i += 1;
        }
        false
    }

    /// Records a price for an asset, stamped with the current time.
    pub fn set_price(&mut self, caller: u64, asset: u64, price: u128,
        now: u64) -> (r: Result<PriceUpdated, Error>)
        requires
            old(self).wf(),
        ensures
            final(self).wf(),
            final(self).admins@ == old(self).admins@,
            final(self).max_stale_millis == old(self).max_stale_millis,
            match r {
                Ok(ev) => {
                    &&& old(self).is_admin(caller)
                    &&& final(self).spec_price_of(asset)
                        == Some(OraclePrice { price, last_updated: now })
                    &&& forall|a2: u64| a2 != asset
                        ==> final(self).spec_price_of(a2)
                            == old(self).spec_price_of(a2)
                    &&& ev == (PriceUpdated { asset, price, timestamp: now })
                },
                Err(e) => {
                    &&& *final(self) == *old(self)
                    &&& e == Error::Unauthorized
                    &&& !old(self).is_admin(caller)
                },
            },
    {
        if !self.has_oracle_admin(caller) {
            return Err(Error::Unauthorized);
        }
        self.prices.set(asset, OraclePrice { price, last_updated: now });
        Ok(PriceUpdated { asset, price, timestamp: now })
    }

    /// The stored reading, or `PriceMissing` when the asset has none.
    pub fn get_price(&self, asset: u64) -> (r: Result<OraclePrice, Error>)
        ensures
            match r {
                Ok(p) => self.spec_price_of(asset) == Some(p),
                Err(e) => e == Error::PriceMissing
                    && self.spec_price_of(asset) is None,
            },
    {
        match self.prices.get(asset) {
            Some(p) => Ok(p),
            None => Err(Error::PriceMissing),
        }
    }

    /// The price for an asset, refused when missing or older than the
    /// staleness window.
    pub fn get_price_checked(&self, asset: u64, now: u64)
        -> (r: Result<u128, Error>)
        ensures
            r == self.checked_price_spec(asset, now),
    {
        let data = match self.prices.get(asset) {
            Some(p) => p,
            None => {
                return Err(Error::PriceMissing);
            },
        };
        let age = if now >= data.last_updated {
            now - data.last_updated
        } else {
            0
        };
        if age > self.max_stale_millis {
            return Err(Error::PriceStale);
        }
        Ok(data.price)
    }

    /// Replaces the staleness window; administrators only.
    pub fn set_max_stale_millis(&mut self, caller: u64, max_stale_millis: u64)
        -> (r: Result<(), Error>)
        requires
            old(self).wf(),
        ensures
            final(self).wf(),
            final(self).admins@ == old(self).admins@,
            final(self).prices == old(self).prices,
            match r {
                Ok(()) => old(self).is_admin(caller)
                    && final(self).max_stale_millis == max_stale_millis,
                Err(e) => *final(self) == *old(self)
                    && e == Error::Unauthorized
                    && !old(self).is_admin(caller),
            },
    {
        if !self.has_oracle_admin(caller) {
            return Err(Error::Unauthorized);
        }
        self.max_stale_millis = max_stale_millis;
        Ok(())
    }

    /// The staleness window.
    pub fn get_max_stale_millis(&self) -> (r: u64)
        ensures
            r == self.max_stale_millis,
    {
        self.max_stale_millis
    }

    /// Adds an administrator; administrators only.
    pub fn grant_oracle_admin(&mut self, caller: u64, account: u64)
        -> (r: Result<(), Error>)
        requires
            old(self).wf(),
        ensures
            final(self).wf(),
            final(self).prices == old(self).prices,
            final(self).max_stale_millis == old(self).max_stale_millis,
            match r {
                Ok(()) => {
                    &&& old(self).is_admin(caller)
                    &&& final(self).is_admin(account)
                    &&& forall|a2: u64| a2 != account
                        ==> final(self).is_admin(a2) == old(self).is_admin(a2)
                },
                Err(e) => *final(self) == *old(self)
                    && e == Error::Unauthorized
                    && !old(self).is_admin(caller),
            },
    {
        if !self.has_oracle_admin(caller) {
            return Err(Error::Unauthorized);
        }
        if self.has_oracle_admin(account) {
            return Ok(());
        }
        proof {
            let s0 = self.admins@;
            let s2 = s0.push(account);
            assert(s2[s0.len() as int] == account);
            assert forall|a2: u64| a2 != account
                implies s2.contains(a2) == s0.contains(a2) by {
                if s0.contains(a2) {
                    let w = choose|w: int| 0 <= w < s0.len() && s0[w] == a2;
                    assert(s2[w] == a2);
                }
                if s2.contains(a2) {
                    let w = choose|w: int| 0 <= w < s2.len() && s2[w] == a2;
                    assert(w < s0.len() && s0[w] == a2);
                }
            }
            assert(s2.contains(account));
        }
        self.admins.push(account);
        Ok(())
    }

    /// Removes an administrator; administrators only.
    pub fn revoke_oracle_admin(&mut self, caller: u64, account: u64)
        -> (r: Result<(), Error>)
        requires
            old(self).wf(),
        ensures
            final(self).wf(),
            final(self).prices == old(self).prices,
            final(self).max_stale_millis == old(self).max_stale_millis,
            match r {
                Ok(()) => {
                    &&& old(self).is_admin(caller)
                    &&& !final(self).is_admin(account)
                    &&& forall|a2: u64| a2 != account
                        ==> final(self).is_admin(a2) == old(self).is_admin(a2)
                },
                Err(e) => *final(self) == *old(self)
                    && e == Error::Unauthorized
                    && !old(self).is_admin(caller),
            },
    {
        if !self.has_oracle_admin(caller) {
            return Err(Error::Unauthorized);
        }
        let n = self.admins.len();
        let mut i: usize = 0;
        while i < n
            invariant
                old(self).wf(),
                old(self).is_admin(caller),
                *self == *old(self),
                n == self.admins@.len(),
                0 <= i <= n,
                forall|j: int| 0 <= j < i ==> self.admins@[j] != account,
            decreases n - i,
        {
            if self.admins[i] == account {
                proof {
                    let s0 = self.admins@;
                    let s2 = s0.remove(i as int);
                    assert forall|j: int| 0 <= j < s2.len()
                        implies s2[j] != account by {
                        if j < i {
                            assert(s2[j] == s0[j]);
                        } else {
                            assert(s2[j] == s0[j + 1]);
                        }
                    }
                    assert(!s2.contains(account));
                    assert forall|a2: u64| a2 != account
                        implies s2.contains(a2) == s0.contains(a2) by {
                        if s0.contains(a2) {
                            let w = choose|w: int|
                                0 <= w < s0.len() && s0[w] == a2;
                            if w < i {
                                assert(s2[w] == a2);
                            } else {
                                assert(s2[w - 1] == a2);
                            }
                        }
                        if s2.contains(a2) {
                            let w = choose|w: int|
                                0 <= w < s2.len() && s2[w] == a2;
                            if w < i {
                                assert(s0[w] == a2);
                            } else {
                                assert(s0[w + 1] == a2);
                            }
                        }
                    }
                    assert forall|i2: int, j2: int| 0 <= i2 < j2 < s2.len()
                        implies s2[i2] != s2[j2] by {
                        let m1: int = if i2 < i { i2 } else { i2 + 1 };
                        let m2: int = if j2 < i { j2 } else { j2 + 1 };
                        assert(s2[i2] == s0[m1] && s2[j2] == s0[m2]);
                    }
                }
                self.admins.remove(i);
                return Ok(());
            }
            i += 1;
        }
        Ok(())
    }
}

} // verus!
