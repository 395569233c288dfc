//! Receipt-token ledger: the fungible balances that stand for supply shares.
//! One unit of receipt token always represents one unit of underlying
//! deposited. Mint and burn are restricted to the market the token was
//! created for; the total supply always equals the sum of all balances.

use vstd::prelude::*;

use crate::balances::{lemma_bal_le_sum, lemma_two_bals_le_sum, BalanceMap};
use crate::errors::Error;
use crate::math::pow2_128;

verus! {

/// Fungible receipt-token ledger with a market-gated mint/burn authority.
pub struct AToken {
    pub name: String,
    pub symbol: String,
    pub decimals: u8,
    pub market: u64,
    pub balances: BalanceMap,
    pub total_supply: u128,
}

impl AToken {
    /// Balances are well formed and the recorded total supply is exactly
    /// their sum.
    pub open spec fn wf(&self) -> bool {
        &&& self.balances.wf()
        &&& self.total_supply as int == self.balances.spec_sum()
    }

    /// The balance held by an account.
    pub open spec fn spec_balance_of(&self, account: u64) -> u128 {
        self.balances.spec_get(account)
    }

    /// Creates an empty ledger whose mint/burn authority is `market`.
    pub fn init(name: String, symbol: String, decimals: u8, market: u64)
        -> (r: Self)
        ensures
            r.wf(),
            r.name@ == name@,
            r.symbol@ == symbol@,
            r.decimals == decimals,
            r.market == market,
            r.total_supply == 0,
            forall|a: u64| r.spec_balance_of(a) == 0,
    {
        AToken {
            name,
            symbol,
            decimals,
            market,
            balances: BalanceMap::new(),
            total_supply: 0,
        }
    }

    /// The account's current balance; zero when it never held any.
    pub fn balance_of(&self, account: u64) -> (r: u128)
        ensures
            r == self.spec_balance_of(account),
    {
        self.balances.get(account)
    }

    /// The sum of all balances.
    pub fn total_supply(&self) -> (r: u128)
        ensures
            r == self.total_supply,
    {
        self.total_supply
    }

    /// The market allowed to mint and burn.
    pub fn get_market(&self) -> (r: u64)
        ensures
            r == self.market,
    {
        self.market
    }

    /// Creates `amount` units for `to`. Only the market may call; fails with
    /// `MathOverflow` when the total supply would no longer fit.
    pub fn mint(&mut self, caller: u64, to: u64, amount: u128)
        -> (r: Result<(), Error>)
        requires
            old(self).wf(),
        ensures
            final(self).wf(),
            final(self).name@ == old(self).name@,
            final(self).symbol@ == old(self).symbol@,
            final(self).decimals == old(self).decimals,
            final(self).market == old(self).market,
            match r {
                Ok(()) => {
                    &&& caller == old(self).market
                    &&& old(self).total_supply + amount < pow2_128()
                    &&& final(self).total_supply
                        == old(self).total_supply + amount
                    &&& final(self).spec_balance_of(to)
                        == old(self).spec_balance_of(to) + amount
                    &&& forall|a: u64| a != to ==> final(self).spec_balance_of(a)
                        == old(self).spec_balance_of(a)
                },
                Err(e) => {
                    &&& *final(self) == *old(self)
                    &&& if caller != old(self).market {
                        e == Error::Unauthorized
                    } else {
                        e == Error::MathOverflow
                            && old(self).total_supply + amount >= pow2_128()
                    }
                },
            },
    {
        if caller != self.market {
            return Err(Error::Unauthorized);
        }
        let total = match self.total_supply.checked_add(amount) {
            Some(v) => v,
            None => {
                return Err(Error::MathOverflow);
            },
        };
        let b = self.balances.get(to);
        proof {
            lemma_bal_le_sum(self.balances.entries@, to);
        }
        self.balances.set(to, b + amount);
        self.total_supply = total;
        Ok(())
    }

    /// Destroys `amount` units held by `from`. Only the market may call;
    /// fails when the account holds less than `amount`.
    pub fn burn(&mut self, caller: u64, from: u64, amount: u128)
        -> (r: Result<(), Error>)
        requires
            old(self).wf(),
        ensures
            final(self).wf(),
            final(self).name@ == old(self).name@,
            final(self).symbol@ == old(self).symbol@,
            final(self).decimals == old(self).decimals,
            final(self).market == old(self).market,
            match r {
                Ok(()) => {
                    &&& caller == old(self).market
                    &&& old(self).spec_balance_of(from) >= amount
                    &&& final(self).total_supply
                        == old(self).total_supply - amount
                    &&& final(self).spec_balance_of(from)
                        == old(self).spec_balance_of(from) - amount
                    &&& forall|a: u64| a != from
                        ==> final(self).spec_balance_of(a)
                            == old(self).spec_balance_of(a)
                },
                Err(e) => {
                    &&& *final(self) == *old(self)
                    &&& if caller != old(self).market {
                        e == Error::Unauthorized
                    } else {
                        e == Error::InsufficientBalance
                            && old(self).spec_balance_of(from) < amount
                    }
                },
            },
    {
        if caller != self.market {
            return Err(Error::Unauthorized);
        }
        let b = self.balances.get(from);
        if b < amount {
            return Err(Error::InsufficientBalance);
        }
        proof {
            lemma_bal_le_sum(self.balances.entries@, from);
        }
        self.balances.set(from, b - amount);
        self.total_supply = self.total_supply - amount;
        Ok(())
    }

    /// Moves `amount` units from the caller to `recipient`; fails when the
    /// caller holds less than `amount`.
    pub fn transfer(&mut self, caller: u64, recipient: u64, amount: u128)
        -> (r: Result<(), Error>)
        requires
            old(self).wf(),
        ensures
            final(self).wf(),
            final(self).name@ == old(self).name@,
            final(self).symbol@ == old(self).symbol@,
            final(self).decimals == old(self).decimals,
            final(self).market == old(self).market,
            final(self).total_supply == old(self).total_supply,
            match r {
                Ok(()) => {
                    &&& old(self).spec_balance_of(caller) >= amount
                    &&& caller != recipient ==> {
                        &&& final(self).spec_balance_of(caller)
                            == old(self).spec_balance_of(caller) - amount
                        &&& final(self).spec_balance_of(recipient)
                            == old(self).spec_balance_of(recipient) + amount
                    }
                    &&& forall|a: u64| a != caller && a != recipient
                        ==> final(self).spec_balance_of(a)
                            == old(self).spec_balance_of(a)
                    &&& caller == recipient
                        ==> final(self).spec_balance_of(caller)
                            == old(self).spec_balance_of(caller)
                },
                Err(e) => {
                    &&& *final(self) == *old(self)
                    &&& e == Error::InsufficientBalance
                    &&& old(self).spec_balance_of(caller) < amount
                },
            },
    {
        let b = self.balances.get(caller);
        if b < amount {
            return Err(Error::InsufficientBalance);
        }
        proof {
            if caller != recipient {
                lemma_two_bals_le_sum(self.balances.entries@, caller,
                    recipient);
            }
        }
        self.balances.set(caller, b - amount);
        let br = self.balances.get(recipient);
        self.balances.set(recipient, br + amount);
        Ok(())
    }
}

} // verus!
