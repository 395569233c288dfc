//! Laws of the market's transitions, proved over the same specification
//! functions that the operations' contracts use.

use vstd::prelude::*;

use crate::errors::Error;
use crate::lending_market::{
    accrual_noop, accrue_spec, apply_accrual, deposit_spec, snapshot_spec,
    withdraw_spec, AccrualOutcome, MarketCore,
};
use crate::math::pow2_128;

verus! {

/// Accrual is idempotent in time: once an accrual step has run at `now`,
/// running it again at the same instant changes nothing — every index,
/// total and the accrual clock stay exactly as they were.
pub proof fn lemma_accrual_idempotent(core: MarketCore, now: u64)
    requires
        accrue_spec(core, now) is Ok,
    ensures
        accrue_spec(apply_accrual(core, accrue_spec(core, now)->Ok_0), now)
            == Ok::<AccrualOutcome, Error>(accrual_noop(
                apply_accrual(core, accrue_spec(core, now)->Ok_0))),
{
    let c2 = apply_accrual(core, accrue_spec(core, now)->Ok_0);
    assert(now <= c2.last_accrual
        || (now - c2.last_accrual) as int / 1000 == 0);
}

/// A deposit moves exactly the deposited amount: the pool's cash, the
/// receipt supply and the caller's receipt balance each grow by `amount`,
/// and nothing of the accrual depends on it.
pub proof fn lemma_deposit_amounts(core: MarketCore, price: Result<u128,
    Error>, market_addr: u64, ledger_market: u64, ledger_total: u128,
    caller_bal: u128, amount: u128, now: u64)
    requires
        caller_bal <= ledger_total,
        deposit_spec(core, false, price, market_addr, ledger_market,
            ledger_total, caller_bal, amount, now) is Ok,
    ensures
        ({
            let dep = deposit_spec(core, false, price, market_addr,
                ledger_market, ledger_total, caller_bal, amount, now)->Ok_0;
            &&& dep.core.cash == core.cash + amount
            &&& dep.ledger_total == ledger_total + amount
            &&& dep.caller_bal == caller_bal + amount
        }),
{
}

/// Round trip: depositing `amount` and then withdrawing the same `amount`
/// at the same instant, with no borrow outstanding, succeeds and returns
/// the pool's cash, the receipt supply and the caller's receipt balance
/// exactly to their prior values. The one assumption beyond the deposit
/// itself is that the snapshot over the restored ledger fields is
/// computable, which the withdrawal emits on its way out.
pub proof fn lemma_deposit_withdraw_round_trip(core: MarketCore,
    price: Result<u128, Error>, market_addr: u64, ledger_market: u64,
    ledger_total: u128, caller_bal: u128, amount: u128, now: u64)
    requires
        caller_bal <= ledger_total,
        deposit_spec(core, false, price, market_addr, ledger_market,
            ledger_total, caller_bal, amount, now) is Ok,
        snapshot_spec(
            MarketCore {
                cash: core.cash,
                ..deposit_spec(core, false, price, market_addr,
                    ledger_market, ledger_total, caller_bal, amount,
                    now)->Ok_0.core
            }, now) is Ok,
    ensures
        ({
            let dep = deposit_spec(core, false, price, market_addr,
                ledger_market, ledger_total, caller_bal, amount, now)->Ok_0;
            let wd = withdraw_spec(dep.core, false, price, market_addr,
                ledger_market, dep.ledger_total, dep.caller_bal, 0u128,
                amount, now);
            &&& wd is Ok
            &&& wd->Ok_0.core.cash == core.cash
            &&& wd->Ok_0.ledger_total == ledger_total
            &&& wd->Ok_0.caller_bal == caller_bal
        }),
{
    let dep = deposit_spec(core, false, price, market_addr, ledger_market,
        ledger_total, caller_bal, amount, now)->Ok_0;
    lemma_accrual_idempotent(core, now);
    assert(accrue_spec(dep.core, now)
        == Ok::<AccrualOutcome, Error>(accrual_noop(dep.core)));
    assert(apply_accrual(dep.core, accrual_noop(dep.core)) == dep.core);
    assert(MarketCore { cash: (dep.core.cash - amount) as u128, ..dep.core }
        == MarketCore { cash: core.cash, ..dep.core });
}

} // verus!
