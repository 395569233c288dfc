//! Accounting and risk engine of a single-asset collateralized lending pool.
//!
//! The crate models the pool as a pure state machine: every operation is a
//! function from the current state and the facts the host hands in (caller,
//! block time, oracle read, pause flags) to a new state and an event, with a
//! contract that pins the transition down exactly. The host environment that
//! stores the state, moves tokens and emits events lives outside this crate.

pub mod a_token;
pub mod balances;
pub mod errors;
pub mod events;
pub mod kvstore;
pub mod laws;
pub mod lending_market;
pub mod market_registry;
pub mod math;
pub mod price_oracle;
pub mod types;

use vstd::prelude::*;

verus! {

} // verus!
