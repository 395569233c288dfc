use anchor_protocol::a_token::AToken;
use anchor_protocol::errors::Error;
use anchor_protocol::lending_market::LendingMarket;
use anchor_protocol::math::WAD_U128;
use anchor_protocol::price_oracle::PriceOracle;
use anchor_protocol::types::{PauseFlags, RateModel, RiskParams};

const ADMIN: u64 = 0;
const USER: u64 = 1;
const OTHER: u64 = 2;
const ORACLE_ADMIN: u64 = 3;
const ASSET: u64 = 10;
const MARKET_ADDR: u64 = 20;
const A_TOKEN_ADDR: u64 = 21;
const ORACLE_ADDR: u64 = 22;
const REGISTRY_ADDR: u64 = 23;

fn no_pause() -> PauseFlags {
    PauseFlags {
        supply_paused: false,
        borrow_paused: false,
        withdraw_paused: false,
        repay_paused: false,
        liquidation_paused: false,
    }
}

fn fresh_oracle(max_stale_millis: u64, price: u128) -> PriceOracle {
    let mut oracle = PriceOracle::init(ORACLE_ADMIN, max_stale_millis);
    oracle.set_price(ORACLE_ADMIN, ASSET, price, 0).unwrap();
    oracle
}

fn new_market(rate_model: RateModel, risk_params: RiskParams)
    -> LendingMarket {
    LendingMarket::init(
        ADMIN,
        ASSET,
        A_TOKEN_ADDR,
        ORACLE_ADDR,
        REGISTRY_ADDR,
        MARKET_ADDR,
        rate_model,
        risk_params,
        0,
    )
}

fn new_a_token() -> AToken {
    AToken::init(
        "Anchor Token".to_string(),
        "aTKN".to_string(),
        9,
        MARKET_ADDR,
    )
}

fn lent_market() -> (LendingMarket, AToken, PriceOracle) {
    let oracle = fresh_oracle(10_000, WAD_U128);
    let risk_params = RiskParams {
        collateral_factor: WAD_U128,
        liquidation_threshold: WAD_U128 * 80 / 100,
        close_factor: WAD_U128 / 2,
        liquidation_bonus: 0,
        reserve_factor: 0,
        borrow_cap: 0,
        supply_cap: 0,
    };
    let mut market = new_market(RateModel::default(), risk_params);
    let mut a_token = new_a_token();
    let flags = no_pause();
    market
        .deposit(&mut a_token, &oracle, &flags, USER, 100, 0)
        .unwrap();
    (market, a_token, oracle)
}

#[test]
fn deposit_then_withdraw_round_trips_exactly() {
    let oracle = fresh_oracle(10_000, WAD_U128);
    let mut market = new_market(RateModel::default(), RiskParams::default());
    let mut a_token = new_a_token();
    let flags = no_pause();

    market
        .deposit(&mut a_token, &oracle, &flags, USER, 100, 0)
        .unwrap();
    market
        .withdraw(&mut a_token, &oracle, &flags, USER, 100, 0)
        .unwrap();

    assert_eq!(market.get_cash(), 0);
    assert_eq!(a_token.total_supply(), 0);
    assert_eq!(a_token.balance_of(USER), 0);
}

#[test]
fn accrual_twice_with_no_time_elapsed_changes_nothing() {
    let oracle = fresh_oracle(10_000, WAD_U128);
    let rate_model = RateModel {
        base_rate_per_sec: 0,
        slope_rate_per_sec: WAD_U128 / 10,
    };
    let risk_params = RiskParams {
        collateral_factor: WAD_U128,
        liquidation_threshold: 0,
        close_factor: 0,
        liquidation_bonus: 0,
        reserve_factor: WAD_U128 / 10,
        borrow_cap: 0,
        supply_cap: 0,
    };
    let mut market = new_market(rate_model, risk_params);
    let mut a_token = new_a_token();
    let flags = no_pause();

    market
        .deposit(&mut a_token, &oracle, &flags, USER, 200, 0)
        .unwrap();
    market.borrow(&a_token, &oracle, &flags, USER, 100, 0).unwrap();

    let first = market.accrue_interest(10_000).unwrap();
    assert!(first.is_some());
    let borrows = market.get_total_borrows();
    let reserves = market.get_total_reserves();
    let borrow_index = market.get_borrow_index();
    let supply_index = market.get_supply_index();

    let second = market.accrue_interest(10_000).unwrap();
    assert!(second.is_none());
    assert_eq!(market.get_total_borrows(), borrows);
    assert_eq!(market.get_total_reserves(), reserves);
    assert_eq!(market.get_borrow_index(), borrow_index);
    assert_eq!(market.get_supply_index(), supply_index);
}

#[test]
fn total_borrows_matches_balance_sum_without_interest() {
    let (mut market, mut a_token, oracle) = lent_market();
    let flags = no_pause();

    market
        .deposit(&mut a_token, &oracle, &flags, OTHER, 80, 0)
        .unwrap();
    market.borrow(&a_token, &oracle, &flags, USER, 30, 0).unwrap();
    market.borrow(&a_token, &oracle, &flags, OTHER, 20, 0).unwrap();
    market.repay(&oracle, USER, 10, 0).unwrap();

    let sum = market.get_borrow_balance(USER)
        + market.get_borrow_balance(OTHER);
    assert_eq!(market.get_total_borrows(), sum);
    assert_eq!(market.get_total_borrows(), 40);
}

#[test]
fn repay_with_zero_debt_is_noop_on_fresh_price() {
    let (mut market, _a_token, oracle) = lent_market();

    let cash = market.get_cash();
    let ev = market.repay(&oracle, OTHER, 5, 0).unwrap();
    assert!(ev.is_none());
    assert_eq!(market.get_cash(), cash);
    assert_eq!(market.get_total_borrows(), 0);
}

#[test]
fn repay_with_zero_debt_still_requires_fresh_price() {
    // the freshness gate comes before the zero-debt early return
    let (mut market, _a_token, oracle) = lent_market();

    let result = market.repay(&oracle, OTHER, 5, 20_000);
    assert_eq!(result, Err(Error::PriceStale));
}

#[test]
fn zero_amounts_rejected() {
    let (mut market, mut a_token, oracle) = lent_market();
    let flags = no_pause();

    assert_eq!(
        market.deposit(&mut a_token, &oracle, &flags, USER, 0, 0),
        Err(Error::InvalidParam)
    );
    assert_eq!(
        market.withdraw(&mut a_token, &oracle, &flags, USER, 0, 0),
        Err(Error::InvalidParam)
    );
    assert_eq!(
        market.borrow(&a_token, &oracle, &flags, USER, 0, 0),
        Err(Error::InvalidParam)
    );
    assert_eq!(market.repay(&oracle, USER, 0, 0), Err(Error::InvalidParam));
    assert_eq!(
        market.liquidate(&mut a_token, &oracle, &flags, OTHER, USER, 0, 0),
        Err(Error::InvalidParam)
    );
}

#[test]
fn missing_price_blocks_borrow() {
    let priced = fresh_oracle(10_000, WAD_U128);
    let unpriced = PriceOracle::init(ORACLE_ADMIN, 10_000);
    let mut market = new_market(RateModel::default(), RiskParams::default());
    let mut a_token = new_a_token();
    let flags = no_pause();

    market
        .deposit(&mut a_token, &priced, &flags, USER, 100, 0)
        .unwrap();
    let result = market.borrow(&a_token, &unpriced, &flags, USER, 10, 0);
    assert_eq!(result, Err(Error::PriceMissing));
}

#[test]
fn borrow_beyond_cash_rejected() {
    let (mut market, a_token, oracle) = lent_market();
    let flags = no_pause();

    let result = market.borrow(&a_token, &oracle, &flags, USER, 101, 0);
    assert_eq!(result, Err(Error::InsufficientLiquidity));
}

#[test]
fn withdraw_beyond_balance_rejected() {
    let (mut market, mut a_token, oracle) = lent_market();
    let flags = no_pause();

    let result = market.withdraw(&mut a_token, &oracle, &flags, USER, 101, 0);
    assert_eq!(result, Err(Error::InsufficientBalance));
}

#[test]
fn zero_close_factor_makes_liquidation_degenerate() {
    let oracle = fresh_oracle(10_000, WAD_U128);
    let risk_params = RiskParams {
        collateral_factor: WAD_U128,
        liquidation_threshold: WAD_U128 * 80 / 100,
        close_factor: 0,
        liquidation_bonus: 0,
        reserve_factor: 0,
        borrow_cap: 0,
        supply_cap: 0,
    };
    let mut market = new_market(RateModel::default(), risk_params);
    let mut a_token = new_a_token();
    let flags = no_pause();

    market
        .deposit(&mut a_token, &oracle, &flags, USER, 100, 0)
        .unwrap();
    market.borrow(&a_token, &oracle, &flags, USER, 90, 0).unwrap();

    let result =
        market.liquidate(&mut a_token, &oracle, &flags, OTHER, USER, 50, 0);
    assert_eq!(result, Err(Error::LiquidationTooLarge));
}

#[test]
fn borrow_cap_rejects_large_loans() {
    let oracle = fresh_oracle(10_000, WAD_U128);
    let risk_params = RiskParams {
        collateral_factor: WAD_U128,
        liquidation_threshold: 0,
        close_factor: 0,
        liquidation_bonus: 0,
        reserve_factor: 0,
        borrow_cap: 40,
        supply_cap: 0,
    };
    let mut market = new_market(RateModel::default(), risk_params);
    let mut a_token = new_a_token();
    let flags = no_pause();

    market
        .deposit(&mut a_token, &oracle, &flags, USER, 100, 0)
        .unwrap();
    let result = market.borrow(&a_token, &oracle, &flags, USER, 50, 0);
    assert_eq!(result, Err(Error::BorrowTooLarge));
}

#[test]
fn seizure_is_capped_at_borrower_collateral() {
    let oracle = fresh_oracle(10_000, WAD_U128);
    let risk_params = RiskParams {
        collateral_factor: WAD_U128,
        liquidation_threshold: WAD_U128 * 80 / 100,
        close_factor: WAD_U128,
        liquidation_bonus: WAD_U128 / 2,
        reserve_factor: 0,
        borrow_cap: 0,
        supply_cap: 0,
    };
    let mut market = new_market(RateModel::default(), risk_params);
    let mut a_token = new_a_token();
    let flags = no_pause();

    market
        .deposit(&mut a_token, &oracle, &flags, USER, 100, 0)
        .unwrap();
    market.borrow(&a_token, &oracle, &flags, USER, 90, 0).unwrap();

    // full close with a 50% bonus prices the seizure at 135, but only 100
    // receipt tokens exist to take
    let ev = market
        .liquidate(&mut a_token, &oracle, &flags, OTHER, USER, 90, 0)
        .unwrap();
    assert_eq!(ev.repay_amount, 90);
    assert_eq!(ev.seize_amount, 100);
    assert_eq!(a_token.balance_of(USER), 0);
    assert_eq!(a_token.balance_of(OTHER), 100);
}

#[test]
fn deposit_overflowing_cash_rejected() {
    let oracle = fresh_oracle(10_000, WAD_U128);
    let mut market = new_market(RateModel::default(), RiskParams::default());
    let mut a_token = new_a_token();
    let flags = no_pause();

    market
        .deposit(&mut a_token, &oracle, &flags, USER, u128::MAX, 0)
        .unwrap();
    let result = market.deposit(&mut a_token, &oracle, &flags, OTHER, 1, 0);
    assert_eq!(result, Err(Error::MathOverflow));
}

#[test]
fn rates_follow_the_model() {
    let oracle = fresh_oracle(10_000, WAD_U128);
    let rate_model = RateModel {
        base_rate_per_sec: 0,
        slope_rate_per_sec: WAD_U128 / 10,
    };
    let risk_params = RiskParams {
        collateral_factor: WAD_U128,
        liquidation_threshold: 0,
        close_factor: 0,
        liquidation_bonus: 0,
        reserve_factor: WAD_U128 / 10,
        borrow_cap: 0,
        supply_cap: 0,
    };
    let mut market = new_market(rate_model, risk_params);
    let mut a_token = new_a_token();
    let flags = no_pause();

    market
        .deposit(&mut a_token, &oracle, &flags, USER, 200, 0)
        .unwrap();
    market.borrow(&a_token, &oracle, &flags, USER, 100, 0).unwrap();

    // utilization 100 / (100 + 100) = 0.5
    assert_eq!(market.get_utilization(), Ok(WAD_U128 / 2));
    // borrow rate = 0 + 0.1 * 0.5 = 0.05 per second
    assert_eq!(market.get_borrow_rate_per_sec(), Ok(WAD_U128 / 20));
    // supply rate = 0.05 * 0.5 * (1 - 0.1) = 0.0225 per second
    assert_eq!(
        market.get_supply_rate_per_sec(),
        Ok(22_500_000_000_000_000)
    );
}

#[test]
fn health_factor_of_debt_free_account_is_one() {
    let (market, a_token, oracle) = lent_market();
    assert_eq!(
        market.health_factor(&a_token, &oracle, USER, 0),
        Ok(WAD_U128)
    );
}

#[test]
fn health_factor_scales_with_threshold() {
    let (mut market, a_token, oracle) = lent_market();
    let flags = no_pause();
    market.borrow(&a_token, &oracle, &flags, USER, 50, 0).unwrap();

    // collateral value 100, debt value 50, threshold 0.8:
    // wad_mul(80, WAD / 50) = 2
    assert_eq!(market.health_factor(&a_token, &oracle, USER, 0), Ok(2));
    assert_eq!(
        market.is_liquidatable(&a_token, &oracle, USER, 0),
        Ok(false)
    );
}

#[test]
fn paused_flags_gate_each_operation() {
    let (mut market, mut a_token, oracle) = lent_market();
    let mut flags = no_pause();
    flags.supply_paused = true;
    flags.withdraw_paused = true;
    flags.liquidation_paused = true;

    assert_eq!(
        market.deposit(&mut a_token, &oracle, &flags, USER, 1, 0),
        Err(Error::Paused)
    );
    assert_eq!(
        market.withdraw(&mut a_token, &oracle, &flags, USER, 1, 0),
        Err(Error::Paused)
    );
    assert_eq!(
        market.liquidate(&mut a_token, &oracle, &flags, OTHER, USER, 1, 0),
        Err(Error::Paused)
    );
}

#[test]
fn non_admin_cannot_update_market_directly() {
    let mut market = new_market(RateModel::default(), RiskParams::default());
    assert_eq!(market.set_rate_model(USER, 1, 2), Err(Error::Unauthorized));
    assert_eq!(
        market.set_risk_params(USER, 0, 0, 0, 0, 0, 0, 0),
        Err(Error::Unauthorized)
    );
    assert_eq!(market.set_a_token(USER, 99), Err(Error::Unauthorized));
    assert_eq!(market.set_registry(USER, 99), Err(Error::Unauthorized));
}

#[test]
fn registry_identity_may_update_params() {
    let mut market = new_market(RateModel::default(), RiskParams::default());
    market.set_rate_model(REGISTRY_ADDR, 7, 8).unwrap();
    let got = market.get_rate_model();
    assert_eq!(got.base_rate_per_sec, 7);
    assert_eq!(got.slope_rate_per_sec, 8);
}
