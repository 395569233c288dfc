use anchor_protocol::a_token::AToken;
use anchor_protocol::errors::Error;
use anchor_protocol::events::{Borrow, Deposit, Liquidate, Repay, Withdraw};
use anchor_protocol::lending_market::LendingMarket;
use anchor_protocol::math::WAD_U128;
use anchor_protocol::price_oracle::PriceOracle;
use anchor_protocol::types::{PauseFlags, RateModel, RiskParams};

const ADMIN: u64 = 0;
const USER: u64 = 1;
const LIQUIDATOR: u64 = 2;
const ORACLE_ADMIN: u64 = 3;
const ASSET: u64 = 10;
const MARKET_ADDR: u64 = 20;
const A_TOKEN_ADDR: u64 = 21;
const ORACLE_ADDR: u64 = 22;
const REGISTRY_ADDR: u64 = 23;

fn no_pause() -> PauseFlags {
    PauseFlags {
        supply_paused: false,
        borrow_paused: false,
        withdraw_paused: false,
        repay_paused: false,
        liquidation_paused: false,
    }
}

fn fresh_oracle(max_stale_millis: u64, price: u128) -> PriceOracle {
    let mut oracle = PriceOracle::init(ORACLE_ADMIN, max_stale_millis);
    oracle.set_price(ORACLE_ADMIN, ASSET, price, 0).unwrap();
    oracle
}

fn new_market(rate_model: RateModel, risk_params: RiskParams)
    -> LendingMarket {
    LendingMarket::init(
        ADMIN,
        ASSET,
        A_TOKEN_ADDR,
        ORACLE_ADDR,
        REGISTRY_ADDR,
        MARKET_ADDR,
        rate_model,
        risk_params,
        0,
    )
}

fn new_a_token() -> AToken {
    AToken::init(
        "Anchor Token".to_string(),
        "aTKN".to_string(),
        9,
        MARKET_ADDR,
    )
}

#[test]
fn deposit_mints_a_token_and_updates_cash() {
    let oracle = fresh_oracle(10_000, WAD_U128);
    let mut market = new_market(RateModel::default(), RiskParams::default());
    let mut a_token = new_a_token();
    let flags = no_pause();

    market
        .deposit(&mut a_token, &oracle, &flags, USER, 100, 0)
        .unwrap();

    assert_eq!(market.get_cash(), 100);
    assert_eq!(a_token.balance_of(USER), 100);
}

#[test]
fn accrue_interest_increases_borrows_and_reserves() {
    let oracle = fresh_oracle(10_000, WAD_U128);
    let rate_model = RateModel {
        base_rate_per_sec: 0,
        slope_rate_per_sec: WAD_U128 / 10,
    };
    let risk_params = RiskParams {
        collateral_factor: WAD_U128,
        liquidation_threshold: 0,
        close_factor: 0,
        liquidation_bonus: 0,
        reserve_factor: WAD_U128 / 10,
        borrow_cap: 0,
        supply_cap: 0,
    };
    let mut market = new_market(rate_model, risk_params);
    let mut a_token = new_a_token();
    let flags = no_pause();

    market
        .deposit(&mut a_token, &oracle, &flags, ADMIN, 100, 0)
        .unwrap();
    market
        .deposit(&mut a_token, &oracle, &flags, USER, 100, 0)
        .unwrap();
    market.borrow(&a_token, &oracle, &flags, USER, 100, 0).unwrap();

    market.accrue_interest(10_000).unwrap();

    assert_eq!(market.get_total_borrows(), 150);
    assert_eq!(market.get_total_reserves(), 5);
    assert!(market.get_borrow_index() > WAD_U128);
    assert!(market.get_supply_index() > WAD_U128);
}

#[test]
fn borrow_and_repay_respects_ltv() {
    let oracle = fresh_oracle(10_000, WAD_U128);
    let rate_model = RateModel::default();
    let risk_params = RiskParams {
        collateral_factor: WAD_U128 * 75 / 100,
        liquidation_threshold: 0,
        close_factor: 0,
        liquidation_bonus: 0,
        reserve_factor: 0,
        borrow_cap: 1_000,
        supply_cap: 0,
    };
    let mut market = new_market(rate_model, risk_params);
    let mut a_token = new_a_token();
    let flags = no_pause();

    market
        .deposit(&mut a_token, &oracle, &flags, USER, 100, 0)
        .unwrap();
    market.borrow(&a_token, &oracle, &flags, USER, 70, 0).unwrap();
    let too_much = market.borrow(&a_token, &oracle, &flags, USER, 10, 0);
    assert_eq!(too_much, Err(Error::HealthFactorTooLow));

    market.repay(&oracle, USER, 30, 0).unwrap();
    assert_eq!(market.get_total_borrows(), 40);
}

#[test]
fn borrow_rejected_when_paused() {
    let oracle = fresh_oracle(10_000, WAD_U128);
    let risk_params = RiskParams {
        collateral_factor: WAD_U128,
        liquidation_threshold: 0,
        close_factor: 0,
        liquidation_bonus: 0,
        reserve_factor: 0,
        borrow_cap: 1_000,
        supply_cap: 0,
    };
    let mut market = new_market(RateModel::default(), risk_params);
    let mut a_token = new_a_token();
    let open = no_pause();
    let mut flags = no_pause();
    flags.borrow_paused = true;

    market
        .deposit(&mut a_token, &oracle, &open, USER, 100, 0)
        .unwrap();
    let result = market.borrow(&a_token, &oracle, &flags, USER, 10, 0);
    assert_eq!(result, Err(Error::Paused));
}

#[test]
fn liquidation_seizes_collateral_with_bonus() {
    let oracle = fresh_oracle(10_000, WAD_U128);
    let risk_params = RiskParams {
        collateral_factor: WAD_U128,
        liquidation_threshold: WAD_U128 * 80 / 100,
        close_factor: WAD_U128 / 2,
        liquidation_bonus: WAD_U128 * 5 / 100,
        reserve_factor: 0,
        borrow_cap: 10_000,
        supply_cap: 0,
    };
    let mut market = new_market(RateModel::default(), risk_params);
    let mut a_token = new_a_token();
    let flags = no_pause();

    market
        .deposit(&mut a_token, &oracle, &flags, USER, 100, 0)
        .unwrap();
    market.borrow(&a_token, &oracle, &flags, USER, 90, 0).unwrap();

    market
        .liquidate(&mut a_token, &oracle, &flags, LIQUIDATOR, USER, 50, 0)
        .unwrap();

    assert_eq!(market.get_borrow_balance(USER), 45);
    assert_eq!(a_token.balance_of(LIQUIDATOR), 47);
}

#[test]
fn liquidation_rejected_when_healthy() {
    let oracle = fresh_oracle(10_000, WAD_U128);
    let risk_params = RiskParams {
        collateral_factor: WAD_U128,
        liquidation_threshold: WAD_U128 * 90 / 100,
        close_factor: WAD_U128 / 2,
        liquidation_bonus: WAD_U128 * 5 / 100,
        reserve_factor: 0,
        borrow_cap: 10_000,
        supply_cap: 0,
    };
    let mut market = new_market(RateModel::default(), risk_params);
    let mut a_token = new_a_token();
    let flags = no_pause();

    market
        .deposit(&mut a_token, &oracle, &flags, USER, 100, 0)
        .unwrap();
    market.borrow(&a_token, &oracle, &flags, USER, 50, 0).unwrap();

    let result =
        market.liquidate(&mut a_token, &oracle, &flags, LIQUIDATOR, USER, 10,
            0);
    assert_eq!(result, Err(Error::NotLiquidatable));
}

#[test]
fn deposit_emits_event() {
    let oracle = fresh_oracle(10_000, WAD_U128);
    let mut market = new_market(RateModel::default(), RiskParams::default());
    let mut a_token = new_a_token();
    let flags = no_pause();

    let ev = market
        .deposit(&mut a_token, &oracle, &flags, USER, 10, 0)
        .unwrap();

    assert_eq!(ev, Deposit { account: USER, amount: 10 });
}

#[test]
fn borrow_emits_event() {
    let oracle = fresh_oracle(10_000, WAD_U128);
    let risk_params = RiskParams {
        collateral_factor: WAD_U128,
        liquidation_threshold: 0,
        close_factor: 0,
        liquidation_bonus: 0,
        reserve_factor: 0,
        borrow_cap: 1_000,
        supply_cap: 0,
    };
    let mut market = new_market(RateModel::default(), risk_params);
    let mut a_token = new_a_token();
    let flags = no_pause();

    market
        .deposit(&mut a_token, &oracle, &flags, USER, 100, 0)
        .unwrap();
    let ev = market.borrow(&a_token, &oracle, &flags, USER, 10, 0).unwrap();

    assert_eq!(ev, Borrow { account: USER, amount: 10 });
}

#[test]
fn repay_emits_event() {
    let oracle = fresh_oracle(10_000, WAD_U128);
    let risk_params = RiskParams {
        collateral_factor: WAD_U128,
        liquidation_threshold: 0,
        close_factor: 0,
        liquidation_bonus: 0,
        reserve_factor: 0,
        borrow_cap: 1_000,
        supply_cap: 0,
    };
    let mut market = new_market(RateModel::default(), risk_params);
    let mut a_token = new_a_token();
    let flags = no_pause();

    market
        .deposit(&mut a_token, &oracle, &flags, USER, 100, 0)
        .unwrap();
    market.borrow(&a_token, &oracle, &flags, USER, 20, 0).unwrap();
    let ev = market.repay(&oracle, USER, 5, 0).unwrap();

    assert_eq!(ev, Some(Repay { account: USER, amount: 5 }));
}

#[test]
fn withdraw_emits_event() {
    let oracle = fresh_oracle(10_000, WAD_U128);
    let mut market = new_market(RateModel::default(), RiskParams::default());
    let mut a_token = new_a_token();
    let flags = no_pause();

    market
        .deposit(&mut a_token, &oracle, &flags, USER, 20, 0)
        .unwrap();
    let ev = market
        .withdraw(&mut a_token, &oracle, &flags, USER, 5, 0)
        .unwrap();

    assert_eq!(ev, Withdraw { account: USER, amount: 5 });
}

#[test]
fn liquidate_emits_event() {
    let oracle = fresh_oracle(10_000, WAD_U128);
    let risk_params = RiskParams {
        collateral_factor: WAD_U128,
        liquidation_threshold: WAD_U128 * 80 / 100,
        close_factor: WAD_U128 / 2,
        liquidation_bonus: WAD_U128 * 5 / 100,
        reserve_factor: 0,
        borrow_cap: 10_000,
        supply_cap: 0,
    };
    let mut market = new_market(RateModel::default(), risk_params);
    let mut a_token = new_a_token();
    let flags = no_pause();

    market
        .deposit(&mut a_token, &oracle, &flags, USER, 100, 0)
        .unwrap();
    market.borrow(&a_token, &oracle, &flags, USER, 90, 0).unwrap();

    let ev = market
        .liquidate(&mut a_token, &oracle, &flags, LIQUIDATOR, USER, 50, 0)
        .unwrap();

    assert_eq!(
        ev,
        Liquidate {
            borrower: USER,
            liquidator: LIQUIDATOR,
            repay_amount: 45,
            seize_amount: 47,
        }
    );
}

#[test]
fn withdraw_blocked_when_unhealthy() {
    let oracle = fresh_oracle(10_000, WAD_U128);
    let risk_params = RiskParams {
        collateral_factor: WAD_U128 * 75 / 100,
        liquidation_threshold: WAD_U128 * 80 / 100,
        close_factor: WAD_U128 / 2,
        liquidation_bonus: 0,
        reserve_factor: 0,
        borrow_cap: 10_000,
        supply_cap: 0,
    };
    let mut market = new_market(RateModel::default(), risk_params);
    let mut a_token = new_a_token();
    let flags = no_pause();

    market
        .deposit(&mut a_token, &oracle, &flags, USER, 100, 0)
        .unwrap();
    market
        .deposit(&mut a_token, &oracle, &flags, ADMIN, 100, 0)
        .unwrap();
    market.borrow(&a_token, &oracle, &flags, USER, 70, 0).unwrap();

    let result = market.withdraw(&mut a_token, &oracle, &flags, USER, 50, 0);
    assert_eq!(result, Err(Error::HealthFactorTooLow));
}

#[test]
fn borrow_rejected_on_stale_oracle() {
    let oracle = fresh_oracle(1_000, WAD_U128);
    let risk_params = RiskParams {
        collateral_factor: WAD_U128,
        liquidation_threshold: 0,
        close_factor: 0,
        liquidation_bonus: 0,
        reserve_factor: 0,
        borrow_cap: 1_000,
        supply_cap: 0,
    };
    let mut market = new_market(RateModel::default(), risk_params);
    let mut a_token = new_a_token();
    let flags = no_pause();

    market
        .deposit(&mut a_token, &oracle, &flags, USER, 100, 0)
        .unwrap();

    let result = market.borrow(&a_token, &oracle, &flags, USER, 10, 2_000);
    assert_eq!(result, Err(Error::PriceStale));
}

#[test]
fn liquidate_rejected_on_stale_oracle() {
    let oracle = fresh_oracle(1_000, WAD_U128);
    let risk_params = RiskParams {
        collateral_factor: WAD_U128,
        liquidation_threshold: WAD_U128 * 80 / 100,
        close_factor: WAD_U128 / 2,
        liquidation_bonus: WAD_U128 * 5 / 100,
        reserve_factor: 0,
        borrow_cap: 10_000,
        supply_cap: 0,
    };
    let mut market = new_market(RateModel::default(), risk_params);
    let mut a_token = new_a_token();
    let flags = no_pause();

    market
        .deposit(&mut a_token, &oracle, &flags, USER, 100, 0)
        .unwrap();
    market.borrow(&a_token, &oracle, &flags, USER, 90, 0).unwrap();

    let result =
        market.liquidate(&mut a_token, &oracle, &flags, LIQUIDATOR, USER, 50,
            2_000);
    assert_eq!(result, Err(Error::PriceStale));
}

#[test]
fn withdraw_rejected_on_stale_oracle() {
    let oracle = fresh_oracle(1_000, WAD_U128);
    let mut market = new_market(RateModel::default(), RiskParams::default());
    let mut a_token = new_a_token();
    let flags = no_pause();

    market
        .deposit(&mut a_token, &oracle, &flags, USER, 50, 0)
        .unwrap();

    let result =
        market.withdraw(&mut a_token, &oracle, &flags, USER, 10, 2_000);
    assert_eq!(result, Err(Error::PriceStale));
}

#[test]
fn repay_rejected_on_stale_oracle() {
    let oracle = fresh_oracle(1_000, WAD_U128);
    let risk_params = RiskParams {
        collateral_factor: WAD_U128,
        liquidation_threshold: 0,
        close_factor: 0,
        liquidation_bonus: 0,
        reserve_factor: 0,
        borrow_cap: 1_000,
        supply_cap: 0,
    };
    let mut market = new_market(RateModel::default(), risk_params);
    let mut a_token = new_a_token();
    let flags = no_pause();

    market
        .deposit(&mut a_token, &oracle, &flags, USER, 100, 0)
        .unwrap();
    market.borrow(&a_token, &oracle, &flags, USER, 10, 0).unwrap();

    let result = market.repay(&oracle, USER, 5, 2_000);
    assert_eq!(result, Err(Error::PriceStale));
}

#[test]
fn admin_can_update_params() {
    let mut market = new_market(RateModel::default(), RiskParams::default());

    market.set_rate_model(ADMIN, 1, 2).unwrap();
    let mut new_params = RiskParams::default();
    new_params.reserve_factor = WAD_U128 / 10;
    market
        .set_risk_params(
            ADMIN,
            new_params.collateral_factor,
            new_params.liquidation_threshold,
            new_params.close_factor,
            new_params.liquidation_bonus,
            new_params.reserve_factor,
            new_params.borrow_cap,
            new_params.supply_cap,
        )
        .unwrap();

    let got_rate = market.get_rate_model();
    let got_params = market.get_risk_params();
    assert_eq!(got_rate.base_rate_per_sec, 1);
    assert_eq!(got_rate.slope_rate_per_sec, 2);
    assert_eq!(got_params.reserve_factor, WAD_U128 / 10);
}

#[test]
fn supply_cap_enforced() {
    let oracle = fresh_oracle(10_000, WAD_U128);
    let mut risk_params = RiskParams::default();
    risk_params.supply_cap = 150;
    let mut market = new_market(RateModel::default(), risk_params);
    let mut a_token = new_a_token();
    let flags = no_pause();

    market
        .deposit(&mut a_token, &oracle, &flags, USER, 100, 0)
        .unwrap();
    let result = market.deposit(&mut a_token, &oracle, &flags, USER, 60, 0);
    assert_eq!(result, Err(Error::BorrowTooLarge));
}
