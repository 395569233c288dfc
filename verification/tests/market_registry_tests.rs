use anchor_protocol::errors::Error;
use anchor_protocol::lending_market::LendingMarket;
use anchor_protocol::market_registry::MarketRegistry;
use anchor_protocol::math::WAD_U128;
use anchor_protocol::types::{RateModel, RiskParams};

#[test]
fn admin_can_register_market() {
    let admin: u64 = 0;
    let asset: u64 = 1;
    let market: u64 = 2;
    let a_token: u64 = 3;
    let oracle: u64 = 4;
    let mut registry = MarketRegistry::init(100, admin);

    registry
        .register_market(admin, asset, market, a_token, oracle)
        .unwrap();

    let addrs = registry.get_market_addresses(asset).unwrap();
    assert_eq!(addrs.market, market);
    assert_eq!(addrs.a_token, a_token);
    assert_eq!(addrs.oracle, oracle);
    assert!(registry.is_market_active(asset));
    assert_eq!(registry.get_market_count(), 1);
    assert_eq!(registry.get_market_by_index(0), Ok(asset));
}

#[test]
fn non_admin_cannot_register_market() {
    let admin: u64 = 0;
    let asset: u64 = 1;
    let market: u64 = 2;
    let a_token: u64 = 3;
    let oracle: u64 = 4;
    let mut registry = MarketRegistry::init(100, admin);

    let result = registry.register_market(5, asset, market, a_token, oracle);
    assert!(result.is_err());
}

#[test]
fn guardian_can_pause_market() {
    let admin: u64 = 0;
    let guardian: u64 = 5;
    let asset: u64 = 1;
    let market: u64 = 2;
    let a_token: u64 = 3;
    let oracle: u64 = 4;
    let mut registry = MarketRegistry::init(100, admin);

    registry
        .register_market(admin, asset, market, a_token, oracle)
        .unwrap();
    registry.grant_guardian(admin, guardian).unwrap();

    let flags = registry.get_pause_flags(asset).unwrap();
    registry
        .set_pause_flags(
            guardian,
            asset,
            flags.supply_paused,
            true,
            flags.withdraw_paused,
            flags.repay_paused,
            flags.liquidation_paused,
        )
        .unwrap();

    let updated = registry.get_pause_flags(asset).unwrap();
    assert!(updated.borrow_paused);
}

#[test]
fn admin_can_update_market_params() {
    let admin: u64 = 0;
    let asset: u64 = 1;
    let a_token: u64 = 3;
    let oracle: u64 = 4;
    let registry_addr: u64 = 100;
    let market_addr: u64 = 2;

    let mut registry = MarketRegistry::init(registry_addr, admin);

    let rate_model = RateModel::default();
    let risk_params = RiskParams::default();
    let mut market = LendingMarket::init(
        admin,
        asset,
        a_token,
        oracle,
        registry_addr,
        market_addr,
        rate_model,
        risk_params,
        0,
    );

    registry
        .register_market(admin, asset, market_addr, a_token, oracle)
        .unwrap();

    let base_rate_per_sec: u128 = 1;
    let slope_rate_per_sec: u128 = 2;
    let mut new_params = RiskParams::default();
    new_params.reserve_factor = WAD_U128 / 10;

    registry
        .update_market_rate_model(
            admin,
            asset,
            &mut market,
            base_rate_per_sec,
            slope_rate_per_sec,
        )
        .unwrap();
    registry
        .update_market_risk_params(
            admin,
            asset,
            &mut market,
            new_params.collateral_factor,
            new_params.liquidation_threshold,
            new_params.close_factor,
            new_params.liquidation_bonus,
            new_params.reserve_factor,
            new_params.borrow_cap,
            new_params.supply_cap,
        )
        .unwrap();

    let got_rate = market.get_rate_model();
    let got_params = market.get_risk_params();
    assert_eq!(got_rate.base_rate_per_sec, 1);
    assert_eq!(got_rate.slope_rate_per_sec, 2);
    assert_eq!(got_params.reserve_factor, WAD_U128 / 10);
}

#[test]
fn non_admin_cannot_update_market_params() {
    let admin: u64 = 0;
    let attacker: u64 = 1;
    let asset: u64 = 2;
    let a_token: u64 = 4;
    let oracle: u64 = 5;
    let registry_addr: u64 = 100;
    let market_addr: u64 = 3;

    let mut registry = MarketRegistry::init(registry_addr, admin);

    let mut market = LendingMarket::init(
        admin,
        asset,
        a_token,
        oracle,
        registry_addr,
        market_addr,
        RateModel::default(),
        RiskParams::default(),
        0,
    );

    registry
        .register_market(admin, asset, market_addr, a_token, oracle)
        .unwrap();

    let result = registry.update_market_rate_model(
        attacker,
        asset,
        &mut market,
        1,
        2,
    );
    assert!(result.is_err());
}

#[test]
fn duplicate_registration_rejected() {
    let admin: u64 = 0;
    let mut registry = MarketRegistry::init(100, admin);
    registry.register_market(admin, 1, 2, 3, 4).unwrap();
    assert_eq!(
        registry.register_market(admin, 1, 2, 3, 4),
        Err(Error::MarketAlreadyRegistered)
    );
}

#[test]
fn unknown_asset_not_found() {
    let admin: u64 = 0;
    let registry = MarketRegistry::init(100, admin);
    assert_eq!(registry.get_market_addresses(9), Err(Error::MarketNotFound));
    assert_eq!(registry.get_pause_flags(9), Err(Error::MarketNotFound));
    assert_eq!(registry.get_market_by_index(0), Err(Error::MarketNotFound));
    assert!(!registry.is_market_active(9));
}

#[test]
fn market_can_be_deactivated() {
    let admin: u64 = 0;
    let mut registry = MarketRegistry::init(100, admin);
    registry.register_market(admin, 1, 2, 3, 4).unwrap();
    registry.set_market_active(admin, 1, false).unwrap();
    assert!(!registry.is_market_active(1));
}
