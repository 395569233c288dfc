use anchor_protocol::errors::Error;
use anchor_protocol::math::{utilization_rate, wad_div, wad_mul, WAD_U128};

#[test]
fn wad_mul_rounds_half_up() {
    let a = WAD_U128;
    let b = WAD_U128 / 2;
    assert_eq!(wad_mul(a, b), Ok(WAD_U128 / 2));
}

#[test]
fn wad_div_rounds_half_up() {
    let a = WAD_U128;
    let b = WAD_U128 * 2;
    assert_eq!(wad_div(a, b), Ok(WAD_U128 / 2));
}

#[test]
fn utilization_zero_borrows() {
    let cash = 100u128;
    let borrows = 0u128;
    let reserves = 0u128;
    assert_eq!(utilization_rate(cash, borrows, reserves), Ok(0));
}

#[test]
fn utilization_basic() {
    let cash = 100u128;
    let borrows = 100u128;
    let reserves = 0u128;
    let util = utilization_rate(cash, borrows, reserves);
    assert_eq!(util, Ok(WAD_U128 / 2));
}

#[test]
fn wad_mul_ties_round_up() {
    // 3 * 0.5 = 1.5 units: half-up rounds to 2, not to the even 1
    assert_eq!(wad_mul(3, WAD_U128 / 2), Ok(2));
}

#[test]
fn wad_div_exact_thirds() {
    // (1 * WAD + 1) / 3 truncates the repeating third
    assert_eq!(wad_div(1, 3), Ok(333_333_333_333_333_333));
}

#[test]
fn wad_mul_overflow_detected() {
    assert_eq!(wad_mul(u128::MAX, u128::MAX), Err(Error::MathOverflow));
    // the largest products that still fit round-trip exactly
    assert_eq!(wad_mul(u128::MAX, WAD_U128), Ok(u128::MAX));
}

#[test]
fn utilization_denominator_underflow_is_fatal() {
    // reserves exceeding cash + borrows is an invariant violation
    assert_eq!(utilization_rate(1, 1, 3), Err(Error::MathOverflow));
}

#[test]
fn utilization_zero_denominator() {
    assert_eq!(utilization_rate(0, 5, 5), Ok(0));
}
