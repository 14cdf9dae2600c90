use std::ops::Shr;
use sure_protocol::errors::SureError;
use sure_protocol::liquidity::{
    calculate_new_liquidity, calculate_token_0_delta, calculate_token_1_delta, get_liquidity_delta,
};
use sure_protocol::product::ProductType;
use sure_protocol::tick_math::get_tick_at_sqrt_ratio;

#[test]
fn test_calculate_token_0_delta() {
    //Q64.0
    let liquidity_delta: i128 = (1_000_000 as i128) << 64;
    let sqrt_price_lower = (5 as u128) << 64;
    let tick_index_lower = get_tick_at_sqrt_ratio(sqrt_price_lower).unwrap();

    let sqrt_price_upper = (7 as u128) << 64;
    let tick_index_upper = get_tick_at_sqrt_ratio(sqrt_price_upper).unwrap();

    let sqrt_price_current = (6 as u128) << 64;
    let tick_index_current = get_tick_at_sqrt_ratio(sqrt_price_current).unwrap();

    let token_delta_0 = calculate_token_0_delta(
        liquidity_delta,
        tick_index_lower,
        tick_index_upper,
        tick_index_current,
        &ProductType::AMM,
    )
    .unwrap();
    println!(
        "token delta 0: {} , liquidity delta : {}",
        token_delta_0, liquidity_delta
    );
    let token_delta_1 = calculate_token_1_delta(
        liquidity_delta,
        tick_index_lower,
        tick_index_upper,
        tick_index_current,
        &ProductType::AMM,
    )
    .unwrap();
    println!("token delta 1: {}", token_delta_1);
    assert_ne!(token_delta_1, 0);

    assert!(
        (liquidity_delta.shr(64) as u64) - token_delta_0 < 100_000,
        "token delta equal to calculation"
    );
}

#[test]
fn liquidity_delta_of_an_amount() {
    assert_eq!(get_liquidity_delta(5, true), Ok(5));
    assert_eq!(get_liquidity_delta(5, false), Ok(-5));
    assert_eq!(
        get_liquidity_delta(i128::MAX as u128 + 1, true),
        Err(SureError::LiquidityTooLarge)
    );
}

#[test]
fn new_liquidity_round_trip() {
    let up = calculate_new_liquidity(100, get_liquidity_delta(40, true).unwrap()).unwrap();
    assert_eq!(up, 140);
    let down = calculate_new_liquidity(up, get_liquidity_delta(40, false).unwrap()).unwrap();
    assert_eq!(down, 100);
    assert_eq!(calculate_new_liquidity(100, -101), Err(SureError::LiquidityUnderflow));
    assert_eq!(calculate_new_liquidity(u128::MAX, 1), Err(SureError::LiquidityOverflow));
    assert_eq!(calculate_new_liquidity(7, 0), Ok(7));
}

#[test]
fn token_deltas_outside_the_range() {
    let lower = get_tick_at_sqrt_ratio(5u128 << 64).unwrap();
    let upper = get_tick_at_sqrt_ratio(7u128 << 64).unwrap();
    // below the range nothing of token 0 is paid
    assert_eq!(
        calculate_token_0_delta(1 << 64, lower, upper, lower - 1, &ProductType::AMM),
        Ok(0)
    );
    // above the range nothing of token 1 is paid
    assert_eq!(
        calculate_token_1_delta(1 << 64, lower, upper, upper, &ProductType::AMM),
        Ok(0)
    );
}
