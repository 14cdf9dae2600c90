use anchor_lang::prelude::Pubkey;
use sure_protocol::errors::SureError;
use sure_protocol::fixed_point_math::mul_round_down_Q3232;
use sure_protocol::liquidity_q32::{
    calculate_new_liquidity, calculate_token_0_delta, calculate_token_1_delta,
    validate_liquidity_amount,
};
use sure_protocol::pool::LiquidityPosition;

fn position(lower: i32, upper: i32) -> LiquidityPosition {
    let key = Pubkey::default();
    LiquidityPosition {
        bump: 0,
        liquidity: 0,
        used_liquidity: 0,
        pool: key,
        position_mint: key,
        tick_index_lower: lower,
        tick_index_upper: upper,
        owed_fees: 0,
        owed_premium: 0,
        fee_growth_inside_0_last_x64: 0,
        fee_growth_inside_1_last_x64: 0,
    }
}

#[test]
fn liquidity_amount_validation() {
    assert_eq!(validate_liquidity_amount(10, true), Ok(10));
    assert_eq!(validate_liquidity_amount(10, false), Ok(-10));
    assert_eq!(
        validate_liquidity_amount(i64::MAX as u64 + 1, true),
        Err(SureError::LiquidityTooLarge)
    );
}

#[test]
fn u64_liquidity_round_trip() {
    let d = validate_liquidity_amount(25, true).unwrap();
    let up = calculate_new_liquidity(75, d).unwrap();
    assert_eq!(up, 100);
    let down = calculate_new_liquidity(up, validate_liquidity_amount(25, false).unwrap()).unwrap();
    assert_eq!(down, 75);
    assert_eq!(calculate_new_liquidity(3, -4), Err(SureError::LiquidityUnderflow));
    assert_eq!(calculate_new_liquidity(u64::MAX, 1), Err(SureError::LiquidityOverflow));
}

#[test]
fn q3232_product() {
    assert_eq!(mul_round_down_Q3232(0, 5), Ok(0));
    // 3 * 1.5 = 4.5, rounded down
    assert_eq!(mul_round_down_Q3232(3, 3 << 31), Ok(4));
    // 2^32 * 1.0 and 3 * 0.5
    assert_eq!(mul_round_down_Q3232(1 << 32, 1 << 32), Ok(1 << 32));
    assert_eq!(mul_round_down_Q3232(3, 1 << 31), Ok(1));
    assert_eq!(mul_round_down_Q3232(u64::MAX, 2), Ok((1 << 33) - 1));
    assert_eq!(
        mul_round_down_Q3232(u64::MAX, u64::MAX),
        Err(SureError::MultiplictationQ3232Overflow)
    );
}

#[test]
fn token_0_from_prices() {
    let p = position(10, 20);
    assert_eq!(calculate_token_0_delta(3, &p, 5, 100, 400, 200), Ok(0));
    // above the range: the whole price span, whatever the order of the prices
    assert_eq!(calculate_token_0_delta(3, &p, 20, 400, 100, 200), Ok(900));
    // inside the range: from the lower price to the current one
    assert_eq!(calculate_token_0_delta(3, &p, 15, 100, 400, 250), Ok(450));
    assert_eq!(
        calculate_token_0_delta(-1, &p, 20, 0, u64::MAX, 0),
        Err(SureError::MultiplictationQ3232Overflow)
    );
}

#[test]
fn token_1_from_prices() {
    let p = position(10, 20);
    // above the range nothing is paid
    assert_eq!(calculate_token_1_delta(3, &p, 20, 1, 2, 3), Ok(0));
    // below the range: 1/1 - 1/2 = 1
    assert_eq!(calculate_token_1_delta(3, &p, 5, 1, 2, 3), Ok(3));
    assert_eq!(calculate_token_1_delta(3, &p, 5, 0, 2, 3), Err(SureError::DivisionQ3232Error));
    // inside the range: 1/current - 1/upper
    assert_eq!(calculate_token_1_delta(3, &p, 15, 1, 2, 1), Ok(3));
    assert_eq!(
        calculate_token_1_delta(3, &p, 15, 1, 2, 0),
        Err(SureError::MultiplictationQ3232Overflow)
    );
    assert_eq!(calculate_token_1_delta(3, &p, 15, 1, 1, 2), Err(SureError::SubtractionQ3232Error));
}
