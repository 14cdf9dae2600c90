//! Liquidity arithmetic on `u64` amounts with Q32.32 square root prices.
use crate::errors::SureError;
use crate::pool::LiquidityPosition;
use vstd::prelude::*;

verus! {

/// The signed change that a liquidity amount makes.
pub open spec fn signed_liquidity(liquidity_amount: u64, increase: bool) -> int {
    if increase {
        liquidity_amount as int
    } else {
        -(liquidity_amount as int)
    }
}

/// Turn an amount into a signed liquidity change: positive when increasing,
/// negative otherwise. Amounts above `i64::MAX` are too large.
pub fn validate_liquidity_amount(liquidity_amount: u64, increase: bool) -> (r: Result<
    i64,
    SureError,
>)
    ensures
        liquidity_amount > i64::MAX ==> r == Err::<i64, SureError>(SureError::LiquidityTooLarge),
        liquidity_amount <= i64::MAX ==> (r matches Ok(d) && d == signed_liquidity(
            liquidity_amount,
            increase,
        )),
{
    if liquidity_amount > i64::MAX as u64 {
        return Err(SureError::LiquidityTooLarge);
    }
    Ok(
        if increase {
            liquidity_amount as i64
        } else {
            -(liquidity_amount as i64)
        },
    )
}

/// Liquidity after a change of `delta`, or the error when it leaves `u64`.
pub open spec fn new_liquidity(liquidity: u64, delta: i64) -> Result<u64, SureError> {
    if liquidity + delta > u64::MAX {
        Err(SureError::LiquidityOverflow)
    } else if liquidity + delta < 0 {
        Err(SureError::LiquidityUnderflow)
    } else {
        Ok((liquidity + delta) as u64)
    }
}

/// Calculate/update new liquidity based on delta
///
/// Formula = delta > 0 : liquidity + delta ? liquidity - abs(delta)
pub fn calculate_new_liquidity(liquidity: u64, delta: i64) -> (r: Result<u64, SureError>)
    requires
        delta != i64::MIN,
    ensures
        r == new_liquidity(liquidity, delta),
{
    if delta == 0 {
        return Ok(liquidity);
    }
    if delta > 0 {
        match liquidity.checked_add(delta as u64) {
            Some(v) => Ok(v),
            None => Err(SureError::LiquidityOverflow),
        }
    } else {
        match liquidity.checked_sub((-delta) as u64) {
            Some(v) => Ok(v),
            None => Err(SureError::LiquidityUnderflow),
        }
    }
}

/// Applying a change and then its opposite gives back the liquidity.
pub proof fn law_new_liquidity_round_trip(liquidity: u64, delta: i64, next: u64)
    requires
        delta != i64::MIN,
        new_liquidity(liquidity, delta) == Ok::<u64, SureError>(next),
    ensures
        new_liquidity(next, (-delta) as i64) == Ok::<u64, SureError>(liquidity),
{
}

/// Order two prices, lower first.
pub open spec fn ordered(p0: u64, p1: u64) -> (u64, u64) {
    if p1 > p0 {
        (p0, p1)
    } else {
        (p1, p0)
    }
}

/// The change in token 0 (formula 6.29 of the Uniswap v3 white paper) from
/// the square root prices at the position's two ticks and at the current
/// tick.
pub open spec fn token_0_change(
    liquidity_delta: i64,
    tick_index_lower: i32,
    tick_index_upper: i32,
    current_tick_index: i32,
    sqrt_price_0: u64,
    sqrt_price_1: u64,
    current_sqrt_price: u64,
) -> Result<u64, SureError> {
    let (lower, upper) = ordered(sqrt_price_0, sqrt_price_1);
    let l = (liquidity_delta as u64) as int;
    if current_tick_index < tick_index_lower {
        Ok(0)
    } else {
        let diff = if current_tick_index >= tick_index_upper {
            upper - lower
        } else {
            current_sqrt_price - lower
        };
        if l * diff > u64::MAX {
            Err(SureError::MultiplictationQ3232Overflow)
        } else {
            Ok((l * diff) as u64)
        }
    }
}

/// Calculate the delta in token 0 of a position from the square root prices
/// (Q32.32) at its lower tick, its upper tick and the current tick.
///
/// This is based on formula 6.29 in Uniswap v3 white paper
pub fn calculate_token_0_delta(
    liquidity_delta: i64,
    liquidity_position: &LiquidityPosition,
    current_tick_index: i32,
    sqrt_price_0: u64,
    sqrt_price_1: u64,
    current_sqrt_price: u64,
) -> (r: Result<u64, SureError>)
    requires
        liquidity_position.tick_index_lower <= current_tick_index
            < liquidity_position.tick_index_upper ==> current_sqrt_price >= ordered(
            sqrt_price_0,
            sqrt_price_1,
        ).0,
    ensures
        r == token_0_change(
            liquidity_delta,
            liquidity_position.tick_index_lower,
            liquidity_position.tick_index_upper,
            current_tick_index,
            sqrt_price_0,
            sqrt_price_1,
            current_sqrt_price,
        ),
{
    let tick_index_lower = liquidity_position.tick_index_lower;
    let tick_index_upper = liquidity_position.tick_index_upper;
    let liquidity_delta_u = liquidity_delta as u64;
    let (sqrt_price_lower, sqrt_price_upper) = if sqrt_price_1 > sqrt_price_0 {
        (sqrt_price_0, sqrt_price_1)
    } else {
        (sqrt_price_1, sqrt_price_0)
    };
    if current_tick_index < tick_index_lower {
        Ok(0)
    } else if current_tick_index >= tick_index_upper {
        let sqrt_diff = sqrt_price_upper - sqrt_price_lower;
        match liquidity_delta_u.checked_mul(sqrt_diff) {
            Some(v) => Ok(v),
            None => Err(SureError::MultiplictationQ3232Overflow),
        }
    } else {
        let sqrt_diff = current_sqrt_price - sqrt_price_lower;
        match liquidity_delta_u.checked_mul(sqrt_diff) {
            Some(v) => Ok(v),
            None => Err(SureError::MultiplictationQ3232Overflow),
        }
    }
}

/// `1 / p` in integers, or the error when `p` is zero.
pub open spec fn reciprocal(p: u64, e: SureError) -> Result<u64, SureError> {
    if p == 0 {
        Err(e)
    } else {
        Ok(1u64 / p)
    }
}

/// The change in token 1 from the integer reciprocals of the square root
/// prices at the position's two ticks and at the current tick.
pub open spec fn token_1_change(
    liquidity_delta: i64,
    tick_index_lower: i32,
    tick_index_upper: i32,
    current_tick_index: i32,
    sqrt_price_0: u64,
    sqrt_price_1: u64,
    current_sqrt_price: u64,
) -> Result<u64, SureError> {
    let (lower, upper) = ordered(sqrt_price_0, sqrt_price_1);
    let l = (liquidity_delta as u64) as int;
    if current_tick_index >= tick_index_lower && current_tick_index >= tick_index_upper {
        Ok(0)
    } else {
        let first = if current_tick_index < tick_index_lower {
            reciprocal(lower, SureError::DivisionQ3232Error)
        } else {
            reciprocal(upper, SureError::DivisionQ3232Error)
        };
        let second = if current_tick_index < tick_index_lower {
            reciprocal(upper, SureError::DivisionQ3232Error)
        } else {
            reciprocal(current_sqrt_price, SureError::MultiplictationQ3232Overflow)
        };
        match first {
            Err(e) => Err(e),
            Ok(a) => match second {
                Err(e) => Err(e),
                Ok(b) => {
                    let (minuend, subtrahend) = if current_tick_index < tick_index_lower {
                        (a, b)
                    } else {
                        (b, a)
                    };
                    if minuend < subtrahend {
                        Err(SureError::SubtractionQ3232Error)
                    } else if l * (minuend - subtrahend) > u64::MAX {
                        Err(SureError::MultiplictationQ3232Overflow)
                    } else {
                        Ok((l * (minuend - subtrahend)) as u64)
                    }
                },
            },
        }
    }
}

/// Calculate token 1 change of a position from the square root prices
/// (Q32.32) at its lower tick, its upper tick and the current tick.
pub fn calculate_token_1_delta(
    liquidity_delta: i64,
    liquidity_position: &LiquidityPosition,
    current_tick_index: i32,
    sqrt_price_0: u64,
    sqrt_price_1: u64,
    current_sqrt_price: u64,
) -> (r: Result<u64, SureError>)
    ensures
        r == token_1_change(
            liquidity_delta,
            liquidity_position.tick_index_lower,
            liquidity_position.tick_index_upper,
            current_tick_index,
            sqrt_price_0,
            sqrt_price_1,
            current_sqrt_price,
        ),
{
    let tick_index_lower = liquidity_position.tick_index_lower;
    let tick_index_upper = liquidity_position.tick_index_upper;
    let liquidity_delta_u = liquidity_delta as u64;
    let (sqrt_price_lower, sqrt_price_upper) = if sqrt_price_1 > sqrt_price_0 {
        (sqrt_price_0, sqrt_price_1)
    } else {
        (sqrt_price_1, sqrt_price_0)
    };
    if current_tick_index < tick_index_lower {
        let sqrt_price_lower_reciprocal = match 1u64.checked_div(sqrt_price_lower) {
            Some(v) => v,
            None => return Err(SureError::DivisionQ3232Error),
        };
        let sqrt_price_upper_reciprocal = match 1u64.checked_div(sqrt_price_upper) {
            Some(v) => v,
            None => return Err(SureError::DivisionQ3232Error),
        };
        let sqrt_price_sub = match sqrt_price_lower_reciprocal.checked_sub(
            sqrt_price_upper_reciprocal,
        ) {
            Some(v) => v,
            None => return Err(SureError::SubtractionQ3232Error),
        };
        match liquidity_delta_u.checked_mul(sqrt_price_sub) {
            Some(v) => Ok(v),
            None => Err(SureError::MultiplictationQ3232Overflow),
        }
    } else if current_tick_index >= tick_index_upper {
        Ok(0)
    } else {
        let sqrt_price_upper_reciprocal = match 1u64.checked_div(sqrt_price_upper) {
            Some(v) => v,
            None => return Err(SureError::DivisionQ3232Error),
        };
        let sqrt_price_reciprocal = match 1u64.checked_div(current_sqrt_price) {
            Some(v) => v,
            None => return Err(SureError::MultiplictationQ3232Overflow),
        };
        let sqrt_price_sub = match sqrt_price_reciprocal.checked_sub(sqrt_price_upper_reciprocal) {
            Some(v) => v,
            None => return Err(SureError::SubtractionQ3232Error),
        };
        match liquidity_delta_u.checked_mul(sqrt_price_sub) {
            Some(v) => Ok(v),
            None => Err(SureError::MultiplictationQ3232Overflow),
        }
    }
}

} // verus!
