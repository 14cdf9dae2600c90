//! Liquidity changes of a position and the token amounts they move.
use crate::errors::SureError;
use crate::pool::{next_pool_liquidity, LiquidityPosition, Pool};
use crate::product::ProductType;
use crate::tick_math::{
    get_sqrt_ratio_at_tick, law_sqrt_ratio_strictly_increasing, sqrt_ratio_at_tick, MAX_TICK_INDEX,
    MIN_TICK_INDEX,
};
use crate::tick_v2::{
    abs_i128, add_liquidity_delta, fee_growth_inside, liquidity_after_delta, Tick, TickArray,
    TickUpdate,
};
use crate::u256::{pow128, pow256, pow64, U256};
use vstd::prelude::*;

verus! {

/// Signed liquidity delta of an amount, or `LiquidityTooLarge` when the
/// amount does not fit in `i128`.
pub open spec fn liquidity_delta_of(liquidity_amount: u128, increase: bool) -> Result<i128, SureError> {
    if liquidity_amount > i128::MAX {
        Err(SureError::LiquidityTooLarge)
    } else if increase {
        Ok(liquidity_amount as i128)
    } else {
        Ok((-liquidity_amount) as i128)
    }
}

pub fn get_liquidity_delta(liquidity_amount: u128, increase: bool) -> (r: Result<i128, SureError>)
    ensures
        r == liquidity_delta_of(liquidity_amount, increase),
        r matches Ok(d) ==> d != i128::MIN,
{
    if liquidity_amount > i128::MAX as u128 {
        return Err(SureError::LiquidityTooLarge);
    }
    Ok(
        if increase {
            liquidity_amount as i128
        } else {
            -(liquidity_amount as i128)
        },
    )
}

/// Calculate/update new liquidity based on delta
///
/// Formula = delta > 0 : liquidity + delta ? liquidity - abs(delta)
pub fn calculate_new_liquidity(liquidity: u128, delta: i128) -> (r: Result<u128, SureError>)
    requires
        delta != i128::MIN,
    ensures
        r == liquidity_after_delta(liquidity, delta),
{
    if delta == 0 {
        return Ok(liquidity);
    }
    if delta > 0 {
        match liquidity.checked_add(delta as u128) {
            Some(v) => Ok(v),
            None => Err(SureError::LiquidityOverflow),
        }
    } else {
        match liquidity.checked_sub((-delta) as u128) {
            Some(v) => Ok(v),
            None => Err(SureError::LiquidityUnderflow),
        }
    }
}

/// The lower and the higher of two square-root prices.
pub open spec fn ordered_prices(s0: nat, s1: nat) -> (nat, nat) {
    if s1 > s0 {
        (s0, s1)
    } else {
        (s1, s0)
    }
}

/// The price difference that token 0 is paid over (zero when the current
/// tick lies below the range).
pub open spec fn token_0_price_span(lower: i32, upper: i32, current: i32) -> int {
    let (sl, su) = ordered_prices(sqrt_ratio_at_tick(lower), sqrt_ratio_at_tick(upper));
    if current >= upper {
        su - sl
    } else {
        sqrt_ratio_at_tick(current) - sl
    }
}

/// Token 0 moved by a liquidity change: `|delta| * span / 2^128` (a Q64.64
/// liquidity times a Q64.64 price span, back to an integer), where the span is
/// the price range below the current price within the position's range.
pub open spec fn token_0_delta(liquidity_delta: i128, lower: i32, upper: i32, current: i32) -> Result<
    u64,
    SureError,
> {
    if current < lower {
        Ok(0)
    } else {
        let amount = abs_i128(liquidity_delta) * token_0_price_span(lower, upper, current);
        Ok((amount / (pow128() as int)) as u64)
    }
}

/// `token_0_delta` can be computed: the range is ordered around the current
/// price and the Q128.128 product fits in 192 bits.
pub open spec fn token_0_computable(liquidity_delta: i128, lower: i32, upper: i32, current: i32) -> bool {
    &&& liquidity_delta != i128::MIN
    &&& lower != i32::MIN && upper != i32::MIN && current != i32::MIN
    &&& current < lower || ({
        let span = token_0_price_span(lower, upper, current);
        span >= 0 && abs_i128(liquidity_delta) * span < pow128() * pow64()
    })
}

/// Calculate the delta in token 0
///
/// Based on formula 6.29 of the Uniswap v3 white paper: the liquidity
/// (Q64.64) times the square-root price difference (Q64.64), shifted back to
/// Q64.64, then to an integer.
#[allow(non_snake_case)]
pub fn calculate_token_0_delta(
    liquidity_delta: i128,
    tick_index_lower: i32,
    tick_index_upper: i32,
    current_tick_index: i32,
    productType: &ProductType,
) -> (r: Result<u64, SureError>)
    requires
        token_0_computable(liquidity_delta, tick_index_lower, tick_index_upper, current_tick_index),
    ensures
        r == token_0_delta(liquidity_delta, tick_index_lower, tick_index_upper, current_tick_index),
{
    let sqrt_price_0 = get_sqrt_ratio_at_tick(tick_index_lower)?;
    let sqrt_price_1 = get_sqrt_ratio_at_tick(tick_index_upper)?;
    let abs_delta: u128 = if liquidity_delta < 0 {
        (-liquidity_delta) as u128
    } else {
        liquidity_delta as u128
    };
    // Q64.64 as a 256-bit word
    let liquidity_delta_u = U256::from_u128(abs_delta);
    let current_sqrt_price = get_sqrt_ratio_at_tick(current_tick_index)?;
    let (sqrt_price_lower, sqrt_price_upper) = if sqrt_price_1 > sqrt_price_0 {
        (sqrt_price_0, sqrt_price_1)
    } else {
        (sqrt_price_1, sqrt_price_0)
    };
    if current_tick_index < tick_index_lower {
        Ok(0)
    } else {
        let sqrt_diff = if current_tick_index >= tick_index_upper {
            sqrt_price_upper - sqrt_price_lower
        } else {
            current_sqrt_price - sqrt_price_lower
        };
        shifted_token_change(&liquidity_delta_u, sqrt_diff)
    }
}

/// `liquidity * diff >> 64 >> 64` for a Q64.64 liquidity and price span.
fn shifted_token_change(liquidity: &U256, sqrt_diff: u128) -> (r: Result<u64, SureError>)
    requires
        liquidity.value() < pow128(),
        liquidity.value() * sqrt_diff < pow128() * pow64(),
    ensures
        r == Ok::<u64, SureError>((liquidity.value() * (sqrt_diff as nat) / pow128()) as u64),
{
    proof {
        crate::u256::lemma_two_pow_values();
        assert(pow128() * pow64() < pow256());
    }
    // Q128.128
    let product = match liquidity.checked_mul_u128(sqrt_diff) {
        Some(p) => p,
        None => return Err(SureError::MultiplictationQ3232Overflow),
    };
    // -> Q64.64
    let token_change = product.shr(64);
    proof {
        assert(token_change.value() < pow128()) by (nonlinear_arith)
            requires
                token_change.value() == product.value() / 18446744073709551616,
                product.value() < 340282366920938463463374607431768211456 * 18446744073709551616,
        ;
    }
    let token_change = token_change.as_u128();
    proof {
        assert(token_change / 18446744073709551616 == liquidity.value() * (sqrt_diff as nat)
            / pow128()) by (nonlinear_arith)
            requires
                token_change == product.value() / 18446744073709551616,
                product.value() == liquidity.value() * sqrt_diff,
                pow128() == 340282366920938463463374607431768211456,
                product.value() >= 0,
        ;
    }
    if token_change / 18446744073709551616 > u64::MAX as u128 {
        return Err(SureError::OverflowU64);
    }
    Ok((token_change / 18446744073709551616) as u64)
}

/// The price span and the pair of prices whose product scales token 1.
pub open spec fn token_1_terms(lower: i32, upper: i32, current: i32) -> (int, nat) {
    let (sl, su) = ordered_prices(sqrt_ratio_at_tick(lower), sqrt_ratio_at_tick(upper));
    if current < lower {
        (su - sl, su * sl)
    } else {
        (su - sqrt_ratio_at_tick(current), su * sqrt_ratio_at_tick(current))
    }
}

/// Token 1 moved by a liquidity change: `|delta| * span / (p_a * p_b / 2^64) / 2^64`
/// (formula 6.30 of the Uniswap v3 white paper); zero for coverage products
/// and when the current tick is at or above the range.
pub open spec fn token_1_delta(
    liquidity_delta: i128,
    lower: i32,
    upper: i32,
    current: i32,
    product_type: ProductType,
) -> Result<u64, SureError> {
    if product_type == ProductType::Coverage || (current >= lower && current >= upper) {
        Ok(0)
    } else {
        let (span, prices) = token_1_terms(lower, upper, current);
        let numerator = abs_i128(liquidity_delta) * span;
        let denominator = prices / pow64();
        if numerator * pow64() >= pow256() {
            Err(SureError::MultiplictationQ3232Overflow)
        } else if denominator == 0 {
            Err(SureError::DivisionQ3232Error)
        } else {
            Ok(((numerator / denominator as int) / pow64() as int) as u64)
        }
    }
}

/// `token_1_delta` can be computed: the span is non-negative and a finite
/// quotient fits in 128 bits.
pub open spec fn token_1_computable(
    liquidity_delta: i128,
    lower: i32,
    upper: i32,
    current: i32,
    product_type: ProductType,
) -> bool {
    &&& liquidity_delta != i128::MIN
    &&& lower != i32::MIN && upper != i32::MIN && current != i32::MIN
    &&& product_type == ProductType::Coverage || (current >= lower && current >= upper) || ({
        let (span, prices) = token_1_terms(lower, upper, current);
        let numerator = abs_i128(liquidity_delta) * span;
        let denominator = prices / pow64();
        &&& span >= 0
        &&& numerator * pow64() >= pow256() || denominator == 0 || numerator / (denominator as int) < pow128()
    })
}

/// `((liquidity << 64) * diff >> 64) / (p_a * p_b >> 64)`, then to an integer.
fn token_1_ratio(liquidity_x64: &U256, sqrt_diff: u128, price_a: u128, price_b: u128, Ghost(liquidity): Ghost<nat>) -> (r: Result<
    u64,
    SureError,
>)
    requires
        liquidity < pow128(),
        liquidity_x64.value() == liquidity * pow64(),
        ({
            let numerator = liquidity * (sqrt_diff as nat);
            let denominator = (price_a as nat) * (price_b as nat) / pow64();
            numerator * pow64() >= pow256() || denominator == 0 || numerator / denominator
                < pow128()
        }),
    ensures
        ({
            let numerator = liquidity * (sqrt_diff as nat);
            let denominator = (price_a as nat) * (price_b as nat) / pow64();
            if numerator * pow64() >= pow256() {
                r == Err::<u64, SureError>(SureError::MultiplictationQ3232Overflow)
            } else if denominator == 0 {
                r == Err::<u64, SureError>(SureError::DivisionQ3232Error)
            } else {
                r == Ok::<u64, SureError>(((numerator / denominator) / pow64()) as u64)
            }
        }),
{
    proof {
        crate::u256::lemma_two_pow_values();
        assert(liquidity * pow64() * sqrt_diff == liquidity * sqrt_diff * pow64()) by (nonlinear_arith);
    }
    // Q192.64 x Q192.64 -> Q192.64
    let nominator = match liquidity_x64.checked_mul_u128(sqrt_diff) {
        Some(p) => p.shr(64),
        None => {
            proof {
                assert(liquidity * (sqrt_diff as nat) * pow64() >= pow256());
            }
            return Err(SureError::MultiplictationQ3232Overflow);
        },
    };
    proof {
        assert(nominator.value() == liquidity * sqrt_diff) by (nonlinear_arith)
            requires
                nominator.value() == (liquidity * sqrt_diff * 18446744073709551616) / 18446744073709551616,
        ;
    }
    proof {
        assert(price_a * price_b < pow256()) by (nonlinear_arith)
            requires
                price_a < pow128(),
                price_b < pow128(),
                pow256() == pow128() * pow128(),
        ;
    }
    let denominator = match U256::from_u128(price_a).checked_mul_u128(price_b) {
        Some(p) => p.shr(64),
        None => return Err(SureError::MultiplictationQ3232Overflow),
    };
    let ratio = match U256::div_to_u128(&nominator, &denominator) {
        Some(q) => q,
        None => return Err(SureError::DivisionQ3232Error),
    };
    // -> Q64.64
    let token_change = ratio;
    if token_change / 18446744073709551616 > u64::MAX as u128 {
        return Err(SureError::OverflowU64);
    }
    Ok((token_change / 18446744073709551616) as u64)
}

/// Calculate token 1 change
///
/// Zero for coverage products, whose second vault only holds premiums.
pub fn calculate_token_1_delta(
    liquidity_delta: i128,
    tick_index_lower: i32,
    tick_index_upper: i32,
    current_tick_index: i32,
    product_type: &ProductType,
) -> (r: Result<u64, SureError>)
    requires
        token_1_computable(
            liquidity_delta,
            tick_index_lower,
            tick_index_upper,
            current_tick_index,
            *product_type,
        ),
    ensures
        r == token_1_delta(
            liquidity_delta,
            tick_index_lower,
            tick_index_upper,
            current_tick_index,
            *product_type,
        ),
{
    let abs_delta: u128 = if liquidity_delta < 0 {
        (-liquidity_delta) as u128
    } else {
        liquidity_delta as u128
    };
    let liquidity_delta_u = U256::from_u128(abs_delta).shl(64);
    proof {
        crate::u256::lemma_two_pow_values();
    }
    let sqrt_price_0 = get_sqrt_ratio_at_tick(tick_index_lower)?;
    let sqrt_price_1 = get_sqrt_ratio_at_tick(tick_index_upper)?;
    let current_sqrt_price = get_sqrt_ratio_at_tick(current_tick_index)?;
    let (sqrt_price_lower, sqrt_price_upper) = if sqrt_price_1 > sqrt_price_0 {
        (sqrt_price_0, sqrt_price_1)
    } else {
        (sqrt_price_1, sqrt_price_0)
    };
    // If the product is smart contract coverage
    // vault 1 is just holding premiums
    if product_type.is_smart_contract_coverage() {
        return Ok(0);
    }
    if current_tick_index < tick_index_lower {
        let sqrt_diff = sqrt_price_upper - sqrt_price_lower;
        token_1_ratio(&liquidity_delta_u, sqrt_diff, sqrt_price_upper, sqrt_price_lower, Ghost(abs_delta as nat))
    } else if current_tick_index >= tick_index_upper {
        Ok(0)
    } else {
        let sqrt_diff = sqrt_price_upper - current_sqrt_price;
        token_1_ratio(&liquidity_delta_u, sqrt_diff, sqrt_price_upper, current_sqrt_price, Ghost(abs_delta as nat))
    }
}


/// The state changes of a liquidity position update.
#[derive(Clone, Copy, PartialEq, Eq, Debug, Structural)]
pub struct UpdatedLiquidityState {
    pub liquidity_delta: i128,
    pub next_liquidity: u128,
    pub tick_lower_update: TickUpdate,
    pub tick_upper_update: TickUpdate,
    pub token_0_delta: u64,
    pub token_1_delta: u64,
    pub fee_growth_inside_0_x64: u128,
    pub fee_growth_inside_1_x64: u128,
}

/// The signed liquidity delta of a valid amount.
pub open spec fn signed_amount(amount: u128, increase: bool) -> i128 {
    if increase {
        amount as i128
    } else {
        (-amount) as i128
    }
}

/// The liquidity state after changing a position by `amount`, with token 1
/// computed for `product_type` when `with_token_1` (AMM) and zero otherwise
/// (coverage: vault 1 only holds premiums).
pub open spec fn liquidity_state(
    position: LiquidityPosition,
    pool_liquidity: u128,
    current: i32,
    tick_spacing: u16,
    fee_growth_0: u128,
    fee_growth_1: u128,
    tick_array_lower: TickArray,
    tick_array_upper: TickArray,
    amount: u128,
    is_increasing: bool,
    product_type: ProductType,
    with_token_1: bool,
) -> Result<UpdatedLiquidityState, SureError> {
    let lower = position.tick_index_lower;
    let upper = position.tick_index_upper;
    if amount == 0 {
        Err(SureError::LiquidityHaveToBeGreaterThan0)
    } else {
        match liquidity_delta_of(amount, is_increasing) {
            Err(e) => Err(e),
            Ok(delta) => match tick_array_lower.tick_lookup(lower, tick_spacing) {
                Err(e) => Err(e),
                Ok(tick_lower) => match tick_array_upper.tick_lookup(upper, tick_spacing) {
                    Err(e) => Err(e),
                    Ok(tick_upper) => match next_pool_liquidity(
                        pool_liquidity,
                        current,
                        lower,
                        upper,
                        delta,
                    ) {
                        Err(e) => Err(e),
                        Ok(next_liquidity) => match tick_lower.next_liquidity_update(
                            lower,
                            current,
                            fee_growth_0,
                            fee_growth_1,
                            delta,
                            false,
                        ) {
                            Err(e) => Err(e),
                            Ok(lower_update) => match tick_upper.next_liquidity_update(
                                upper,
                                current,
                                fee_growth_0,
                                fee_growth_1,
                                delta,
                                true,
                            ) {
                                Err(e) => Err(e),
                                Ok(upper_update) => if lower > upper {
                                    Err(SureError::InvalidTickIndexProvided)
                                } else {
                                    let fees = fee_growth_inside(
                                        tick_lower,
                                        lower,
                                        tick_upper,
                                        upper,
                                        current,
                                        fee_growth_0,
                                        fee_growth_1,
                                    );
                                    match token_0_delta(delta, lower, upper, current) {
                                        Err(e) => Err(e),
                                        Ok(token_0) => match (if with_token_1 {
                                            token_1_delta(delta, lower, upper, current, product_type)
                                        } else {
                                            Ok(0u64)
                                        }) {
                                            Err(e) => Err(e),
                                            Ok(token_1) => Ok(
                                                UpdatedLiquidityState {
                                                    liquidity_delta: delta,
                                                    next_liquidity,
                                                    tick_lower_update: lower_update,
                                                    tick_upper_update: upper_update,
                                                    token_0_delta: token_0,
                                                    token_1_delta: token_1,
                                                    fee_growth_inside_0_x64: fees.0,
                                                    fee_growth_inside_1_x64: fees.1,
                                                },
                                            ),
                                        },
                                    }
                                },
                            },
                        },
                    },
                },
            },
        }
    }
}

/// The token amounts of a position change can be computed without overflow.
pub open spec fn state_computable(
    position: LiquidityPosition,
    current: i32,
    amount: u128,
    is_increasing: bool,
    product_type: ProductType,
    with_token_1: bool,
) -> bool {
    amount == 0 || amount > i128::MAX || ({
        let delta = signed_amount(amount, is_increasing);
        &&& token_0_computable(delta, position.tick_index_lower, position.tick_index_upper, current)
        &&& with_token_1 ==> token_1_computable(
            delta,
            position.tick_index_lower,
            position.tick_index_upper,
            current,
            product_type,
        )
    })
}

/// Build liquidity state based on which product is being used
#[allow(non_snake_case)]
pub fn build_liquidity_state(
    position: &LiquidityPosition,
    pool: &Pool,
    tick_array_lower: &TickArray,
    tick_array_upper: &TickArray,
    amount_delta: u128,
    productType: &ProductType,
    is_increasing: bool,
) -> (r: Result<UpdatedLiquidityState, SureError>)
    requires
        pool.tick_spacing != 0,
        tick_array_lower.fits(pool.tick_spacing),
        tick_array_upper.fits(pool.tick_spacing),
        state_computable(
            *position,
            pool.current_tick_index,
            amount_delta,
            is_increasing,
            *productType,
            *productType == ProductType::AMM,
        ),
    ensures
        r == liquidity_state(
            *position,
            pool.liquidity,
            pool.current_tick_index,
            pool.tick_spacing,
            pool.fee_growth_0_x64,
            pool.fee_growth_1_x64,
            *tick_array_lower,
            *tick_array_upper,
            amount_delta,
            is_increasing,
            *productType,
            *productType == ProductType::AMM,
        ),
{
    if productType.is_smart_contract_coverage() {
        build_liquidity_coverage_state(
            position,
            pool,
            tick_array_lower,
            tick_array_upper,
            amount_delta,
            is_increasing,
        )
    } else if productType.is_smart_AMM() {
        build_new_liquidity_AMM_state(
            position,
            pool,
            tick_array_lower,
            tick_array_upper,
            amount_delta,
            productType,
            is_increasing,
        )
    } else {
        return Err(SureError::InvalidProductTypeId);
    }
}

/// Build new liquidity coverage state
///
/// For insurance, vault 0 is used for the deposited liquidity
/// while vault 1 is for the premiums paid by the users.
pub fn build_liquidity_coverage_state(
    position: &LiquidityPosition,
    pool: &Pool,
    tick_array_lower: &TickArray,
    tick_array_upper: &TickArray,
    amount_delta: u128,
    is_increasing: bool,
) -> (r: Result<UpdatedLiquidityState, SureError>)
    requires
        pool.tick_spacing != 0,
        tick_array_lower.fits(pool.tick_spacing),
        tick_array_upper.fits(pool.tick_spacing),
        state_computable(
            *position,
            pool.current_tick_index,
            amount_delta,
            is_increasing,
            ProductType::Coverage,
            false,
        ),
    ensures
        r == liquidity_state(
            *position,
            pool.liquidity,
            pool.current_tick_index,
            pool.tick_spacing,
            pool.fee_growth_0_x64,
            pool.fee_growth_1_x64,
            *tick_array_lower,
            *tick_array_upper,
            amount_delta,
            is_increasing,
            ProductType::Coverage,
            false,
        ),
{
    if amount_delta == 0 {
        return Err(SureError::LiquidityHaveToBeGreaterThan0);
    }
    // Validate the amount delta and return the +/- delta
    let liquidity_delta = get_liquidity_delta(amount_delta, is_increasing)?;
    // Get the ticks
    let tick_lower = tick_array_lower.get_tick(position.tick_index_lower, pool.tick_spacing)?;
    let tick_upper = tick_array_upper.get_tick(position.tick_index_upper, pool.tick_spacing)?;
    // Calculate the updated liquidity
    let next_liquidity = pool.get_next_liquidity(&position, liquidity_delta)?;
    // Update lower tick
    let tick_lower_update = tick_lower.calculate_next_liquidity_update(
        position.tick_index_lower,
        pool.current_tick_index,
        pool.fee_growth_0_x64,
        pool.fee_growth_1_x64,
        liquidity_delta,
        &ProductType::Coverage,
        false,
    )?;
    // Update upper tick
    let tick_upper_update = tick_upper.calculate_next_liquidity_update(
        position.tick_index_upper,
        pool.current_tick_index,
        pool.fee_growth_0_x64,
        pool.fee_growth_1_x64,
        liquidity_delta,
        &ProductType::Coverage,
        true,
    )?;
    // Calculate the growth in fees
    let (fee_growth_inside_0_x64, fee_growth_inside_1_x64) = tick_lower.calculate_next_fee_growth(
        position.tick_index_lower,
        tick_upper,
        position.tick_index_upper,
        pool.get_current_tick_index()?,
        pool.fee_growth_0_x64,
        pool.fee_growth_1_x64,
    )?;
    // Calculate amount of deposit into vault 0
    let token_0_delta = calculate_token_0_delta(
        liquidity_delta,
        position.tick_index_lower,
        position.tick_index_upper,
        pool.current_tick_index,
        &ProductType::Coverage,
    )?;
    // Vault 1 is for premiums
    let token_1_delta: u64 = 0;
    Ok(
        UpdatedLiquidityState {
            liquidity_delta,
            next_liquidity,
            tick_lower_update,
            tick_upper_update,
            token_0_delta,
            token_1_delta,
            fee_growth_inside_0_x64,
            fee_growth_inside_1_x64,
        },
    )
}

/// Build new liquidity state for AMM
///
/// The new state is used to update all the states involved in the transaction.
#[allow(non_snake_case)]
pub fn build_new_liquidity_AMM_state(
    position: &LiquidityPosition,
    pool: &Pool,
    tick_array_lower: &TickArray,
    tick_array_upper: &TickArray,
    amount_delta: u128,
    productType: &ProductType,
    is_increasing: bool,
) -> (r: Result<UpdatedLiquidityState, SureError>)
    requires
        pool.tick_spacing != 0,
        tick_array_lower.fits(pool.tick_spacing),
        tick_array_upper.fits(pool.tick_spacing),
        state_computable(
            *position,
            pool.current_tick_index,
            amount_delta,
            is_increasing,
            *productType,
            true,
        ),
    ensures
        r == liquidity_state(
            *position,
            pool.liquidity,
            pool.current_tick_index,
            pool.tick_spacing,
            pool.fee_growth_0_x64,
            pool.fee_growth_1_x64,
            *tick_array_lower,
            *tick_array_upper,
            amount_delta,
            is_increasing,
            *productType,
            true,
        ),
{
    if amount_delta == 0 {
        return Err(SureError::LiquidityHaveToBeGreaterThan0);
    }
    // Validate the amount delta and return the +/- delta
    let liquidity_delta = get_liquidity_delta(amount_delta, is_increasing)?;
    // Get the ticks
    let tick_lower = tick_array_lower.get_tick(position.tick_index_lower, pool.tick_spacing)?;
    let tick_upper = tick_array_upper.get_tick(position.tick_index_upper, pool.tick_spacing)?;
    // Calculate the updated liquidity
    let next_liquidity = pool.get_next_liquidity(&position, liquidity_delta)?;
    // Update lower tick
    let tick_lower_update = tick_lower.calculate_next_liquidity_update(
        position.tick_index_lower,
        pool.current_tick_index,
        pool.fee_growth_0_x64,
        pool.fee_growth_1_x64,
        liquidity_delta,
        productType,
        false,
    )?;
    // Update upper tick
    let tick_upper_update = tick_upper.calculate_next_liquidity_update(
        position.tick_index_upper,
        pool.current_tick_index,
        pool.fee_growth_0_x64,
        pool.fee_growth_1_x64,
        liquidity_delta,
        productType,
        true,
    )?;
    // Calculate the growth in fees
    let (fee_growth_inside_0_x64, fee_growth_inside_1_x64) = tick_lower.calculate_next_fee_growth(
        position.tick_index_lower,
        tick_upper,
        position.tick_index_upper,
        pool.get_current_tick_index()?,
        pool.fee_growth_0_x64,
        pool.fee_growth_1_x64,
    )?;
    let token_0_delta = calculate_token_0_delta(
        liquidity_delta,
        position.tick_index_lower,
        position.tick_index_upper,
        pool.current_tick_index,
        productType,
    )?;
    let token_1_delta = calculate_token_1_delta(
        liquidity_delta,
        position.tick_index_lower,
        position.tick_index_upper,
        pool.current_tick_index,
        productType,
    )?;
    Ok(
        UpdatedLiquidityState {
            liquidity_delta,
            next_liquidity,
            tick_lower_update,
            tick_upper_update,
            token_0_delta,
            token_1_delta,
            fee_growth_inside_0_x64,
            fee_growth_inside_1_x64,
        },
    )
}

/// Write a liquidity state into the position, the pool and both tick arrays.
pub fn update_liquidity(
    pool: &mut Pool,
    position: &mut LiquidityPosition,
    tick_array_lower: &mut TickArray,
    tick_array_upper: &mut TickArray,
    state: &UpdatedLiquidityState,
) -> (r: Result<(), SureError>)
    requires
        state.liquidity_delta != i128::MIN,
        old(pool).tick_spacing != 0,
        old(tick_array_lower).fits(old(pool).tick_spacing),
        old(tick_array_upper).fits(old(pool).tick_spacing),
    ensures
        liquidity_after_delta(old(position).liquidity, state.liquidity_delta) is Err ==> r
            == Err::<(), SureError>(
            liquidity_after_delta(old(position).liquidity, state.liquidity_delta)->Err_0,
        ),
        r is Ok ==> final(position).liquidity == liquidity_after_delta(
            old(position).liquidity,
            state.liquidity_delta,
        )->Ok_0 && final(position).fee_growth_inside_0_last_x64 == state.fee_growth_inside_0_x64
            && final(position).fee_growth_inside_1_last_x64 == state.fee_growth_inside_1_x64
            && final(pool).liquidity == state.next_liquidity && final(tick_array_lower).ticks@
            == old(tick_array_lower).ticks@.update(
            crate::tick_v2::tick_location(
                old(tick_array_lower).start_tick_index,
                old(position).tick_index_lower,
                old(pool).tick_spacing,
            )->Ok_0 as int,
            Tick::from_update(state.tick_lower_update),
        ) && final(tick_array_upper).ticks@ == old(tick_array_upper).ticks@.update(
            crate::tick_v2::tick_location(
                old(tick_array_upper).start_tick_index,
                old(position).tick_index_upper,
                old(pool).tick_spacing,
            )->Ok_0 as int,
            Tick::from_update(state.tick_upper_update),
        ),
        r is Ok <==> (liquidity_after_delta(old(position).liquidity, state.liquidity_delta) is Ok
            && old(tick_array_lower).tick_lookup(old(position).tick_index_lower, old(pool).tick_spacing) is Ok
            && old(tick_array_upper).tick_lookup(old(position).tick_index_upper, old(pool).tick_spacing) is Ok),
{
    // update liquidity position
    position.update(
        state.liquidity_delta,
        state.fee_growth_inside_0_x64,
        state.fee_growth_inside_1_x64,
    )?;
    // Update Pool liquidity
    pool.update_liquidity(state.next_liquidity)?;
    tick_array_lower.update_tick(position.tick_index_lower, pool.tick_spacing, &state.tick_lower_update)?;
    tick_array_upper.update_tick(position.tick_index_upper, pool.tick_spacing, &state.tick_upper_update)?;
    Ok(())
}

/// Increasing a liquidity by an amount and then decreasing it by the same
/// amount gives back the liquidity.
pub proof fn law_increase_then_decrease_restores(liquidity: u128, amount: u128, increased: u128)
    requires
        liquidity_delta_of(amount, true) is Ok,
        liquidity_after_delta(liquidity, liquidity_delta_of(amount, true)->Ok_0)
            == Ok::<u128, SureError>(increased),
    ensures
        liquidity_delta_of(amount, false) is Ok,
        liquidity_after_delta(increased, liquidity_delta_of(amount, false)->Ok_0) == Ok::<
            u128,
            SureError,
        >(liquidity),
{
}


/// Token 0 of a liquidity change is paid over the part of the position's
/// price range below the current price: nothing when the current tick is
/// below the range, `|delta| * (sqrt(current) - sqrt(lower)) / 2^128` inside
/// it, and the whole range, `|delta| * (sqrt(upper) - sqrt(lower)) / 2^128`,
/// once the current tick is at or above the upper tick, whichever tick that
/// is.
pub proof fn law_token_0_amount(d: i128, lower: i32, upper: i32, c1: i32, c2: i32)
    requires
        MIN_TICK_INDEX <= lower <= upper <= MAX_TICK_INDEX,
        MIN_TICK_INDEX <= c1 <= MAX_TICK_INDEX,
    ensures
        ({
            let l: int = if d < 0 {
                -(d as int)
            } else {
                d as int
            };
            &&& c1 < lower ==> token_0_delta(d, lower, upper, c1) == Ok::<u64, SureError>(0)
            &&& lower <= c1 < upper ==> token_0_delta(d, lower, upper, c1) == Ok::<u64, SureError>(
                ((l * (sqrt_ratio_at_tick(c1) - sqrt_ratio_at_tick(lower))) / (pow128() as int))
                    as u64,
            )
            &&& upper <= c1 ==> token_0_delta(d, lower, upper, c1) == Ok::<u64, SureError>(
                ((l * (sqrt_ratio_at_tick(upper) - sqrt_ratio_at_tick(lower))) / (pow128() as int))
                    as u64,
            )
            &&& upper <= c1 && upper <= c2 ==> token_0_delta(d, lower, upper, c1) == token_0_delta(
                d,
                lower,
                upper,
                c2,
            )
        }),
{
    if lower < upper {
        law_sqrt_ratio_strictly_increasing(lower, upper);
    }
}

/// Token 1 of a liquidity change is paid over the part of the position's
/// price range above the current price, `[max(current, lower), upper]`:
/// nothing for coverage products or once the current tick is at or above the
/// range, and the same amount for every current tick below the range.
pub proof fn law_token_1_amount(
    d: i128,
    lower: i32,
    upper: i32,
    c1: i32,
    c2: i32,
    product_type: ProductType,
)
    requires
        MIN_TICK_INDEX <= lower <= upper <= MAX_TICK_INDEX,
        MIN_TICK_INDEX <= c1 <= MAX_TICK_INDEX,
    ensures
        product_type == ProductType::Coverage ==> token_1_delta(d, lower, upper, c1, product_type)
            == Ok::<u64, SureError>(0),
        upper <= c1 ==> token_1_delta(d, lower, upper, c1, product_type) == Ok::<u64, SureError>(
            0,
        ),
        c1 < upper && product_type != ProductType::Coverage ==> (token_1_delta(
            d,
            lower,
            upper,
            c1,
            product_type,
        ) matches Ok(v) ==> ({
            let l: int = if d < 0 {
                -(d as int)
            } else {
                d as int
            };
            let a = if c1 < lower {
                sqrt_ratio_at_tick(lower)
            } else {
                sqrt_ratio_at_tick(c1)
            };
            let b = sqrt_ratio_at_tick(upper);
            v == ((l * (b - a) / ((b * a / pow64()) as int)) / (pow64() as int)) as u64
        })),
        c1 < lower && c2 < lower ==> token_1_delta(d, lower, upper, c1, product_type)
            == token_1_delta(d, lower, upper, c2, product_type),
{
    if lower < upper {
        law_sqrt_ratio_strictly_increasing(lower, upper);
    }
}

/// A liquidity change goes the way it is asked for: an increase of
/// `amount` adds `amount` to the position's liquidity delta, to the gross
/// liquidity of both its ticks and (when the current tick lies in the range)
/// to the pool's liquidity; a decrease takes `amount` off each.
pub proof fn law_liquidity_state_follows_direction(
    position: LiquidityPosition,
    pool_liquidity: u128,
    current: i32,
    tick_spacing: u16,
    fee_growth_0: u128,
    fee_growth_1: u128,
    tick_array_lower: TickArray,
    tick_array_upper: TickArray,
    amount: u128,
    is_increasing: bool,
    product_type: ProductType,
    with_token_1: bool,
)
    ensures
        liquidity_state(
            position,
            pool_liquidity,
            current,
            tick_spacing,
            fee_growth_0,
            fee_growth_1,
            tick_array_lower,
            tick_array_upper,
            amount,
            is_increasing,
            product_type,
            with_token_1,
        ) matches Ok(state) ==> ({
            let lower = position.tick_index_lower;
            let upper = position.tick_index_upper;
            let signed: int = if is_increasing {
                amount as int
            } else {
                -(amount as int)
            };
            &&& amount > 0
            &&& state.liquidity_delta == signed
            &&& (is_increasing <==> state.liquidity_delta > 0)
            &&& tick_array_lower.tick_lookup(lower, tick_spacing) matches Ok(tick)
                && state.tick_lower_update.liquidity_gross == tick.liquidity_gross + signed
                && (state.tick_lower_update.liquidity_gross != 0
                ==> state.tick_lower_update.liquidity_net == tick.liquidity_net + signed)
            &&& tick_array_upper.tick_lookup(upper, tick_spacing) matches Ok(tick)
                && state.tick_upper_update.liquidity_gross == tick.liquidity_gross + signed
                && (state.tick_upper_update.liquidity_gross != 0
                ==> state.tick_upper_update.liquidity_net == tick.liquidity_net - signed)
            &&& state.token_0_delta == token_0_delta(state.liquidity_delta, lower, upper, current)->Ok_0
            &&& with_token_1 ==> state.token_1_delta == token_1_delta(
                state.liquidity_delta,
                lower,
                upper,
                current,
                product_type,
            )->Ok_0
            &&& !with_token_1 ==> state.token_1_delta == 0
            &&& state.next_liquidity == (if lower <= current < upper {
                pool_liquidity + signed
            } else {
                pool_liquidity as int
            })
        }),
{
}
} // verus!
