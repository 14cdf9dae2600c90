//! Tick and square-root price arithmetic.
//!
//! A tick `i` stands for the price 1.0001^i; the square root of that price is
//! kept in Q64.64 fixed point (`sqrt(1.0001^i) * 2^64`).
use crate::errors::SureError;
use crate::runtime::clock_unix_timestamp;
use crate::u256::{
    floor_log2, lemma_floor_log2_unique, lemma_two_pow_adds, lemma_two_pow_is_pow2,
    lemma_two_pow_monotone, lemma_two_pow_pos, lemma_two_pow_values, pow128, pow256, pow64,
    two_pow, mul_wide, U256,
};
use vstd::prelude::*;

verus! {

/// The minimum tick index (ln(2^-64) / ln(1.0001) rounded).
pub const MIN_TICK_INDEX: i32 = -443_636;

/// The maximum tick index (ln(2^64) / ln(1.0001) rounded).
pub const MAX_TICK_INDEX: i32 = 443_636;

/// Square-root price (Q64.64) at `MIN_TICK_INDEX`.
pub const MIN_SQRT_RATIO: u128 = 4295048016;

/// Square-root price (Q64.64) at `MAX_TICK_INDEX`.
pub const MAX_SQRT_RATIO: u128 = 79226673515401279992447579055;

/// Seconds in a year.
pub const UNIX_TIME_IN_YEARS: i128 = 31556926;

/// Number of fractional bits of a Q32.32 number.
pub const Q32_RESOLUTION: u8 = 32;

/// Bit `k` of a tick's bit pattern.
pub open spec fn tick_bit(t: u32, k: nat) -> bool {
    k < 32 && (t >> (k as u32)) & 1 == 1
}

/// Factor for bit `k` of the magnitude of a negative tick: sqrt(1.0001)^(-2^k) as Q64.64.
pub open spec fn neg_factor(k: nat) -> nat {
    if k == 0 {
        18445821805675392311
    } else if k == 1 {
        18444899583751176498
    } else if k == 2 {
        18443055278223354162
    } else if k == 3 {
        18439367220385604838
    } else if k == 4 {
        18431993317065449817
    } else if k == 5 {
        18417254355718160513
    } else if k == 6 {
        18387811781193591352
    } else if k == 7 {
        18329067761203520168
    } else if k == 8 {
        18212142134806087854
    } else if k == 9 {
        17980523815641551639
    } else if k == 10 {
        17526086738831147013
    } else if k == 11 {
        16651378430235024244
    } else if k == 12 {
        15030750278693429944
    } else if k == 13 {
        12247334978882834399
    } else if k == 14 {
        8131365268884726200
    } else if k == 15 {
        3584323654723342297
    } else if k == 16 {
        696457651847595233
    } else if k == 17 {
        26294789957452057
    } else if k == 18 {
        37481735321082
    } else {
        0
    }
}

/// Factor for bit `k` of a non-negative tick: sqrt(1.0001)^(2^k) as Q32.96.
pub open spec fn pos_factor(k: nat) -> nat {
    if k == 0 {
        79232123823359799118286999567
    } else if k == 1 {
        79236085330515764027303304731
    } else if k == 2 {
        79244008939048815603706035061
    } else if k == 3 {
        79259858533276714757314932305
    } else if k == 4 {
        79291567232598584799939703904
    } else if k == 5 {
        79355022692464371645785046466
    } else if k == 6 {
        79482085999252804386437311141
    } else if k == 7 {
        79736823300114093921829183326
    } else if k == 8 {
        80248749790819932309965073892
    } else if k == 9 {
        81282483887344747381513967011
    } else if k == 10 {
        83390072131320151908154831281
    } else if k == 11 {
        87770609709833776024991924138
    } else if k == 12 {
        97234110755111693312479820773
    } else if k == 13 {
        119332217159966728226237229890
    } else if k == 14 {
        179736315981702064433883588727
    } else if k == 15 {
        407748233172238350107850275304
    } else if k == 16 {
        2098478828474011932436660412517
    } else if k == 17 {
        55581415166113811149459800483533
    } else if k == 18 {
        38992368544603139932233054999993551
    } else {
        0
    }
}

/// Concrete values of `pos_bound`.
proof fn lemma_pos_bound_values()
    ensures
        pos_bound(0) == 79232123823359799118286999567,
        pos_bound(1) == 79240047035742135098198828266,
        pos_bound(2) == 79255895837549753882639819013,
        pos_bound(3) == 79287602951555555546117890668,
        pos_bound(4) == 79351055238886287249021387662,
        pos_bound(5) == 79478112192985828264683945743,
        pos_bound(6) == 79732836757937260015387211174,
        pos_bound(7) == 80244737654238127488718973602,
        pos_bound(8) == 81278420067934296167840804769,
        pos_bound(9) == 83385902940400299275461041535,
        pos_bound(10) == 87766221508460644832294642638,
        pos_bound(11) == 97229249414171470058378025113,
        pos_bound(12) == 119326250996567256184535330018,
        pos_bound(13) == 179727329839858001577522965083,
        pos_bound(14) == 407727847289508202411734771016,
        pos_bound(15) == 2098373912401228121358801911315,
        pos_bound(16) == 55578636303768444659257259827406,
        pos_bound(17) == 38990419072385107768429658011568861,
        pos_bound(18) == 19189247130466284822469633860112541934403,
{
    lemma_two_pow_values();
    assert(pos_bound(0) == 79232123823359799118286999567);
    assert(pos_bound(1) == 79240047035742135098198828266);
    assert(pos_bound(2) == 79255895837549753882639819013);
    assert(pos_bound(3) == 79287602951555555546117890668);
    assert(pos_bound(4) == 79351055238886287249021387662);
    assert(pos_bound(5) == 79478112192985828264683945743);
    assert(pos_bound(6) == 79732836757937260015387211174);
    assert(pos_bound(7) == 80244737654238127488718973602);
    assert(pos_bound(8) == 81278420067934296167840804769);
    assert(pos_bound(9) == 83385902940400299275461041535);
    assert(pos_bound(10) == 87766221508460644832294642638);
    assert(pos_bound(11) == 97229249414171470058378025113);
    assert(pos_bound(12) == 119326250996567256184535330018);
    assert(pos_bound(13) == 179727329839858001577522965083);
    assert(pos_bound(14) == 407727847289508202411734771016);
    assert(pos_bound(15) == 2098373912401228121358801911315);
    assert(pos_bound(16) == 55578636303768444659257259827406);
    assert(pos_bound(17) == 38990419072385107768429658011568861);
    assert(pos_bound(18) == 19189247130466284822469633860112541934403);
}

/// Q64.64 square-root ratio of a negative tick with magnitude `t` after the
/// factors of bits `0..=k` have been applied.
pub open spec fn neg_ratio_upto(t: u32, k: nat) -> nat
    decreases k,
{
    if k == 0 {
        if tick_bit(t, 0) {
            18445821805675392311
        } else {
            pow64()
        }
    } else {
        let r = neg_ratio_upto(t, (k - 1) as nat);
        if tick_bit(t, k) {
            r * neg_factor(k) / pow64()
        } else {
            r
        }
    }
}

/// Q32.96 square-root ratio of a non-negative tick with bit pattern `t` after
/// the factors of bits `0..=k` have been applied.
pub open spec fn pos_ratio_upto(t: u32, k: nat) -> nat
    decreases k,
{
    if k == 0 {
        if tick_bit(t, 0) {
            79232123823359799118286999567
        } else {
            79228162514264337593543950336
        }
    } else {
        let r = pos_ratio_upto(t, (k - 1) as nat);
        if tick_bit(t, k) {
            r * pos_factor(k) / two_pow(96)
        } else {
            r
        }
    }
}

/// Upper bound of `pos_ratio_upto(t, k)` over all bit patterns.
pub open spec fn pos_bound(k: nat) -> nat
    decreases k,
{
    if k == 0 {
        79232123823359799118286999567
    } else {
        pos_bound((k - 1) as nat) * pos_factor(k) / two_pow(96)
    }
}

/// The Q64.64 square-root ratio at a negative tick (bits 0 to 18 of its magnitude).
pub open spec fn sqrt_ratio_at_negative_tick(tick: i32) -> nat {
    neg_ratio_upto((if tick < 0 { -(tick as int) } else { tick as int }) as u32, 18)
}

/// The Q64.64 square-root ratio at a non-negative tick (bits 0 to 18).
pub open spec fn sqrt_ratio_at_positive_tick(tick: i32) -> nat {
    pos_ratio_upto(tick as u32, 18) / two_pow(32)
}

/// The Q64.64 square-root ratio at any tick.
pub open spec fn sqrt_ratio_at_tick(tick: i32) -> nat {
    if tick >= 0 {
        sqrt_ratio_at_positive_tick(tick)
    } else {
        sqrt_ratio_at_negative_tick(tick)
    }
}

proof fn lemma_tick_bit(t: u32, k: u32)
    requires
        k < 32,
    ensures
        (t & (1u32 << k) != 0) <==> tick_bit(t, k as nat),
{
    assert((t & (1u32 << k) != 0) <==> ((t >> k) & 1 == 1)) by (bit_vector)
        requires
            k < 32,
    ;
}

/// Multiply by the factor of bit `k` when it is set (negative ticks).
fn neg_step(ratio: u128, t: u32, k: u32, factor: u128) -> (r: u128)
    requires
        1 <= k <= 18,
        factor == neg_factor(k as nat),
        ratio == neg_ratio_upto(t, (k - 1) as nat),
        ratio <= pow64(),
    ensures
        r == neg_ratio_upto(t, k as nat),
        r <= pow64(),
{
    proof {
        lemma_tick_bit(t, k);
    }
    if t & (1u32 << k) != 0 {
        proof {
            assert(factor < pow64());
            assert(ratio * factor <= pow64() * factor) by (nonlinear_arith)
                requires
                    ratio <= pow64(),
            ;
            assert(pow64() * factor <= pow64() * 18446744073709551615) by (nonlinear_arith)
                requires
                    factor < pow64(),
            ;
            assert((ratio * factor) / 18446744073709551616 <= ratio) by (nonlinear_arith)
                requires
                    factor < pow64(),
                    pow64() == 18446744073709551616,
            {
                assert(ratio * factor <= ratio * pow64());
            }
            vstd::bits::lemma_u128_shr_is_div((ratio * factor) as u128, 64);
            vstd::arithmetic::power2::lemma2_to64();
        }
        (ratio * factor) >> 64
    } else {
        ratio
    }
}

/// Calculate the square-root price at a negative tick
///
/// Multiplies, for every set bit `2^m` of the tick's magnitude, the Q64.64
/// value of `sqrt(1.0001)^(-2^m)` into the ratio, starting from 1.0.
/// Bits above 2^18 are not looked at.
pub fn get_sqrt_ratio_at_negative_tick(tick_i: i32) -> (r: Result<u128, SureError>)
    requires
        tick_i != i32::MIN,
    ensures
        r == Ok::<u128, SureError>(sqrt_ratio_at_negative_tick(tick_i) as u128),
        sqrt_ratio_at_negative_tick(tick_i) <= pow64(),
{
    let tick: i32 = if tick_i < 0 {
        -tick_i
    } else {
        tick_i
    };
    let t = tick as u32;
    proof {
        lemma_tick_bit(t, 0);
    }
    let mut ratio: u128 = if t & 1 != 0 {
        18445821805675392311
    } else {
        18446744073709551616
    };
    proof {
        assert(t & 1 != 0 <==> t & (1u32 << 0u32) != 0) by (bit_vector);
    }
    ratio = neg_step(ratio, t, 1, 18444899583751176498);
    ratio = neg_step(ratio, t, 2, 18443055278223354162);
    ratio = neg_step(ratio, t, 3, 18439367220385604838);
    ratio = neg_step(ratio, t, 4, 18431993317065449817);
    ratio = neg_step(ratio, t, 5, 18417254355718160513);
    ratio = neg_step(ratio, t, 6, 18387811781193591352);
    ratio = neg_step(ratio, t, 7, 18329067761203520168);
    ratio = neg_step(ratio, t, 8, 18212142134806087854);
    ratio = neg_step(ratio, t, 9, 17980523815641551639);
    ratio = neg_step(ratio, t, 10, 17526086738831147013);
    ratio = neg_step(ratio, t, 11, 16651378430235024244);
    ratio = neg_step(ratio, t, 12, 15030750278693429944);
    ratio = neg_step(ratio, t, 13, 12247334978882834399);
    ratio = neg_step(ratio, t, 14, 8131365268884726200);
    ratio = neg_step(ratio, t, 15, 3584323654723342297);
    ratio = neg_step(ratio, t, 16, 696457651847595233);
    ratio = neg_step(ratio, t, 17, 26294789957452057);
    ratio = neg_step(ratio, t, 18, 37481735321082);
    Ok(ratio)
}

proof fn lemma_pos_bound_monotone(k: nat)
    requires
        1 <= k <= 18,
    ensures
        pos_bound((k - 1) as nat) <= pos_bound(k),
        pos_bound((k - 1) as nat) * pos_factor(k) < pow256(),
{
    lemma_pos_bound_values();
    lemma_two_pow_values();
}

/// Multiply by the factor of bit `k` when it is set (non-negative ticks).
fn pos_step(ratio: U256, t: u32, k: u32, factor: u128) -> (r: U256)
    requires
        1 <= k <= 18,
        factor == pos_factor(k as nat),
        ratio.value() == pos_ratio_upto(t, (k - 1) as nat),
        ratio.value() <= pos_bound((k - 1) as nat),
    ensures
        r.value() == pos_ratio_upto(t, k as nat),
        r.value() <= pos_bound(k as nat),
{
    proof {
        lemma_tick_bit(t, k);
        lemma_pos_bound_monotone(k as nat);
        lemma_two_pow_values();
    }
    if t & (1u32 << k) != 0 {
        proof {
            assert(ratio.value() * factor <= pos_bound((k - 1) as nat) * factor) by (nonlinear_arith)
                requires
                    ratio.value() <= pos_bound((k - 1) as nat),
            ;
        }
        let p = ratio.checked_mul_u128(factor).unwrap();
        let r = p.shr(96);
        proof {
            lemma_div_monotone(ratio.value() * factor, pos_bound((k - 1) as nat) * factor, two_pow(96) as int);
        }
        r
    } else {
        ratio
    }
}

proof fn lemma_div_monotone(a: int, b: int, d: int)
    requires
        a <= b,
        d > 0,
    ensures
        a / d <= b / d,
{
    vstd::arithmetic::div_mod::lemma_div_is_ordered(a, b, d);
}

/// Calculate the square-root price at a non-negative tick
///
/// Multiplies, for every set bit `2^m` of the tick, the Q32.96 value of
/// `sqrt(1.0001)^(2^m)` into the ratio (256-bit products, shifted back by 96),
/// and returns the result as Q64.64. Bits above 2^18 are not looked at.
pub fn get_sqrt_ratio_at_positive_tick(tick: i32) -> (r: Result<u128, SureError>)
    ensures
        r == Ok::<u128, SureError>(sqrt_ratio_at_positive_tick(tick) as u128),
        sqrt_ratio_at_positive_tick(tick) < pow128(),
{
    let t = tick as u32;
    proof {
        lemma_tick_bit(t, 0);
        assert(t & 1 != 0 <==> t & (1u32 << 0u32) != 0) by (bit_vector);
        lemma_pos_bound_values();
    }
    let mut ratio: U256 = if t & 1 != 0 {
        U256::from_u128(79232123823359799118286999567)
    } else {
        U256::from_u128(79228162514264337593543950336)
    };
    ratio = pos_step(ratio, t, 1, 79236085330515764027303304731);
    ratio = pos_step(ratio, t, 2, 79244008939048815603706035061);
    ratio = pos_step(ratio, t, 3, 79259858533276714757314932305);
    ratio = pos_step(ratio, t, 4, 79291567232598584799939703904);
    ratio = pos_step(ratio, t, 5, 79355022692464371645785046466);
    ratio = pos_step(ratio, t, 6, 79482085999252804386437311141);
    ratio = pos_step(ratio, t, 7, 79736823300114093921829183326);
    ratio = pos_step(ratio, t, 8, 80248749790819932309965073892);
    ratio = pos_step(ratio, t, 9, 81282483887344747381513967011);
    ratio = pos_step(ratio, t, 10, 83390072131320151908154831281);
    ratio = pos_step(ratio, t, 11, 87770609709833776024991924138);
    ratio = pos_step(ratio, t, 12, 97234110755111693312479820773);
    ratio = pos_step(ratio, t, 13, 119332217159966728226237229890);
    ratio = pos_step(ratio, t, 14, 179736315981702064433883588727);
    ratio = pos_step(ratio, t, 15, 407748233172238350107850275304);
    ratio = pos_step(ratio, t, 16, 2098478828474011932436660412517);
    ratio = pos_step(ratio, t, 17, 55581415166113811149459800483533);
    ratio = pos_step(ratio, t, 18, 38992368544603139932233054999993551);
    let shifted = ratio.shr(32);
    proof {
        lemma_two_pow_values();
        lemma_div_monotone(ratio.value() as int, pos_bound(18) as int, two_pow(32) as int);
    }
    Ok(shifted.as_u128())
}

/// Calculate the square-root price (Q64.64) at a tick
///
/// Non-negative ticks are computed in Q32.96 with 256-bit intermediates,
/// negative ticks in Q64.64.
pub fn get_sqrt_ratio_at_tick(tick: i32) -> (r: Result<u128, SureError>)
    requires
        tick != i32::MIN,
    ensures
        r == Ok::<u128, SureError>(sqrt_ratio_at_tick(tick) as u128),
        sqrt_ratio_at_tick(tick) < pow128(),
{
    if tick >= 0 {
        get_sqrt_ratio_at_positive_tick(tick)
    } else {
        get_sqrt_ratio_at_negative_tick(tick)
    }
}


/// Yearly premium of covering `amount` at a square-root price (Q32.32):
/// `amount * (sqrt_price / 100)^2 >> 32`, with overflow reported.
pub open spec fn yearly_premium(sqrt_price_x32: u128, amount: u128) -> Result<u128, SureError> {
    let o1 = sqrt_price_x32 / 100;
    if o1 * o1 > u128::MAX {
        Err(SureError::MultiplictationQ3232Overflow)
    } else if amount * (o1 * o1) > u128::MAX {
        Err(SureError::MultiplictationQ3232Overflow)
    } else {
        Ok((amount * (o1 * o1) / (two_pow(32) as int)) as u128)
    }
}

/// `num * (t1 - t0) / year`, rounded down, or the error for a start that is
/// not before the end, or for a result that does not fit in 128 bits.
pub open spec fn time_fraction_result(num: u128, t0: i64, t1: i64) -> Result<u128, SureError> {
    if t0 >= t1 {
        Err(SureError::InvalidTimestamp)
    } else {
        let q = (num * (t1 - t0)) / 31556926;
        if q > u128::MAX {
            Err(SureError::MultiplictationQ3232Overflow)
        } else {
            Ok(q as u128)
        }
    }
}

/// Calculate the yearly premium
///
/// Premiums are quoted in basis points of the covered amount:
/// `P = A * (sqrt(P) / 100)^2`, with the price in Q32.32.
pub fn calculate_yearly_premium(sqrt_price_x32: u128, amount: u128) -> (r: Result<u128, SureError>)
    ensures
        r == yearly_premium(sqrt_price_x32, amount),
{
    let o1_x32 = sqrt_price_x32 / 100;
    let o1_x32_2 = match o1_x32.checked_mul(o1_x32) {
        Some(v) => v,
        None => return Err(SureError::MultiplictationQ3232Overflow),
    };
    let premium_x32 = match amount.checked_mul(o1_x32_2) {
        Some(v) => v,
        None => return Err(SureError::MultiplictationQ3232Overflow),
    };
    proof {
        lemma_two_pow_values();
        vstd::bits::lemma_u128_shr_is_div(premium_x32, 32);
        vstd::arithmetic::power2::lemma2_to64();
    }
    let premium = premium_x32 >> 32;
    Ok(premium)
}

/// Time fraction
///
/// Calculates `num * (t1 - t0) / SECONDS_IN_YEAR`, rounded down. `t0` has
/// to be before `t1`.
pub fn time_fraction(num: u128, t0: i64, t1: i64) -> (r: Result<u128, SureError>)
    ensures
        r == time_fraction_result(num, t0, t1),
{
    if t0 >= t1 {
        return Err(SureError::InvalidTimestamp);
    }
    let elapsed = ((t1 as i128) - (t0 as i128)) as u128;
    // num * (t1 - t0), exactly
    let product = mul_wide(num, elapsed);
    let year = U256::from_u128(UNIX_TIME_IN_YEARS as u128);
    // the quotient fits in 128 bits exactly when the product is below 2^128 * year
    let bound = U256 { lo: 0, hi: UNIX_TIME_IN_YEARS as u128 };
    proof {
        lemma_two_pow_values();
    }
    if bound.le(&product) {
        proof {
            let b = (pow128() * 31556926) as int;
            vstd::arithmetic::div_mod::lemma_div_is_ordered(b, product.value() as int, 31556926);
            vstd::arithmetic::div_mod::lemma_div_by_multiple(pow128() as int, 31556926);
            assert(product.value() / 31556926 >= pow128());
        }
        return Err(SureError::MultiplictationQ3232Overflow);
    }
    proof {
        assert(product.value() / 31556926 < pow128()) by (nonlinear_arith)
            requires
                product.value() < pow128() * 31556926,
        ;
    }
    match U256::div_to_u128(&product, &year) {
        Some(q) => Ok(q),
        None => Err(SureError::DivisionQ3232Error),
    }
}

/// The premium for covering `amount` from `now` until `expiry_ts`: the
/// yearly premium scaled by the fraction of a year left until expiry.
pub open spec fn premium_at(sqrt_price_x64: u128, amount: u128, expiry_ts: i64, now: i64) -> Result<
    u128,
    SureError,
> {
    match yearly_premium(sqrt_price_x64, amount) {
        Err(e) => Err(e),
        Ok(y) => if now < expiry_ts && expiry_ts - now > i64::MAX {
            Err(SureError::InvalidTimestamp)
        } else {
            time_fraction_result(y, now, expiry_ts)
        },
    }
}

/// Calculate the premium for covering `amount` from now until `expiry_ts`
///
/// The current time is read from the runtime clock. The result is the yearly
/// premium scaled by the fraction of a year left until expiry.
pub fn calculate_premium(sqrt_price_x64: u128, amount: u128, expiry_ts: i64) -> (r: Result<
    u128,
    SureError,
>)
    ensures
        yearly_premium(sqrt_price_x64, amount) is Err ==> r == yearly_premium(
            sqrt_price_x64,
            amount,
        ),
        r == Err::<u128, SureError>(SureError::ClockUnavailable) || exists|now: i64|
            r == #[trigger] premium_at(sqrt_price_x64, amount, expiry_ts, now),
{
    match calculate_yearly_premium(sqrt_price_x64, amount) {
        Err(e) => {
            proof {
                assert(premium_at(sqrt_price_x64, amount, expiry_ts, 0) == Err::<u128, SureError>(
                    e,
                ));
            }
            return Err(e);
        },
        Ok(_) => {},
    }
    let t0 = match clock_unix_timestamp() {
        Some(t) => t,
        None => return Err(SureError::ClockUnavailable),
    };
    calculate_premium_at(sqrt_price_x64, amount, expiry_ts, t0)
}

/// Calculate the premium for covering `amount` from `timestamp_now` until
/// `expiry_ts`.
pub fn calculate_premium_at(
    sqrt_price_x64: u128,
    amount: u128,
    expiry_ts: i64,
    timestamp_now: i64,
) -> (r: Result<u128, SureError>)
    ensures
        r == premium_at(sqrt_price_x64, amount, expiry_ts, timestamp_now),
{
    let yearly_premium = calculate_yearly_premium(sqrt_price_x64, amount)?;
    let t0 = timestamp_now;
    if t0 < expiry_ts && (expiry_ts as i128) - (t0 as i128) > i64::MAX as i128 {
        return Err(SureError::InvalidTimestamp);
    }
    time_fraction(yearly_premium, t0, expiry_ts)
}

/// Premium change between the remaining premium and the premium for
/// `amount` until `expiry_ts` from `now`.
pub open spec fn premium_change_at(
    remaining_premium: u128,
    sqrt_price_x64: u128,
    amount: u128,
    expiry_ts: i64,
    now: i64,
) -> Result<(bool, u128), SureError> {
    match premium_at(sqrt_price_x64, amount, expiry_ts, now) {
        Err(e) => Err(e),
        Ok(p) => Ok(premium_diff(remaining_premium, p)),
    }
}

/// Premium change between the remaining premium and a new premium
///
/// Returns `(increase, delta)`: whether the new premium for `amount` until
/// `expiry_ts` (from the runtime clock's time) is larger than
/// `remaining_premium`, and the absolute difference.
pub fn calculate_premium_diff(
    remaining_premium: u128,
    sqrt_price_x64: u128,
    amount: u128,
    expiry_ts: i64,
) -> (r: Result<(bool, u128), SureError>)
    ensures
        yearly_premium(sqrt_price_x64, amount) matches Err(e) ==> r == Err::<(bool, u128), SureError>(
            e,
        ),
        r == Err::<(bool, u128), SureError>(SureError::ClockUnavailable) || exists|now: i64|
            r == #[trigger] premium_change_at(
                remaining_premium,
                sqrt_price_x64,
                amount,
                expiry_ts,
                now,
            ),
{
    let premium = calculate_premium(sqrt_price_x64, amount, expiry_ts);
    proof {
        if premium != Err::<u128, SureError>(SureError::ClockUnavailable) {
            let now = choose|now: i64| premium == premium_at(sqrt_price_x64, amount, expiry_ts, now);
            assert(premium == premium_at(sqrt_price_x64, amount, expiry_ts, now));
            assert(premium is Ok ==> premium_change_at(
                remaining_premium,
                sqrt_price_x64,
                amount,
                expiry_ts,
                now,
            ) == Ok::<(bool, u128), SureError>(premium_diff(remaining_premium, premium->Ok_0)));
            assert(premium matches Err(e) ==> premium_change_at(
                remaining_premium,
                sqrt_price_x64,
                amount,
                expiry_ts,
                now,
            ) == Err::<(bool, u128), SureError>(e));
        }
    }
    let new_premium = premium?;
    let d = premium_difference(remaining_premium, new_premium);
    Ok(d)
}

/// Premium change between the remaining premium and the premium for
/// `amount` until `expiry_ts` from `timestamp_now`.
pub fn calculate_premium_diff_at(
    remaining_premium: u128,
    sqrt_price_x64: u128,
    amount: u128,
    expiry_ts: i64,
    timestamp_now: i64,
) -> (r: Result<(bool, u128), SureError>)
    ensures
        r == premium_change_at(remaining_premium, sqrt_price_x64, amount, expiry_ts, timestamp_now),
{
    let new_premium = calculate_premium_at(sqrt_price_x64, amount, expiry_ts, timestamp_now)?;
    let d = premium_difference(remaining_premium, new_premium);
    Ok(d)
}

/// Direction and size of the change from `old` to `new`.
pub open spec fn premium_diff(old: u128, new: u128) -> (bool, u128) {
    if new > old {
        (true, (new - old) as u128)
    } else {
        (false, (old - new) as u128)
    }
}

/// Direction and size of the change from a remaining premium to a new one.
pub fn premium_difference(remaining_premium: u128, new_premium: u128) -> (r: (bool, u128))
    ensures
        r == premium_diff(remaining_premium, new_premium),
{
    if new_premium > remaining_premium {
        (true, new_premium - remaining_premium)
    } else {
        (false, remaining_premium - new_premium)
    }
}


/// The price normalised so that its highest set bit is bit 63.
pub open spec fn normalized_ratio(x: nat) -> nat {
    let m = floor_log2(x);
    if m >= 64 {
        x / two_pow((m - 63) as nat)
    } else {
        x * two_pow((63 - m) as nat)
    }
}

/// Square of a normalised value, kept with 63 fractional bits.
pub open spec fn frac_square(r: nat) -> nat {
    (r * r) / two_pow(63)
}

/// The next fractional bit of the logarithm (1 when the square reached 2.0).
pub open spec fn frac_bit(r: nat) -> nat {
    frac_square(r) / two_pow(64)
}

/// The normalised value for the next fractional bit.
pub open spec fn frac_next(r: nat) -> nat {
    frac_square(r) / two_pow(frac_bit(r))
}

/// The normalised value after `n` squarings.
pub open spec fn frac_r(r0: nat, n: nat) -> nat
    decreases n,
{
    if n == 0 {
        r0
    } else {
        frac_next(frac_r(r0, (n - 1) as nat))
    }
}

/// The first `n` fractional bits of log2, weighted as a Q.32 fraction.
pub open spec fn frac_bits(r0: nat, n: nat) -> nat
    decreases n,
{
    if n == 0 {
        0
    } else {
        frac_bits(r0, (n - 1) as nat) + frac_bit(frac_r(r0, (n - 1) as nat)) * two_pow(
            (32 - n) as nat,
        )
    }
}

/// log2 of a Q64.64 price in Q.32: integer part from the highest bit, 16
/// fractional bits by repeated squaring.
pub open spec fn log2_x32(x: nat) -> int {
    (floor_log2(x) - 64) * 4294967296 + frac_bits(normalized_ratio(x), 16)
}

/// `t` is the tick of the square-root price `x`: the greatest tick of the
/// range whose square-root price does not exceed `x`.
pub open spec fn is_tick_of_sqrt_ratio(t: int, x: nat) -> bool {
    &&& MIN_TICK_INDEX <= t <= MAX_TICK_INDEX
    &&& sqrt_ratio_at_tick(t as i32) <= x
    &&& t < MAX_TICK_INDEX ==> x < sqrt_ratio_at_tick((t + 1) as i32)
}

/// The tick of a square-root price (Q64.64): the greatest tick whose
/// square-root price does not exceed it.
pub open spec fn tick_at_sqrt_ratio(x: u128) -> int {
    choose|t: int| is_tick_of_sqrt_ratio(t, x as nat)
}

proof fn lemma_div_twice(x: nat, a: nat, b: nat)
    ensures
        (x / two_pow(a)) / two_pow(b) == x / two_pow(a + b),
{
    lemma_two_pow_pos(a);
    lemma_two_pow_pos(b);
    lemma_two_pow_adds(a, b);
    vstd::arithmetic::div_mod::lemma_div_denominator(x as int, two_pow(a) as int, two_pow(b) as int);
}

/// One step of the binary search for the highest set bit.
fn msb_step(r: u128, msb: u8, s: u8, threshold: u128, Ghost(x): Ghost<nat>) -> (res: (u128, u8))
    requires
        1 <= s <= 64,
        threshold == two_pow(s as nat),
        r == x / two_pow(msb as nat),
        r < two_pow(2 * s as nat),
        two_pow(msb as nat) <= x,
        msb as nat + s <= 255,
    ensures
        res.0 == x / two_pow(res.1 as nat),
        res.0 < two_pow(s as nat),
        two_pow(res.1 as nat) <= x,
        res.1 == msb || res.1 == msb + s,
{
    let f: u8 = if r >= threshold {
        s
    } else {
        0
    };
    proof {
        vstd::bits::lemma_u128_shr_is_div(r, f as u128);
        lemma_two_pow_is_pow2(f as nat);
        lemma_div_twice(x, msb as nat, f as nat);
        lemma_two_pow_adds(s as nat, s as nat);
        lemma_two_pow_pos(s as nat);
        lemma_two_pow_adds(msb as nat, s as nat);
        lemma_two_pow_pos(msb as nat);
        if f == s {
            assert((r as nat) / two_pow(s as nat) < two_pow(s as nat)) by (nonlinear_arith)
                requires
                    r < two_pow(s as nat) * two_pow(s as nat),
                    two_pow(s as nat) >= 1,
            ;
            assert(two_pow(msb as nat + s as nat) <= x) by (nonlinear_arith)
                requires
                    r == x / two_pow(msb as nat),
                    r >= two_pow(s as nat),
                    two_pow(msb as nat + s as nat) == two_pow(msb as nat) * two_pow(s as nat),
                    two_pow(msb as nat) >= 1,
            {
                vstd::arithmetic::div_mod::lemma_fundamental_div_mod(x as int, two_pow(msb as nat) as int);
                lemma_two_pow_pos(msb as nat);
            }
        } else {
            assert(two_pow(0) == 1);
        }
    }
    (r >> f, msb + f)
}

/// Index of the highest set bit of a non-zero 128-bit value, by binary search.
fn most_significant_bit_u128(x: u128) -> (m: u8)
    requires
        x >= 1,
    ensures
        m == floor_log2(x as nat),
        m < 128,
{
    proof {
        lemma_two_pow_values();
        lemma_two_pow_adds(64, 64);
        assert(two_pow(0) == 1);
        reveal_with_fuel(two_pow, 9);
        lemma_two_pow_values();
    }
    let (r, msb) = msb_step(x, 0, 64, 0x10000000000000000, Ghost(x as nat));
    let (r, msb) = msb_step(r, msb, 32, 0x100000000, Ghost(x as nat));
    let (r, msb) = msb_step(r, msb, 16, 0x10000, Ghost(x as nat));
    let (r, msb) = msb_step(r, msb, 8, 0x100, Ghost(x as nat));
    let (r, msb) = msb_step(r, msb, 4, 0x10, Ghost(x as nat));
    let (r, msb) = msb_step(r, msb, 2, 0x4, Ghost(x as nat));
    let (r, msb) = msb_step(r, msb, 1, 0x2, Ghost(x as nat));
    proof {
        lemma_two_pow_pos(msb as nat);
        assert(x < two_pow(msb as nat + 1)) by (nonlinear_arith)
            requires
                r as nat == (x as nat) / two_pow(msb as nat),
                r < 2,
                two_pow(msb as nat) >= 1,
                two_pow(msb as nat + 1) == 2 * two_pow(msb as nat),
        {
            vstd::arithmetic::div_mod::lemma_fundamental_div_mod(x as int, two_pow(msb as nat) as int);
        }
        lemma_floor_log2_unique(x as nat, msb as nat);
        if msb >= 128 {
            lemma_two_pow_monotone(128, msb as nat);
        }
    }
    msb
}

proof fn lemma_frac_step_bounds(r: nat)
    requires
        two_pow(63) <= r < two_pow(64),
    ensures
        r * r < pow128(),
        two_pow(63) <= frac_square(r) < two_pow(65),
        frac_bit(r) == 0 || frac_bit(r) == 1,
        two_pow(63) <= frac_next(r) < two_pow(64),
{
    lemma_two_pow_values();
    lemma_two_pow_adds(64, 1);
    assert(two_pow(1) == 2) by {
        reveal_with_fuel(two_pow, 2);
    }
    assert(two_pow(0) == 1);
    assert(r * r < pow128() && r * r >= 85070591730234615865843651857942052864) by (nonlinear_arith)
        requires
            9223372036854775808 <= r < 18446744073709551616,
            pow128() == 340282366920938463463374607431768211456,
    ;
    let sq = frac_square(r);
    assert(9223372036854775808 <= sq < 36893488147419103232) by (nonlinear_arith)
        requires
            sq == (r * r) / 9223372036854775808,
            85070591730234615865843651857942052864 <= r * r < 340282366920938463463374607431768211456,
    ;
    if sq >= 18446744073709551616 {
        assert(frac_bit(r) == 1);
    } else {
        assert(frac_bit(r) == 0);
    }
}

proof fn lemma_frac_r_range(r0: nat, n: nat)
    requires
        two_pow(63) <= r0 < two_pow(64),
    ensures
        two_pow(63) <= frac_r(r0, n) < two_pow(64),
        frac_bit(frac_r(r0, n)) <= 1,
    decreases n,
{
    if n > 0 {
        lemma_frac_r_range(r0, (n - 1) as nat);
        lemma_frac_step_bounds(frac_r(r0, (n - 1) as nat));
    }
    lemma_frac_step_bounds(frac_r(r0, n));
}

proof fn lemma_frac_bits_bound(r0: nat, n: nat)
    requires
        two_pow(63) <= r0 < two_pow(64),
        n <= 16,
    ensures
        frac_bits(r0, n) <= 4294967296 - two_pow((32 - n) as nat),
    decreases n,
{
    lemma_two_pow_values();
    if n > 0 {
        lemma_frac_bits_bound(r0, (n - 1) as nat);
        lemma_frac_r_range(r0, (n - 1) as nat);
        assert(two_pow((33 - n) as nat) == 2 * two_pow((32 - n) as nat));
        let b = frac_bit(frac_r(r0, (n - 1) as nat));
        let t = two_pow((32 - n) as nat);
        assert(b * t <= t) by (nonlinear_arith)
            requires
                b <= 1,
        ;
    }
}

proof fn lemma_i128_shr64(v: i128)
    requires
        -0x1_0000_0000_0000_0000_0000_0000 < v < 0x1_0000_0000_0000_0000_0000_0000,
    ensures
        (v >> 64i128) == v as int / 18446744073709551616,
{
    assert((v >> 64i128) * 0x1_0000_0000_0000_0000 <= v && v < ((v >> 64i128) + 1)
        * 0x1_0000_0000_0000_0000) by (bit_vector)
        requires
            -0x1_0000_0000_0000_0000_0000_0000 < v < 0x1_0000_0000_0000_0000_0000_0000,
    ;
    let q = (v >> 64i128) as int;
    vstd::arithmetic::div_mod::lemma_fundamental_div_mod_converse(
        v as int,
        18446744073709551616,
        q,
        v as int - q * 18446744073709551616,
    );
}

/// Calculate the tick of a square-root price
///
/// tick = 2*ln(sp_x64/2^64) / ln(1.0001), rounded down: the greatest tick
/// whose square-root price does not exceed the input.
///
/// Computes `2 * log2(sqrt_price) / log2(1.0001)` in fixed point: the integer
/// part of log2 from the highest set bit, 16 fractional bits by repeated
/// squaring, then a change of base. Of the two candidate ticks around the
/// result, the upper one is taken when its own square-root price does not
/// exceed the input; the price ladder then confirms the candidate, stepping
/// to the neighbouring tick where the logarithm's rounding missed it.
pub fn get_tick_at_sqrt_ratio(sqrt_price_x64: u128) -> (r: Result<i32, SureError>)
    ensures
        (sqrt_price_x64 < MIN_SQRT_RATIO || sqrt_price_x64 > MAX_SQRT_RATIO) ==> r == Err::<
            i32,
            SureError,
        >(SureError::SqrtRatioNotWithinRange),
        (MIN_SQRT_RATIO <= sqrt_price_x64 <= MAX_SQRT_RATIO) ==> r == Ok::<i32, SureError>(
            tick_at_sqrt_ratio(sqrt_price_x64) as i32,
        ) && is_tick_of_sqrt_ratio(tick_at_sqrt_ratio(sqrt_price_x64), sqrt_price_x64 as nat),
{
    if sqrt_price_x64 < MIN_SQRT_RATIO || sqrt_price_x64 > MAX_SQRT_RATIO {
        return Err(SureError::SqrtRatioNotWithinRange);
    }
    let ghost x = sqrt_price_x64 as nat;
    let msb = most_significant_bit_u128(sqrt_price_x64);
    proof {
        lemma_two_pow_values();
        lemma_msb_range(x, msb as nat);
    }
    // log2 (m x 2^e) = log2 (m) + e, with e = -64 for Q64.64, as Q.32
    let mut log_2_x32: i128 = (msb as i128 - 64) * 4294967296;

    // the price normalised into [2^63, 2^64)
    let mut r: u128 = if msb >= 64 {
        proof {
            vstd::bits::lemma_u128_shr_is_div(sqrt_price_x64, (msb - 63) as u128);
            lemma_two_pow_is_pow2((msb - 63) as nat);
        }
        sqrt_price_x64 >> (msb - 63)
    } else {
        proof {
            lemma_normalize_up(x, msb as nat);
            lemma_two_pow_is_pow2((63 - msb) as nat);
            vstd::bits::lemma_u64_shl_is_mul(sqrt_price_x64 as u64, (63 - msb) as u64);
        }
        ((sqrt_price_x64 as u64) << (63 - msb)) as u128
    };
    let ghost r0 = r as nat;
    proof {
        lemma_normalized_range(x, msb as nat);
        assert(r0 == normalized_ratio(x));
    }

    // fractional part: one bit per squaring
    let mut i: u32 = 0;
    let mut bit_weight: i128 = 2147483648;
    while i < 16
        invariant
            i <= 16,
            r == frac_r(r0, i as nat),
            two_pow(63) <= r0 < two_pow(64),
            bit_weight == two_pow((31 - i) as nat),
            log_2_x32 == (msb - 64) * 4294967296 + frac_bits(r0, i as nat),
            32 <= msb <= 95,
        decreases 16 - i,
    {
        proof {
            lemma_frac_r_range(r0, i as nat);
            lemma_frac_step_bounds(r as nat);
            lemma_two_pow_values();
            lemma_frac_bits_bound(r0, i as nat);
            vstd::bits::lemma_u128_shr_is_div((r * r) as u128, 63);
            lemma_two_pow_is_pow2(63);
        }
        let sq = (r * r) >> 63;
        proof {
            vstd::bits::lemma_u128_shr_is_div(sq, 64);
            lemma_two_pow_is_pow2(64);
        }
        let f = sq >> 64;
        assert(f == frac_bit(r as nat));
        proof {
            lemma_two_pow_monotone((31 - i) as nat, 31);
            lemma_two_pow_pos((31 - i) as nat);
            assert((f as int) * (bit_weight as int) <= bit_weight as int) by (nonlinear_arith)
                requires
                    f <= 1,
                    bit_weight >= 0,
            ;
            assert((f as int) * (bit_weight as int) >= 0) by (nonlinear_arith)
                requires
                    f <= 1,
                    bit_weight >= 0,
            ;
        }
        log_2_x32 = log_2_x32 + (f as i128) * bit_weight;
        proof {
            vstd::bits::lemma_u128_shr_is_div(sq, f);
            lemma_two_pow_is_pow2(f as nat);
            assert(two_pow(0) == 1);
            assert(two_pow(1) == 2) by {
                reveal_with_fuel(two_pow, 2);
            }
            assert(two_pow((32 - (i + 1)) as nat) == bit_weight);
            assert(two_pow((31 - i) as nat) == 2 * two_pow((30 - i) as nat));
        }
        r = sq >> f;
        bit_weight = bit_weight / 2;
        i = i + 1;
    }
    proof {
        lemma_frac_bits_bound(r0, 16);
    }
    // change of base: multiply by 2^32 / log2(sqrt(1.0001))
    let log_sqrt_10001_x64 = log_2_x32 * 59543866431248i128;
    proof {
        lemma_log_sqrt_bound(log_2_x32 as int);
        lemma_i128_shr64((log_sqrt_10001_x64 - 184467440737095516i128) as i128);
        lemma_i128_shr64((log_sqrt_10001_x64 + 15793534762490258745i128) as i128);
    }
    // tick - 0.01
    let tick_low = ((log_sqrt_10001_x64 - 184467440737095516i128) >> 64) as i32;
    // tick + (2^-14 / log2(sqrt(1.0001))) + 0.01
    let tick_high = ((log_sqrt_10001_x64 + 15793534762490258745i128) >> 64) as i32;
    let candidate = if tick_low == tick_high {
        tick_low
    } else if get_sqrt_ratio_at_tick(tick_high).unwrap() <= sqrt_price_x64 {
        tick_high
    } else {
        tick_low
    };
    // The logarithm places the tick up to its rounding; the price ladder
    // settles it: the greatest tick whose price does not exceed the input.
    let mut tick: i32 = if candidate < MIN_TICK_INDEX {
        MIN_TICK_INDEX
    } else if candidate > MAX_TICK_INDEX {
        MAX_TICK_INDEX
    } else {
        candidate
    };
    proof {
        lemma_sqrt_ratio_at_range_ends();
    }
    loop
        invariant
            MIN_TICK_INDEX <= tick <= MAX_TICK_INDEX,
            MIN_SQRT_RATIO <= sqrt_price_x64,
            sqrt_ratio_at_tick(MIN_TICK_INDEX) == MIN_SQRT_RATIO,
        ensures
            MIN_TICK_INDEX <= tick <= MAX_TICK_INDEX,
            sqrt_ratio_at_tick(tick) <= sqrt_price_x64,
        decreases tick - MIN_TICK_INDEX,
    {
        let price = get_sqrt_ratio_at_tick(tick).unwrap();
        if price <= sqrt_price_x64 {
            break ;
        }
        tick = tick - 1;
    }
    loop
        invariant
            MIN_TICK_INDEX <= tick <= MAX_TICK_INDEX,
            sqrt_ratio_at_tick(tick) <= sqrt_price_x64,
        ensures
            is_tick_of_sqrt_ratio(tick as int, sqrt_price_x64 as nat),
        decreases MAX_TICK_INDEX - tick,
    {
        if tick == MAX_TICK_INDEX {
            break ;
        }
        let next_price = get_sqrt_ratio_at_tick(tick + 1).unwrap();
        if next_price > sqrt_price_x64 {
            break ;
        }
        tick = tick + 1;
    }
    proof {
        law_tick_of_sqrt_ratio_unique(
            tick as int,
            tick_at_sqrt_ratio(sqrt_price_x64),
            sqrt_price_x64 as nat,
        );
    }
    Ok(tick)
}

/// The bits of the magnitude of the range's end ticks.
proof fn lemma_end_tick_bits(k: nat)
    ensures
        tick_bit(443636u32, k) == (k == 2 || k == 4 || k == 5 || k == 6 || k == 7 || k == 10 || k
            == 14 || k == 15 || k == 17 || k == 18),
{
    if k < 32 {
        let ku = k as u32;
        assert(((443636u32 >> ku) & 1 == 1) == (ku == 2 || ku == 4 || ku == 5 || ku == 6 || ku
            == 7 || ku == 10 || ku == 14 || ku == 15 || ku == 17 || ku == 18)) by (bit_vector)
            requires
                ku < 32,
        ;
    }
}

proof fn lemma_neg_ladder_step(t: u32, k: nat, r: int, f: int, v: int)
    requires
        1 <= k,
        neg_ratio_upto(t, (k - 1) as nat) == r,
        neg_factor(k) == f,
        tick_bit(t, k) ==> r * f / 18446744073709551616 == v,
        !tick_bit(t, k) ==> r == v,
    ensures
        neg_ratio_upto(t, k) == v,
{
}

proof fn lemma_pos_ladder_step(t: u32, k: nat, r: int, f: int, v: int)
    requires
        1 <= k,
        pos_ratio_upto(t, (k - 1) as nat) == r,
        pos_factor(k) == f,
        tick_bit(t, k) ==> r * f / 79228162514264337593543950336 == v,
        !tick_bit(t, k) ==> r == v,
    ensures
        pos_ratio_upto(t, k) == v,
{
    lemma_two_pow_values();
}

/// The square-root prices of the range's end ticks are the range's end prices.
proof fn lemma_sqrt_ratio_at_range_ends()
    ensures
        sqrt_ratio_at_tick(MIN_TICK_INDEX) == MIN_SQRT_RATIO,
        sqrt_ratio_at_tick(MAX_TICK_INDEX) == MAX_SQRT_RATIO,
{
    lemma_two_pow_values();
    let t = 443636u32;
    lemma_end_tick_bits(0);
    assert(neg_ratio_upto(t, 0) == 18446744073709551616);
    assert(pos_ratio_upto(t, 0) == 79228162514264337593543950336);
    lemma_end_tick_bits(1);
    lemma_neg_ladder_step(t, 1, 18446744073709551616, 18444899583751176498, 18446744073709551616);
    lemma_pos_ladder_step(t, 1, 79228162514264337593543950336, 79236085330515764027303304731, 79228162514264337593543950336);
    lemma_end_tick_bits(2);
    lemma_neg_ladder_step(t, 2, 18446744073709551616, 18443055278223354162, 18443055278223354162);
    lemma_pos_ladder_step(t, 2, 79228162514264337593543950336, 79244008939048815603706035061, 79244008939048815603706035061);
    lemma_end_tick_bits(3);
    lemma_neg_ladder_step(t, 3, 18443055278223354162, 18439367220385604838, 18443055278223354162);
    lemma_pos_ladder_step(t, 3, 79244008939048815603706035061, 79259858533276714757314932305, 79244008939048815603706035061);
    lemma_end_tick_bits(4);
    lemma_neg_ladder_step(t, 4, 18443055278223354162, 18431993317065449817, 18428307471288117479);
    lemma_pos_ladder_step(t, 4, 79244008939048815603706035061, 79291567232598584799939703904, 79307426338960776842885539843);
    lemma_end_tick_bits(5);
    lemma_neg_ladder_step(t, 5, 18428307471288117479, 18417254355718160513, 18398847226801858501);
    lemma_pos_ladder_step(t, 5, 79307426338960776842885539843, 79355022692464371645785046466, 79434413434441317004961661155);
    lemma_end_tick_bits(6);
    lemma_neg_ladder_step(t, 6, 18398847226801858501, 18387811781193591352, 18340067951587015306);
    lemma_pos_ladder_step(t, 6, 79434413434441317004961661155, 79482085999252804386437311141, 79688997946402660867703038957);
    lemma_end_tick_bits(7);
    lemma_neg_ladder_step(t, 7, 18340067951587015306, 18329067761203520168, 18223072152272561885);
    lemma_pos_ladder_step(t, 7, 79688997946402660867703038957, 79736823300114093921829183326, 80200617388689977366536547152);
    lemma_end_tick_bits(8);
    lemma_neg_ladder_step(t, 8, 18223072152272561885, 18212142134806087854, 18223072152272561885);
    lemma_pos_ladder_step(t, 8, 80200617388689977366536547152, 80248749790819932309965073892, 80200617388689977366536547152);
    lemma_end_tick_bits(9);
    lemma_neg_ladder_step(t, 9, 18223072152272561885, 17980523815641551639, 18223072152272561885);
    lemma_pos_ladder_step(t, 9, 80200617388689977366536547152, 81282483887344747381513967011, 80200617388689977366536547152);
    lemma_end_tick_bits(10);
    lemma_neg_ladder_step(t, 10, 18223072152272561885, 17526086738831147013, 17313578044587773368);
    lemma_pos_ladder_step(t, 10, 80200617388689977366536547152, 83390072131320151908154831281, 84413610726049114366347414816);
    lemma_end_tick_bits(11);
    lemma_neg_ladder_step(t, 11, 17313578044587773368, 16651378430235024244, 17313578044587773368);
    lemma_pos_ladder_step(t, 11, 84413610726049114366347414816, 87770609709833776024991924138, 84413610726049114366347414816);
    lemma_end_tick_bits(12);
    lemma_neg_ladder_step(t, 12, 17313578044587773368, 15030750278693429944, 17313578044587773368);
    lemma_pos_ladder_step(t, 12, 84413610726049114366347414816, 97234110755111693312479820773, 84413610726049114366347414816);
    lemma_end_tick_bits(13);
    lemma_neg_ladder_step(t, 13, 17313578044587773368, 12247334978882834399, 17313578044587773368);
    lemma_pos_ladder_step(t, 13, 84413610726049114366347414816, 119332217159966728226237229890, 84413610726049114366347414816);
    lemma_end_tick_bits(14);
    lemma_neg_ladder_step(t, 14, 17313578044587773368, 8131365268884726200, 7631863196526440527);
    lemma_pos_ladder_step(t, 14, 84413610726049114366347414816, 179736315981702064433883588727, 191499978405809145203445059952);
    lemma_end_tick_bits(15);
    lemma_neg_ladder_step(t, 15, 7631863196526440527, 3584323654723342297, 1482921196045045371);
    lemma_pos_ladder_step(t, 15, 191499978405809145203445059952, 407748233172238350107850275304, 985555834813563612221638545219);
    lemma_end_tick_bits(16);
    lemma_neg_ladder_step(t, 16, 1482921196045045371, 696457651847595233, 1482921196045045371);
    lemma_pos_ladder_step(t, 16, 985555834813563612221638545219, 2098478828474011932436660412517, 985555834813563612221638545219);
    lemma_end_tick_bits(17);
    lemma_neg_ladder_step(t, 17, 1482921196045045371, 26294789957452057, 2113820261052536);
    lemma_pos_ladder_step(t, 17, 985555834813563612221638545219, 55581415166113811149459800483533, 691402984567465602855604295835822);
    lemma_end_tick_bits(18);
    lemma_neg_ladder_step(t, 18, 2113820261052536, 37481735321082, 4295048016);
    lemma_pos_ladder_step(t, 18, 691402984567465602855604295835822, 38992368544603139932233054999993551, 340275971719517849884101479037289023427);
    assert(sqrt_ratio_at_tick(MIN_TICK_INDEX) == neg_ratio_upto(t, 18));
    assert(sqrt_ratio_at_tick(MAX_TICK_INDEX) == pos_ratio_upto(t, 18) / two_pow(32));
}

/// The tick of a square-root price is unique: two ticks that each are the
/// greatest tick whose price does not exceed `x` are the same.
pub proof fn law_tick_of_sqrt_ratio_unique(t1: int, t2: int, x: nat)
    ensures
        is_tick_of_sqrt_ratio(t1, x) && is_tick_of_sqrt_ratio(t2, x) ==> t1 == t2,
{
    if is_tick_of_sqrt_ratio(t1, x) && is_tick_of_sqrt_ratio(t2, x) && t1 != t2 {
        let (a, b) = if t1 < t2 {
            (t1, t2)
        } else {
            (t2, t1)
        };
        if a + 1 < b {
            law_sqrt_ratio_strictly_increasing((a + 1) as i32, b as i32);
        }
        assert(x < sqrt_ratio_at_tick((a + 1) as i32));
        assert(sqrt_ratio_at_tick((a + 1) as i32) <= sqrt_ratio_at_tick(b as i32));
    }
}

/// A tick's square-root price lies in the price range and gives the tick
/// back: the tick of `sqrt_ratio_at_tick(t)` is `t`.
pub proof fn law_tick_round_trip(t: i32)
    requires
        MIN_TICK_INDEX <= t <= MAX_TICK_INDEX,
    ensures
        MIN_SQRT_RATIO <= sqrt_ratio_at_tick(t) <= MAX_SQRT_RATIO,
        is_tick_of_sqrt_ratio(t as int, sqrt_ratio_at_tick(t)),
        tick_at_sqrt_ratio(sqrt_ratio_at_tick(t) as u128) == t,
{
    lemma_sqrt_ratio_at_range_ends();
    if MIN_TICK_INDEX < t {
        law_sqrt_ratio_strictly_increasing(MIN_TICK_INDEX, t);
    }
    if t < MAX_TICK_INDEX {
        law_sqrt_ratio_strictly_increasing(t, MAX_TICK_INDEX);
        law_sqrt_ratio_strictly_increasing(t, (t + 1) as i32);
    }
    let x = sqrt_ratio_at_tick(t);
    assert(is_tick_of_sqrt_ratio(t as int, x));
    assert((x as u128) as nat == x);
    law_tick_of_sqrt_ratio_unique(t as int, tick_at_sqrt_ratio(x as u128), x);
}

proof fn lemma_msb_range(x: nat, m: nat)
    requires
        4295048016 <= x <= 79226673515401279992447579055,
        m == floor_log2(x),
    ensures
        32 <= m <= 95,
{
    crate::u256::lemma_floor_log2_bounds(x);
    lemma_two_pow_values();
    if m < 32 {
        lemma_two_pow_monotone(m + 1, 32);
    }
    if m > 95 {
        lemma_two_pow_monotone(96, m);
    }
}

proof fn lemma_normalize_up(x: nat, m: nat)
    requires
        m == floor_log2(x),
        x >= 1,
        m < 64,
    ensures
        x * two_pow((63 - m) as nat) <= u64::MAX,
        x < pow64(),
{
    crate::u256::lemma_floor_log2_bounds(x);
    lemma_two_pow_adds(m + 1, (63 - m) as nat);
    lemma_two_pow_values();
    assert(x * two_pow((63 - m) as nat) < two_pow(m + 1) * two_pow((63 - m) as nat)) by (nonlinear_arith)
        requires
            x < two_pow(m + 1),
            two_pow((63 - m) as nat) >= 1,
    {
        lemma_two_pow_pos((63 - m) as nat);
    }
    lemma_two_pow_pos((63 - m) as nat);
    lemma_two_pow_monotone(m + 1, 64);
}

proof fn lemma_normalized_range(x: nat, m: nat)
    requires
        m == floor_log2(x),
        x >= 1,
    ensures
        two_pow(63) <= normalized_ratio(x) < two_pow(64),
{
    crate::u256::lemma_floor_log2_bounds(x);
    if m >= 64 {
        let d = two_pow((m - 63) as nat);
        lemma_two_pow_adds(63, (m - 63) as nat);
        lemma_two_pow_adds(64, (m - 63) as nat);
        lemma_two_pow_pos((m - 63) as nat);
        assert(two_pow(63) <= x / d < two_pow(64)) by (nonlinear_arith)
            requires
                two_pow(63) * d <= x < two_pow(64) * d,
                d >= 1,
        {
            vstd::arithmetic::div_mod::lemma_fundamental_div_mod(x as int, d as int);
        }
    } else {
        let k = two_pow((63 - m) as nat);
        lemma_two_pow_adds(m, (63 - m) as nat);
        lemma_two_pow_adds(m + 1, (63 - m) as nat);
        lemma_two_pow_pos((63 - m) as nat);
        assert(two_pow(63) <= x * k < two_pow(64)) by (nonlinear_arith)
            requires
                two_pow(m) <= x < two_pow(m + 1),
                two_pow(63) == two_pow(m) * k,
                two_pow(64) == two_pow(m + 1) * k,
                k >= 1,
        ;
        lemma_two_pow_pos((63 - m) as nat);
    }
}

proof fn lemma_log_sqrt_bound(l: int)
    requires
        -32 * 4294967296 <= l < 32 * 4294967296,
    ensures
        -1237940039285380274899124224 < l * 59543866431248 < 1237940039285380274899124224,
{
    assert(-1237940039285380274899124224 < l * 59543866431248 < 1237940039285380274899124224)
        by (nonlinear_arith)
        requires
            -32 * 4294967296 <= l < 32 * 4294967296,
    ;
}

/// The difference from one premium to another and back has the same size,
/// and, when the premiums differ, the opposite direction.
pub proof fn law_premium_diff_antisymmetric(old: u128, new: u128)
    ensures
        premium_diff(old, new).1 == premium_diff(new, old).1,
        old != new ==> premium_diff(old, new).0 == !premium_diff(new, old).0,
        old == new ==> premium_diff(old, new) == (false, 0u128),
{
}

proof fn lemma_pos_ratio_at_least_one(t: u32, k: nat)
    requires
        k <= 18,
    ensures
        pos_ratio_upto(t, k) >= two_pow(96),
    decreases k,
{
    lemma_two_pow_values();
    if k > 0 {
        lemma_pos_ratio_at_least_one(t, (k - 1) as nat);
        if tick_bit(t, k) {
            let r = pos_ratio_upto(t, (k - 1) as nat);
            let f = pos_factor(k);
            assert(f >= two_pow(96));
            assert(r * f / two_pow(96) >= two_pow(96)) by (nonlinear_arith)
                requires
                    r >= two_pow(96),
                    f >= two_pow(96),
                    two_pow(96) > 0,
            {
                assert(r * f >= two_pow(96) * two_pow(96));
            }
        }
    }
}

proof fn lemma_neg_ratio_below_one(t: u32, k: nat)
    requires
        k <= 18,
    ensures
        neg_ratio_upto(t, k) <= pow64(),
        (exists|j: nat| j <= k && #[trigger] tick_bit(t, j)) ==> neg_ratio_upto(t, k) < pow64(),
    decreases k,
{
    if k > 0 {
        lemma_neg_ratio_below_one(t, (k - 1) as nat);
        let r = neg_ratio_upto(t, (k - 1) as nat);
        if tick_bit(t, k) {
            let f = neg_factor(k);
            assert(f < pow64());
            assert(r * f / pow64() < pow64()) by (nonlinear_arith)
                requires
                    r <= pow64(),
                    f < pow64(),
                    pow64() > 0,
            {
                assert(r * f < pow64() * pow64());
            }
            assert(r * f / pow64() <= r) by (nonlinear_arith)
                requires
                    f < pow64(),
                    pow64() > 0,
            {
                assert(r * f <= r * pow64());
            }
        } else {
            if exists|j: nat| j <= k && #[trigger] tick_bit(t, j) {
                let j = choose|j: nat| j <= k && #[trigger] tick_bit(t, j);
                assert(j <= k - 1);
            }
        }
    }
}

/// The square-root price of a tick is at least 1.0 (`2^64` in Q64.64)
/// exactly when the tick is not negative.
pub proof fn law_sqrt_ratio_at_least_one_iff_nonnegative(tick: i32)
    requires
        MIN_TICK_INDEX <= tick,
    ensures
        (sqrt_ratio_at_tick(tick) >= pow64()) == (tick >= 0),
{
    lemma_two_pow_values();
    if tick >= 0 {
        lemma_pos_ratio_at_least_one(tick as u32, 18);
        assert(pos_ratio_upto(tick as u32, 18) / two_pow(32) >= pow64()) by (nonlinear_arith)
            requires
                pos_ratio_upto(tick as u32, 18) >= two_pow(96),
                two_pow(96) == pow64() * two_pow(32),
                two_pow(32) > 0,
        ;
    } else {
        let m = (-(tick as int)) as u32;
        assert(1 <= m <= 443636);
        assert(m > 0 && m < 524288 ==> ((m >> 0u32) & 1 == 1 || (m >> 1u32) & 1 == 1 || (m
            >> 2u32) & 1 == 1 || (m >> 3u32) & 1 == 1 || (m >> 4u32) & 1 == 1 || (m >> 5u32) & 1
            == 1 || (m >> 6u32) & 1 == 1 || (m >> 7u32) & 1 == 1 || (m >> 8u32) & 1 == 1 || (m
            >> 9u32) & 1 == 1 || (m >> 10u32) & 1 == 1 || (m >> 11u32) & 1 == 1 || (m >> 12u32)
            & 1 == 1 || (m >> 13u32) & 1 == 1 || (m >> 14u32) & 1 == 1 || (m >> 15u32) & 1 == 1
            || (m >> 16u32) & 1 == 1 || (m >> 17u32) & 1 == 1 || (m >> 18u32) & 1 == 1))
            by (bit_vector);
        assert(exists|j: nat| j <= 18 && #[trigger] tick_bit(m, j)) by {
            if tick_bit(m, 0) {
            } else if tick_bit(m, 1) {
            } else if tick_bit(m, 2) {
            } else if tick_bit(m, 3) {
            } else if tick_bit(m, 4) {
            } else if tick_bit(m, 5) {
            } else if tick_bit(m, 6) {
            } else if tick_bit(m, 7) {
            } else if tick_bit(m, 8) {
            } else if tick_bit(m, 9) {
            } else if tick_bit(m, 10) {
            } else if tick_bit(m, 11) {
            } else if tick_bit(m, 12) {
            } else if tick_bit(m, 13) {
            } else if tick_bit(m, 14) {
            } else if tick_bit(m, 15) {
            } else if tick_bit(m, 16) {
            } else if tick_bit(m, 17) {
            } else {
                assert(tick_bit(m, 18));
            }
        }
        lemma_neg_ratio_below_one(m, 18);
    }
}

/// Ratio of the magnitude whose bits `0..k` are all set, after bit `k - 1`.
spec fn neg_ones(k: nat) -> nat
    decreases k,
{
    if k <= 1 {
        18445821805675392311
    } else {
        neg_ones((k - 1) as nat) * neg_factor((k - 1) as nat) / pow64()
    }
}

/// Lower bound of the drop of the ratio between two magnitudes below
/// `2^(k + 1)`, after bit `k`.
spec fn neg_gap(k: nat) -> int
    decreases k,
{
    if k == 0 {
        pow64() - 18445821805675392311
    } else {
        let carried = neg_gap((k - 1) as nat) * neg_factor(k) / (pow64() as int);
        let fresh = neg_ones(k) - neg_factor(k);
        if fresh < carried {
            fresh
        } else {
            carried
        }
    }
}

proof fn lemma_neg_table()
    ensures
        forall|k: nat| k <= 18 ==> #[trigger] neg_gap(k) >= 3808,
{
    lemma_two_pow_values();
    reveal_with_fuel(neg_ones, 2);
    reveal_with_fuel(neg_gap, 2);
    assert(neg_ones(1) == 18445821805675392311);
    assert(neg_ones(2) == 18445821805675392311 * 18444899583751176498 / pow64());
    assert(18445821805675392311 * 18444899583751176498 / 18446744073709551616 == 18443977407934598850);
    assert(neg_ones(2) == 18443977407934598850);
    assert(neg_ones(3) == 18443977407934598850 * 18443055278223354162 / pow64());
    assert(18443977407934598850 * 18443055278223354162 / 18446744073709551616 == 18440289165698567478);
    assert(neg_ones(3) == 18440289165698567478);
    assert(neg_ones(4) == 18440289165698567478 * 18439367220385604838 / pow64());
    assert(18440289165698567478 * 18439367220385604838 / 18446744073709551616 == 18432914893692463368);
    assert(neg_ones(4) == 18432914893692463368);
    assert(neg_ones(5) == 18432914893692463368 * 18431993317065449817 / pow64());
    assert(18432914893692463368 * 18431993317065449817 / 18446744073709551616 == 18418175195415529478);
    assert(neg_ones(5) == 18418175195415529478);
    assert(neg_ones(6) == 18418175195415529478 * 18417254355718160513 / pow64());
    assert(18418175195415529478 * 18417254355718160513 / 18446744073709551616 == 18388731148799035466);
    assert(neg_ones(6) == 18388731148799035466);
    assert(neg_ones(7) == 18388731148799035466 * 18387811781193591352 / pow64());
    assert(18388731148799035466 * 18387811781193591352 / 18446744073709551616 == 18329984191681391131);
    assert(neg_ones(7) == 18329984191681391131);
    assert(neg_ones(8) == 18329984191681391131 * 18329067761203520168 / pow64());
    assert(18329984191681391131 * 18329067761203520168 / 18446744073709551616 == 18213052719148788671);
    assert(neg_ones(8) == 18213052719148788671);
    assert(neg_ones(9) == 18213052719148788671 * 18212142134806087854 / pow64());
    assert(18213052719148788671 * 18212142134806087854 / 18446744073709551616 == 17981422819357802651);
    assert(neg_ones(9) == 17981422819357802651);
    assert(neg_ones(10) == 17981422819357802651 * 17980523815641551639 / pow64());
    assert(17981422819357802651 * 17980523815641551639 / 18446744073709551616 == 17526963021261575450);
    assert(neg_ones(10) == 17526963021261575450);
    assert(neg_ones(11) == 17526963021261575450 * 17526086738831147013 / pow64());
    assert(17526963021261575450 * 17526086738831147013 / 18446744073709551616 == 16652210978343353594);
    assert(neg_ones(11) == 16652210978343353594);
    assert(neg_ones(12) == 16652210978343353594 * 16651378430235024244 / pow64());
    assert(16652210978343353594 * 16651378430235024244 / 18446744073709551616 == 15031501797419866121);
    assert(neg_ones(12) == 15031501797419866121);
    assert(neg_ones(13) == 15031501797419866121 * 15030750278693429944 / pow64());
    assert(15031501797419866121 * 15030750278693429944 / 18446744073709551616 == 12247947330323375219);
    assert(neg_ones(13) == 12247947330323375219);
    assert(neg_ones(14) == 12247947330323375219 * 12247334978882834399 / pow64());
    assert(12247947330323375219 * 12247334978882834399 / 18446744073709551616 == 8131771826984472022);
    assert(neg_ones(14) == 8131771826984472022);
    assert(neg_ones(15) == 8131771826984472022 * 8131365268884726200 / pow64());
    assert(8131771826984472022 * 8131365268884726200 / 18446744073709551616 == 3584502866425897898);
    assert(neg_ones(15) == 3584502866425897898);
    assert(neg_ones(16) == 3584502866425897898 * 3584323654723342297 / pow64());
    assert(3584502866425897898 * 3584323654723342297 / 18446744073709551616 == 696492473859659073);
    assert(neg_ones(16) == 696492473859659073);
    assert(neg_ones(17) == 696492473859659073 * 696457651847595233 / pow64());
    assert(696492473859659073 * 696457651847595233 / 18446744073709551616 == 26296104664083085);
    assert(neg_ones(17) == 26296104664083085);
    assert(neg_ones(18) == 26296104664083085 * 26294789957452057 / pow64());
    assert(26296104664083085 * 26294789957452057 / 18446744073709551616 == 37483609360998);
    assert(neg_ones(18) == 37483609360998);
    assert(neg_gap(0) == 922268034159305);
    assert(neg_gap(1) == (if 18445821805675392311int - 18444899583751176498int < 922268034159305int * 18444899583751176498int / 18446744073709551616int {
        18445821805675392311int - 18444899583751176498int
    } else {
        922268034159305int * 18444899583751176498int / 18446744073709551616int
    }));
    assert(922268034159305int * 18444899583751176498int / 18446744073709551616int == 922175816577647int);
    assert(neg_gap(1) == 922175816577647);
    assert(neg_gap(2) == (if 18443977407934598850int - 18443055278223354162int < 922175816577647int * 18443055278223354162int / 18446744073709551616int {
        18443977407934598850int - 18443055278223354162int
    } else {
        922175816577647int * 18443055278223354162int / 18446744073709551616int
    }));
    assert(922175816577647int * 18443055278223354162int / 18446744073709551616int == 921991409075917int);
    assert(neg_gap(2) == 921991409075917);
    assert(neg_gap(3) == (if 18440289165698567478int - 18439367220385604838int < 921991409075917int * 18439367220385604838int / 18446744073709551616int {
        18440289165698567478int - 18439367220385604838int
    } else {
        921991409075917int * 18439367220385604838int / 18446744073709551616int
    }));
    assert(921991409075917int * 18439367220385604838int / 18446744073709551616int == 921622704692990int);
    assert(neg_gap(3) == 921622704692990);
    assert(neg_gap(4) == (if 18432914893692463368int - 18431993317065449817int < 921622704692990int * 18431993317065449817int / 18446744073709551616int {
        18432914893692463368int - 18431993317065449817int
    } else {
        921622704692990int * 18431993317065449817int / 18446744073709551616int
    }));
    assert(921622704692990int * 18431993317065449817int / 18446744073709551616int == 920885738202844int);
    assert(neg_gap(4) == 920885738202844);
    assert(neg_gap(5) == (if 18418175195415529478int - 18417254355718160513int < 920885738202844int * 18417254355718160513int / 18446744073709551616int {
        18418175195415529478int - 18417254355718160513int
    } else {
        920885738202844int * 18417254355718160513int / 18446744073709551616int
    }));
    assert(920885738202844int * 18417254355718160513int / 18446744073709551616int == 919413572675237int);
    assert(neg_gap(5) == 919413572675237);
    assert(neg_gap(6) == (if 18388731148799035466int - 18387811781193591352int < 919413572675237int * 18387811781193591352int / 18446744073709551616int {
        18388731148799035466int - 18387811781193591352int
    } else {
        919413572675237int * 18387811781193591352int / 18446744073709551616int
    }));
    assert(919413572675237int * 18387811781193591352int / 18446744073709551616int == 916476298249379int);
    assert(neg_gap(6) == 916476298249379);
    assert(neg_gap(7) == (if 18329984191681391131int - 18329067761203520168int < 916476298249379int * 18329067761203520168int / 18446744073709551616int {
        18329984191681391131int - 18329067761203520168int
    } else {
        916476298249379int * 18329067761203520168int / 18446744073709551616int
    }));
    assert(916476298249379int * 18329067761203520168int / 18446744073709551616int == 910629870779781int);
    assert(neg_gap(7) == 910629870779781);
    assert(neg_gap(8) == (if 18213052719148788671int - 18212142134806087854int < 910629870779781int * 18212142134806087854int / 18446744073709551616int {
        18213052719148788671int - 18212142134806087854int
    } else {
        910629870779781int * 18212142134806087854int / 18446744073709551616int
    }));
    assert(910629870779781int * 18212142134806087854int / 18446744073709551616int == 899048665313130int);
    assert(neg_gap(8) == 899048665313130);
    assert(neg_gap(9) == (if 17981422819357802651int - 17980523815641551639int < 899048665313130int * 17980523815641551639int / 18446744073709551616int {
        17981422819357802651int - 17980523815641551639int
    } else {
        899048665313130int * 17980523815641551639int / 18446744073709551616int
    }));
    assert(899048665313130int * 17980523815641551639int / 18446744073709551616int == 876326243454664int);
    assert(neg_gap(9) == 876326243454664);
    assert(neg_gap(10) == (if 17526963021261575450int - 17526086738831147013int < 876326243454664int * 17526086738831147013int / 18446744073709551616int {
        17526963021261575450int - 17526086738831147013int
    } else {
        876326243454664int * 17526086738831147013int / 18446744073709551616int
    }));
    assert(876326243454664int * 17526086738831147013int / 18446744073709551616int == 832589734694138int);
    assert(neg_gap(10) == 832589734694138);
    assert(neg_gap(11) == (if 16652210978343353594int - 16651378430235024244int < 832589734694138int * 16651378430235024244int / 18446744073709551616int {
        16652210978343353594int - 16651378430235024244int
    } else {
        832589734694138int * 16651378430235024244int / 18446744073709551616int
    }));
    assert(832589734694138int * 16651378430235024244int / 18446744073709551616int == 751556301433152int);
    assert(neg_gap(11) == 751556301433152);
    assert(neg_gap(12) == (if 15031501797419866121int - 15030750278693429944int < 751556301433152int * 15030750278693429944int / 18446744073709551616int {
        15031501797419866121int - 15030750278693429944int
    } else {
        751556301433152int * 15030750278693429944int / 18446744073709551616int
    }));
    assert(751556301433152int * 15030750278693429944int / 18446744073709551616int == 612382057347450int);
    assert(neg_gap(12) == 612382057347450);
    assert(neg_gap(13) == (if 12247947330323375219int - 12247334978882834399int < 612382057347450int * 12247334978882834399int / 18446744073709551616int {
        12247947330323375219int - 12247334978882834399int
    } else {
        612382057347450int * 12247334978882834399int / 18446744073709551616int
    }));
    assert(612382057347450int * 12247334978882834399int / 18446744073709551616int == 406578427142640int);
    assert(neg_gap(13) == 406578427142640);
    assert(neg_gap(14) == (if 8131771826984472022int - 8131365268884726200int < 406578427142640int * 8131365268884726200int / 18446744073709551616int {
        8131771826984472022int - 8131365268884726200int
    } else {
        406578427142640int * 8131365268884726200int / 18446744073709551616int
    }));
    assert(406578427142640int * 8131365268884726200int / 18446744073709551616int == 179220662916727int);
    assert(neg_gap(14) == 179220662916727);
    assert(neg_gap(15) == (if 3584502866425897898int - 3584323654723342297int < 179220662916727int * 3584323654723342297int / 18446744073709551616int {
        3584502866425897898int - 3584323654723342297int
    } else {
        179220662916727int * 3584323654723342297int / 18446744073709551616int
    }));
    assert(179220662916727int * 3584323654723342297int / 18446744073709551616int == 34823753120918int);
    assert(neg_gap(15) == 34823753120918);
    assert(neg_gap(16) == (if 696492473859659073int - 696457651847595233int < 34823753120918int * 696457651847595233int / 18446744073709551616int {
        696492473859659073int - 696457651847595233int
    } else {
        34823753120918int * 696457651847595233int / 18446744073709551616int
    }));
    assert(34823753120918int * 696457651847595233int / 18446744073709551616int == 1314772364716int);
    assert(neg_gap(16) == 1314772364716);
    assert(neg_gap(17) == (if 26296104664083085int - 26294789957452057int < 1314772364716int * 26294789957452057int / 18446744073709551616int {
        26296104664083085int - 26294789957452057int
    } else {
        1314772364716int * 26294789957452057int / 18446744073709551616int
    }));
    assert(1314772364716int * 26294789957452057int / 18446744073709551616int == 1874133615int);
    assert(neg_gap(17) == 1874133615);
    assert(neg_gap(18) == (if 37483609360998int - 37481735321082int < 1874133615int * 37481735321082int / 18446744073709551616int {
        37483609360998int - 37481735321082int
    } else {
        1874133615int * 37481735321082int / 18446744073709551616int
    }));
    assert(1874133615int * 37481735321082int / 18446744073709551616int == 3808int);
    assert(neg_gap(18) == 3808);
    assert forall|k: nat| k <= 18 implies #[trigger] neg_gap(k) >= 3808 by {
        if k == 0 {
        } else if k == 1 {
        } else if k == 2 {
        } else if k == 3 {
        } else if k == 4 {
        } else if k == 5 {
        } else if k == 6 {
        } else if k == 7 {
        } else if k == 8 {
        } else if k == 9 {
        } else if k == 10 {
        } else if k == 11 {
        } else if k == 12 {
        } else if k == 13 {
        } else if k == 14 {
        } else if k == 15 {
        } else if k == 16 {
        } else if k == 17 {
        } else {
        }
    }
}

proof fn lemma_neg_ratio_low_bits(t1: u32, t2: u32, k: nat)
    requires
        forall|i: nat| i <= k ==> #[trigger] tick_bit(t1, i) == tick_bit(t2, i),
    ensures
        neg_ratio_upto(t1, k) == neg_ratio_upto(t2, k),
    decreases k,
{
    assert(tick_bit(t1, 0) == tick_bit(t2, 0));
    assert(tick_bit(t1, k) == tick_bit(t2, k));
    if k > 0 {
        lemma_neg_ratio_low_bits(t1, t2, (k - 1) as nat);
    }
}

proof fn lemma_split_bit(t: u32, k: u32, i: u32)
    requires
        1 <= k <= 18,
        t < (1u32 << (k + 1)),
        i < k,
    ensures
        ((t >> k) & 1 == 1) == (t >= (1u32 << k)),
        t >= (1u32 << k) ==> (((t - (1u32 << k)) as u32) >> i) & 1 == (t >> i) & 1,
        t >= (1u32 << k) ==> ((t - (1u32 << k)) as u32) < (1u32 << k),
        ((((1u32 << k) - 1) as u32) >> i) & 1 == 1,
        (((1u32 << k) - 1) as u32) < (1u32 << k),
{
    assert(((t >> k) & 1 == 1) == (t >= (1u32 << k)) && (t >= (1u32 << k) ==> (((t - (1u32
        << k)) as u32) >> i) & 1 == (t >> i) & 1) && (t >= (1u32 << k) ==> ((t - (1u32 << k))
        as u32) < (1u32 << k)) && ((((1u32 << k) - 1) as u32) >> i) & 1 == 1 && (((1u32 << k)
        - 1) as u32) < (1u32 << k)) by (bit_vector)
        requires
            1 <= k <= 18,
            t < (1u32 << (k + 1)),
            i < k,
    ;
}

proof fn lemma_ones_bits(k: u32, i: u32)
    requires
        1 <= k <= 18,
        i < k,
    ensures
        ((((1u32 << k) - 1) as u32) >> i) & 1 == 1,
        (((1u32 << k) - 1) as u32) < (1u32 << k),
        0 < (1u32 << k),
{
    assert(((((1u32 << k) - 1) as u32) >> i) & 1 == 1 && (((1u32 << k) - 1) as u32) < (1u32
        << k) && 0 < (1u32 << k)) by (bit_vector)
        requires
            1 <= k <= 18,
            i < k,
    ;
}

proof fn lemma_zero_bits(i: nat)
    ensures
        !tick_bit(0, i),
{
    if i < 32 {
        let iu = i as u32;
        assert((0u32 >> iu) & 1 == 0) by (bit_vector);
    }
}

proof fn lemma_neg_ratio_of_zero(k: nat)
    ensures
        neg_ratio_upto(0, k) == pow64(),
    decreases k,
{
    lemma_zero_bits(0);
    lemma_zero_bits(k);
    if k > 0 {
        lemma_neg_ratio_of_zero((k - 1) as nat);
    }
}

proof fn lemma_pos_ratio_of_zero(k: nat)
    ensures
        pos_ratio_upto(0, k) == 79228162514264337593543950336,
    decreases k,
{
    lemma_zero_bits(0);
    lemma_zero_bits(k);
    if k > 0 {
        lemma_pos_ratio_of_zero((k - 1) as nat);
    }
}

proof fn lemma_neg_ones(k: nat)
    requires
        1 <= k <= 18,
    ensures
        neg_ratio_upto(((1u32 << (k as u32)) - 1) as u32, (k - 1) as nat) == neg_ones(k),
    decreases k,
{
    let ku = k as u32;
    let m = ((1u32 << ku) - 1) as u32;
    if k == 1 {
        assert(((1u32 << 1u32) - 1) as u32 == 1) by (bit_vector);
        assert((1u32 >> 0u32) & 1 == 1) by (bit_vector);
        assert(tick_bit(1, 0));
    } else {
        let m1 = ((1u32 << ((k - 1) as u32)) - 1) as u32;
        lemma_neg_ones((k - 1) as nat);
        assert forall|i: nat| i <= (k - 2) as nat implies #[trigger] tick_bit(m, i) == tick_bit(m1, i) by {
            lemma_ones_bits(ku, i as u32);
            lemma_ones_bits((k - 1) as u32, i as u32);
        }
        lemma_neg_ratio_low_bits(m, m1, (k - 2) as nat);
        lemma_ones_bits(ku, (k - 1) as u32);
        assert(tick_bit(m, (k - 1) as nat));
    }
}

proof fn lemma_floor_gap(a: int, b: int, g: int, f: int, p: int)
    requires
        p > 0,
        f >= 0,
        b >= 0,
        g >= 0,
        a >= b + g,
    ensures
        a * f / p >= b * f / p + g * f / p,
{
    assert(a * f >= b * f + g * f) by (nonlinear_arith)
        requires
            a >= b + g,
            f >= 0,
    ;
    vstd::arithmetic::div_mod::lemma_div_is_ordered(b * f + g * f, a * f, p);
    vstd::arithmetic::div_mod::lemma_fundamental_div_mod(b * f, p);
    vstd::arithmetic::div_mod::lemma_fundamental_div_mod(g * f, p);
    vstd::arithmetic::div_mod::lemma_mod_bound(b * f, p);
    vstd::arithmetic::div_mod::lemma_mod_bound(g * f, p);
    let q = b * f / p + g * f / p;
    assert(b * f + g * f == q * p + (b * f % p + g * f % p)) by (nonlinear_arith)
        requires
            b * f == p * (b * f / p) + b * f % p,
            g * f == p * (g * f / p) + g * f % p,
            q == b * f / p + g * f / p,
    ;
    vstd::arithmetic::div_mod::lemma_div_multiples_vanish_fancy(q, 0, p);
    assert(p * q + 0 == q * p) by (nonlinear_arith);
    vstd::arithmetic::div_mod::lemma_div_is_ordered(q * p, b * f + g * f, p);
}

proof fn lemma_neg_ratio_decreasing(t1: u32, t2: u32, k: nat)
    requires
        k <= 18,
        t1 < t2,
        t2 < (1u32 << ((k + 1) as u32)),
    ensures
        neg_ratio_upto(t1, k) >= neg_ratio_upto(t2, k) + neg_gap(k),
    decreases k,
{
    lemma_two_pow_values();
    lemma_neg_table();
    if k == 0 {
        assert(1u32 << 1u32 == 2) by (bit_vector);
        assert((0u32 >> 0u32) & 1 == 0) by (bit_vector);
        assert((1u32 >> 0u32) & 1 == 1) by (bit_vector);
        assert(t1 == 0 && t2 == 1);
        assert(!tick_bit(t1, 0) && tick_bit(t2, 0));
    } else {
        let ku = k as u32;
        let half = 1u32 << ku;
        let p = pow64();
        let f = neg_factor(k);
        assert(0 < f < p);
        let g = neg_gap((k - 1) as nat);
        assert(g >= 3808);
        let lo1 = if t1 >= half { (t1 - half) as u32 } else { t1 };
        let lo2 = if t2 >= half { (t2 - half) as u32 } else { t2 };
        assert(t1 < (1u32 << (ku + 1)));
        lemma_split_bit(t1, ku, 0);
        lemma_split_bit(t2, ku, 0);
        assert(tick_bit(t1, k) == (t1 >= half));
        assert(tick_bit(t2, k) == (t2 >= half));
        assert forall|i: nat| i <= (k - 1) as nat implies #[trigger] tick_bit(lo1, i) == tick_bit(t1, i) by {
            lemma_split_bit(t1, ku, i as u32);
        }
        assert forall|i: nat| i <= (k - 1) as nat implies #[trigger] tick_bit(lo2, i) == tick_bit(t2, i) by {
            lemma_split_bit(t2, ku, i as u32);
        }
        lemma_neg_ratio_low_bits(lo1, t1, (k - 1) as nat);
        lemma_neg_ratio_low_bits(lo2, t2, (k - 1) as nat);
        let n1 = neg_ratio_upto(t1, (k - 1) as nat);
        let n2 = neg_ratio_upto(t2, (k - 1) as nat);
        lemma_neg_ratio_below_one(t2, (k - 1) as nat);
        if (t1 >= half) == (t2 >= half) {
            assert(lo1 < lo2);
            assert(lo2 < (1u32 << (((k - 1) as nat + 1) as u32)));
            lemma_neg_ratio_decreasing(lo1, lo2, (k - 1) as nat);
            if t1 >= half {
                lemma_floor_gap(n1 as int, n2 as int, g, f as int, p as int);
                assert(neg_gap(k) <= g * f / (p as int));
            } else {
                assert(g * f / (p as int) <= g) by (nonlinear_arith)
                    requires
                        g >= 0,
                        0 < f < p,
                {
                    assert(g * f <= g * p);
                }
                assert(neg_gap(k) <= g * f / (p as int));
            }
        } else {
            assert(t1 < half && t2 >= half);
            let ones = ((1u32 << ku) - 1) as u32;
            lemma_neg_ones(k);
            lemma_ones_bits(ku, 0);
            if t1 < ones {
                assert(ones < (1u32 << (((k - 1) as nat + 1) as u32)));
                lemma_neg_ratio_decreasing(t1, ones, (k - 1) as nat);
            }
            assert(n1 >= neg_ones(k));
            assert(n2 * f / p <= f) by (nonlinear_arith)
                requires
                    n2 <= p,
                    p > 0,
                    f >= 0,
            {
                assert(n2 * f <= p * f);
            }
            assert(neg_gap(k) <= neg_ones(k) - f);
        }
    }
}

/// The square-root price strictly increases with the tick over the negative
/// ticks, from the lowest tick up to tick zero.
pub proof fn law_sqrt_ratio_increases_on_negative_ticks(t1: i32, t2: i32)
    requires
        MIN_TICK_INDEX <= t1 < t2 <= 0,
    ensures
        sqrt_ratio_at_tick(t1) < sqrt_ratio_at_tick(t2),
{
    lemma_two_pow_values();
    lemma_neg_table();
    let m1 = (-(t1 as int)) as u32;
    let m2 = (-(t2 as int)) as u32;
    assert(1u32 << 19u32 == 524288) by (bit_vector);
    assert(m1 < (1u32 << ((18nat + 1) as u32)));
    lemma_neg_ratio_decreasing(m2, m1, 18);
    if t2 == 0 {
        lemma_pos_ratio_of_zero(18);
        lemma_neg_ratio_of_zero(18);
    }
}

/// Lower bound of the rise of the Q32.96 ratio between two ticks below
/// `2^(k + 1)`, after bit `k`.
spec fn pos_gap(k: nat) -> int
    decreases k,
{
    if k == 0 {
        79232123823359799118286999567 - two_pow(96)
    } else {
        let kept = pos_gap((k - 1) as nat);
        let fresh = pos_factor(k) - pos_bound((k - 1) as nat);
        if fresh < kept {
            fresh
        } else {
            kept
        }
    }
}

proof fn lemma_pos_table()
    ensures
        forall|k: nat| k <= 18 ==> #[trigger] pos_gap(k) >= 4294967296,
{
    lemma_two_pow_values();
    lemma_pos_bound_values();
    reveal_with_fuel(pos_gap, 2);
    assert(pos_gap(0) == 3961309095461524743049231);
    assert(pos_gap(1) == (if 79236085330515764027303304731int - 79232123823359799118286999567int < 3961309095461524743049231int {
        79236085330515764027303304731int - 79232123823359799118286999567int
    } else {
        3961309095461524743049231int
    }));
    assert(pos_gap(1) == 3961309095461524743049231);
    assert(pos_gap(2) == (if 79244008939048815603706035061int - 79240047035742135098198828266int < 3961309095461524743049231int {
        79244008939048815603706035061int - 79240047035742135098198828266int
    } else {
        3961309095461524743049231int
    }));
    assert(pos_gap(2) == 3961309095461524743049231);
    assert(pos_gap(3) == (if 79259858533276714757314932305int - 79255895837549753882639819013int < 3961309095461524743049231int {
        79259858533276714757314932305int - 79255895837549753882639819013int
    } else {
        3961309095461524743049231int
    }));
    assert(pos_gap(3) == 3961309095461524743049231);
    assert(pos_gap(4) == (if 79291567232598584799939703904int - 79287602951555555546117890668int < 3961309095461524743049231int {
        79291567232598584799939703904int - 79287602951555555546117890668int
    } else {
        3961309095461524743049231int
    }));
    assert(pos_gap(4) == 3961309095461524743049231);
    assert(pos_gap(5) == (if 79355022692464371645785046466int - 79351055238886287249021387662int < 3961309095461524743049231int {
        79355022692464371645785046466int - 79351055238886287249021387662int
    } else {
        3961309095461524743049231int
    }));
    assert(pos_gap(5) == 3961309095461524743049231);
    assert(pos_gap(6) == (if 79482085999252804386437311141int - 79478112192985828264683945743int < 3961309095461524743049231int {
        79482085999252804386437311141int - 79478112192985828264683945743int
    } else {
        3961309095461524743049231int
    }));
    assert(pos_gap(6) == 3961309095461524743049231);
    assert(pos_gap(7) == (if 79736823300114093921829183326int - 79732836757937260015387211174int < 3961309095461524743049231int {
        79736823300114093921829183326int - 79732836757937260015387211174int
    } else {
        3961309095461524743049231int
    }));
    assert(pos_gap(7) == 3961309095461524743049231);
    assert(pos_gap(8) == (if 80248749790819932309965073892int - 80244737654238127488718973602int < 3961309095461524743049231int {
        80248749790819932309965073892int - 80244737654238127488718973602int
    } else {
        3961309095461524743049231int
    }));
    assert(pos_gap(8) == 3961309095461524743049231);
    assert(pos_gap(9) == (if 81282483887344747381513967011int - 81278420067934296167840804769int < 3961309095461524743049231int {
        81282483887344747381513967011int - 81278420067934296167840804769int
    } else {
        3961309095461524743049231int
    }));
    assert(pos_gap(9) == 3961309095461524743049231);
    assert(pos_gap(10) == (if 83390072131320151908154831281int - 83385902940400299275461041535int < 3961309095461524743049231int {
        83390072131320151908154831281int - 83385902940400299275461041535int
    } else {
        3961309095461524743049231int
    }));
    assert(pos_gap(10) == 3961309095461524743049231);
    assert(pos_gap(11) == (if 87770609709833776024991924138int - 87766221508460644832294642638int < 3961309095461524743049231int {
        87770609709833776024991924138int - 87766221508460644832294642638int
    } else {
        3961309095461524743049231int
    }));
    assert(pos_gap(11) == 3961309095461524743049231);
    assert(pos_gap(12) == (if 97234110755111693312479820773int - 97229249414171470058378025113int < 3961309095461524743049231int {
        97234110755111693312479820773int - 97229249414171470058378025113int
    } else {
        3961309095461524743049231int
    }));
    assert(pos_gap(12) == 3961309095461524743049231);
    assert(pos_gap(13) == (if 119332217159966728226237229890int - 119326250996567256184535330018int < 3961309095461524743049231int {
        119332217159966728226237229890int - 119326250996567256184535330018int
    } else {
        3961309095461524743049231int
    }));
    assert(pos_gap(13) == 3961309095461524743049231);
    assert(pos_gap(14) == (if 179736315981702064433883588727int - 179727329839858001577522965083int < 3961309095461524743049231int {
        179736315981702064433883588727int - 179727329839858001577522965083int
    } else {
        3961309095461524743049231int
    }));
    assert(pos_gap(14) == 3961309095461524743049231);
    assert(pos_gap(15) == (if 407748233172238350107850275304int - 407727847289508202411734771016int < 3961309095461524743049231int {
        407748233172238350107850275304int - 407727847289508202411734771016int
    } else {
        3961309095461524743049231int
    }));
    assert(pos_gap(15) == 3961309095461524743049231);
    assert(pos_gap(16) == (if 2098478828474011932436660412517int - 2098373912401228121358801911315int < 3961309095461524743049231int {
        2098478828474011932436660412517int - 2098373912401228121358801911315int
    } else {
        3961309095461524743049231int
    }));
    assert(pos_gap(16) == 3961309095461524743049231);
    assert(pos_gap(17) == (if 55581415166113811149459800483533int - 55578636303768444659257259827406int < 3961309095461524743049231int {
        55581415166113811149459800483533int - 55578636303768444659257259827406int
    } else {
        3961309095461524743049231int
    }));
    assert(pos_gap(17) == 3961309095461524743049231);
    assert(pos_gap(18) == (if 38992368544603139932233054999993551int - 38990419072385107768429658011568861int < 3961309095461524743049231int {
        38992368544603139932233054999993551int - 38990419072385107768429658011568861int
    } else {
        3961309095461524743049231int
    }));
    assert(pos_gap(18) == 3961309095461524743049231);
    assert forall|k: nat| k <= 18 implies #[trigger] pos_gap(k) >= 4294967296 by {
        if k == 0 {
        } else if k == 1 {
        } else if k == 2 {
        } else if k == 3 {
        } else if k == 4 {
        } else if k == 5 {
        } else if k == 6 {
        } else if k == 7 {
        } else if k == 8 {
        } else if k == 9 {
        } else if k == 10 {
        } else if k == 11 {
        } else if k == 12 {
        } else if k == 13 {
        } else if k == 14 {
        } else if k == 15 {
        } else if k == 16 {
        } else if k == 17 {
        } else {
        }
    }
}

proof fn lemma_pos_ratio_low_bits(t1: u32, t2: u32, k: nat)
    requires
        forall|i: nat| i <= k ==> #[trigger] tick_bit(t1, i) == tick_bit(t2, i),
    ensures
        pos_ratio_upto(t1, k) == pos_ratio_upto(t2, k),
    decreases k,
{
    assert(tick_bit(t1, 0) == tick_bit(t2, 0));
    assert(tick_bit(t1, k) == tick_bit(t2, k));
    if k > 0 {
        lemma_pos_ratio_low_bits(t1, t2, (k - 1) as nat);
    }
}

proof fn lemma_pos_ones(k: nat)
    requires
        1 <= k <= 18,
    ensures
        pos_ratio_upto(((1u32 << (k as u32)) - 1) as u32, (k - 1) as nat) == pos_bound((k - 1) as nat),
    decreases k,
{
    let ku = k as u32;
    let m = ((1u32 << ku) - 1) as u32;
    if k == 1 {
        assert(((1u32 << 1u32) - 1) as u32 == 1) by (bit_vector);
        assert((1u32 >> 0u32) & 1 == 1) by (bit_vector);
        assert(tick_bit(1, 0));
    } else {
        let m1 = ((1u32 << ((k - 1) as u32)) - 1) as u32;
        lemma_pos_ones((k - 1) as nat);
        assert forall|i: nat| i <= (k - 2) as nat implies #[trigger] tick_bit(m, i) == tick_bit(m1, i) by {
            lemma_ones_bits(ku, i as u32);
            lemma_ones_bits((k - 1) as u32, i as u32);
        }
        lemma_pos_ratio_low_bits(m, m1, (k - 2) as nat);
        lemma_ones_bits(ku, (k - 1) as u32);
        assert(tick_bit(m, (k - 1) as nat));
    }
}

proof fn lemma_pos_ratio_increasing(t1: u32, t2: u32, k: nat)
    requires
        k <= 18,
        t1 < t2,
        t2 < (1u32 << ((k + 1) as u32)),
    ensures
        pos_ratio_upto(t2, k) >= pos_ratio_upto(t1, k) + pos_gap(k),
    decreases k,
{
    lemma_two_pow_values();
    lemma_pos_table();
    if k == 0 {
        assert(1u32 << 1u32 == 2) by (bit_vector);
        assert((0u32 >> 0u32) & 1 == 0) by (bit_vector);
        assert((1u32 >> 0u32) & 1 == 1) by (bit_vector);
        assert(t1 == 0 && t2 == 1);
        assert(!tick_bit(t1, 0) && tick_bit(t2, 0));
    } else {
        let ku = k as u32;
        let half = 1u32 << ku;
        let p = two_pow(96);
        let f = pos_factor(k);
        assert(f > p);
        let g = pos_gap((k - 1) as nat);
        assert(g >= 4294967296);
        let lo1 = if t1 >= half { (t1 - half) as u32 } else { t1 };
        let lo2 = if t2 >= half { (t2 - half) as u32 } else { t2 };
        lemma_split_bit(t1, ku, 0);
        lemma_split_bit(t2, ku, 0);
        assert(tick_bit(t1, k) == (t1 >= half));
        assert(tick_bit(t2, k) == (t2 >= half));
        assert forall|i: nat| i <= (k - 1) as nat implies #[trigger] tick_bit(lo1, i) == tick_bit(t1, i) by {
            lemma_split_bit(t1, ku, i as u32);
        }
        assert forall|i: nat| i <= (k - 1) as nat implies #[trigger] tick_bit(lo2, i) == tick_bit(t2, i) by {
            lemma_split_bit(t2, ku, i as u32);
        }
        lemma_pos_ratio_low_bits(lo1, t1, (k - 1) as nat);
        lemma_pos_ratio_low_bits(lo2, t2, (k - 1) as nat);
        let n1 = pos_ratio_upto(t1, (k - 1) as nat);
        let n2 = pos_ratio_upto(t2, (k - 1) as nat);
        lemma_pos_ratio_at_least_one(t1, (k - 1) as nat);
        lemma_pos_ratio_at_least_one(t2, (k - 1) as nat);
        if (t1 >= half) == (t2 >= half) {
            assert(lo1 < lo2);
            assert(lo2 < (1u32 << (((k - 1) as nat + 1) as u32)));
            lemma_pos_ratio_increasing(lo1, lo2, (k - 1) as nat);
            if t1 >= half {
                lemma_floor_gap(n2 as int, n1 as int, g, f as int, p as int);
                assert(g * f / (p as int) >= g) by (nonlinear_arith)
                    requires
                        g >= 0,
                        f > p > 0,
                {
                    assert(g * f >= g * p);
                }
                assert(pos_gap(k) <= g);
            } else {
                assert(pos_gap(k) <= g);
            }
        } else {
            assert(t1 < half && t2 >= half);
            let ones = ((1u32 << ku) - 1) as u32;
            lemma_pos_ones(k);
            lemma_ones_bits(ku, 0);
            if t1 < ones {
                assert(ones < (1u32 << (((k - 1) as nat + 1) as u32)));
                lemma_pos_ratio_increasing(t1, ones, (k - 1) as nat);
            }
            assert(n1 <= pos_bound((k - 1) as nat));
            assert(n2 * f / p >= f) by (nonlinear_arith)
                requires
                    n2 >= p,
                    p > 0,
                    f >= 0,
            {
                assert(n2 * f >= p * f);
            }
            assert(pos_gap(k) <= f - pos_bound((k - 1) as nat));
        }
    }
}

/// The square-root price strictly increases with the tick over the whole
/// tick range.
pub proof fn law_sqrt_ratio_strictly_increasing(t1: i32, t2: i32)
    requires
        MIN_TICK_INDEX <= t1 < t2 <= MAX_TICK_INDEX,
    ensures
        sqrt_ratio_at_tick(t1) < sqrt_ratio_at_tick(t2),
{
    lemma_two_pow_values();
    if t2 <= 0 {
        law_sqrt_ratio_increases_on_negative_ticks(t1, t2);
    } else if t1 < 0 {
        law_sqrt_ratio_at_least_one_iff_nonnegative(t1);
        law_sqrt_ratio_at_least_one_iff_nonnegative(t2);
    } else {
        let u1 = t1 as u32;
        let u2 = t2 as u32;
        assert(1u32 << 19u32 == 524288) by (bit_vector);
        assert(u2 < (1u32 << ((18nat + 1) as u32)));
        lemma_pos_ratio_increasing(u1, u2, 18);
        lemma_pos_table();
        let a = pos_ratio_upto(u1, 18);
        let b = pos_ratio_upto(u2, 18);
        let g = pos_gap(18);
        lemma_floor_gap(b as int, a as int, g, 1, two_pow(32) as int);
        assert(g / (two_pow(32) as int) >= 1);
    }
}


/// The factors of bit 0 are sqrt(1.0001) as Q32.96 and 1 / sqrt(1.0001) as
/// Q64.64, each rounded down.
pub proof fn law_first_price_factors_are_sqrt_10001()
    ensures
        10000 * pos_factor(0) * pos_factor(0) <= 10001 * pow64() * pow128() < 10000 * (pos_factor(0)
            + 1) * (pos_factor(0) + 1),
        10001 * neg_factor(0) * neg_factor(0) <= 10000 * pow128() < 10001 * (neg_factor(0) + 1) * (
        neg_factor(0) + 1),
{
    let p: int = 79232123823359799118286999567;
    let n: int = 18445821805675392311;
    assert(pos_factor(0) == p && neg_factor(0) == n);
    assert(10000 * p * p <= 10001 * pow64() * pow128() < 10000 * (p + 1) * (p + 1));
    assert(10001 * n * n <= 10000 * pow128() < 10001 * (n + 1) * (n + 1));
}

/// The two clauses of `law_price_factors_square_up` for bit `k`.
spec fn factors_square_up(k: nat) -> bool {
    &&& -2 * pos_factor(k) <= pos_factor(k) * two_pow(96) - pos_factor((k - 1) as nat) * pos_factor(
        (k - 1) as nat,
    ) <= 2 * pos_factor(k)
    &&& -2 * pow64() <= neg_factor(k) * pow64() - neg_factor((k - 1) as nat) * neg_factor(
        (k - 1) as nat,
    ) <= 2 * pow64()
}

proof fn lemma_square_up_step(k: nat, p: int, q: int, n: int, m: int)
    requires
        1 <= k,
        pos_factor(k) == p,
        pos_factor((k - 1) as nat) == q,
        neg_factor(k) == n,
        neg_factor((k - 1) as nat) == m,
        -2 * p <= p * 79228162514264337593543950336 - q * q <= 2 * p,
        -2 * pow64() <= n * pow64() - m * m <= 2 * pow64(),
    ensures
        factors_square_up(k),
{
    lemma_two_pow_values();
}

/// Each factor of the price ladders is the square of the factor of the bit
/// below, to within two units in its last place: the factor of bit `k` is
/// sqrt(1.0001)^(2^k) (or its inverse), as the factor of bit 0 is sqrt(1.0001).
pub proof fn law_price_factors_square_up(k: nat)
    requires
        1 <= k <= 18,
    ensures
        -2 * pos_factor(k) <= pos_factor(k) * two_pow(96) - pos_factor((k - 1) as nat)
            * pos_factor((k - 1) as nat) <= 2 * pos_factor(k),
        -2 * pow64() <= neg_factor(k) * pow64() - neg_factor((k - 1) as nat) * neg_factor(
            (k - 1) as nat,
        ) <= 2 * pow64(),
{
    // one bit at a time: each case is arithmetic on the table's constants
    if k == 1 {
        lemma_square_up_step(
            1,
            79236085330515764027303304731,
            79232123823359799118286999567,
            18444899583751176498,
            18445821805675392311,
        );
    } else if k == 2 {
        lemma_square_up_step(
            2,
            79244008939048815603706035061,
            79236085330515764027303304731,
            18443055278223354162,
            18444899583751176498,
        );
    } else if k == 3 {
        lemma_square_up_step(
            3,
            79259858533276714757314932305,
            79244008939048815603706035061,
            18439367220385604838,
            18443055278223354162,
        );
    } else if k == 4 {
        lemma_square_up_step(
            4,
            79291567232598584799939703904,
            79259858533276714757314932305,
            18431993317065449817,
            18439367220385604838,
        );
    } else if k == 5 {
        lemma_square_up_step(
            5,
            79355022692464371645785046466,
            79291567232598584799939703904,
            18417254355718160513,
            18431993317065449817,
        );
    } else if k == 6 {
        lemma_square_up_step(
            6,
            79482085999252804386437311141,
            79355022692464371645785046466,
            18387811781193591352,
            18417254355718160513,
        );
    } else if k == 7 {
        lemma_square_up_step(
            7,
            79736823300114093921829183326,
            79482085999252804386437311141,
            18329067761203520168,
            18387811781193591352,
        );
    } else if k == 8 {
        lemma_square_up_step(
            8,
            80248749790819932309965073892,
            79736823300114093921829183326,
            18212142134806087854,
            18329067761203520168,
        );
    } else if k == 9 {
        lemma_square_up_step(
            9,
            81282483887344747381513967011,
            80248749790819932309965073892,
            17980523815641551639,
            18212142134806087854,
        );
    } else if k == 10 {
        lemma_square_up_step(
            10,
            83390072131320151908154831281,
            81282483887344747381513967011,
            17526086738831147013,
            17980523815641551639,
        );
    } else if k == 11 {
        lemma_square_up_step(
            11,
            87770609709833776024991924138,
            83390072131320151908154831281,
            16651378430235024244,
            17526086738831147013,
        );
    } else if k == 12 {
        lemma_square_up_step(
            12,
            97234110755111693312479820773,
            87770609709833776024991924138,
            15030750278693429944,
            16651378430235024244,
        );
    } else if k == 13 {
        lemma_square_up_step(
            13,
            119332217159966728226237229890,
            97234110755111693312479820773,
            12247334978882834399,
            15030750278693429944,
        );
    } else if k == 14 {
        lemma_square_up_step(
            14,
            179736315981702064433883588727,
            119332217159966728226237229890,
            8131365268884726200,
            12247334978882834399,
        );
    } else if k == 15 {
        lemma_square_up_step(
            15,
            407748233172238350107850275304,
            179736315981702064433883588727,
            3584323654723342297,
            8131365268884726200,
        );
    } else if k == 16 {
        lemma_square_up_step(
            16,
            2098478828474011932436660412517,
            407748233172238350107850275304,
            696457651847595233,
            3584323654723342297,
        );
    } else if k == 17 {
        lemma_square_up_step(
            17,
            55581415166113811149459800483533,
            2098478828474011932436660412517,
            26294789957452057,
            696457651847595233,
        );
    } else if k == 18 {
        lemma_square_up_step(
            18,
            38992368544603139932233054999993551,
            55581415166113811149459800483533,
            37481735321082,
            26294789957452057,
        );
    }
}

proof fn lemma_reciprocal_step(k: nat, p: int, n: int)
    requires
        pos_factor(k) == p,
        neg_factor(k) == n,
        p * n <= 1461501637330902918203684832716283019655932542976 < p * n + p + n + 2,
    ensures
        pos_factor(k) * neg_factor(k) <= two_pow(96) * two_pow(64) < pos_factor(k) * neg_factor(k)
            + pos_factor(k) + neg_factor(k) + 2,
{
    lemma_two_pow_values();
    assert(two_pow(96) * two_pow(64) == 1461501637330902918203684832716283019655932542976);
}

/// The factors of a bit in the two ladders are reciprocal: their product is
/// 2^160 rounded down by less than the sum of the two factors and two.
pub proof fn law_price_factors_reciprocal(k: nat)
    requires
        k <= 18,
    ensures
        pos_factor(k) * neg_factor(k) <= two_pow(96) * two_pow(64) < pos_factor(k) * neg_factor(k)
            + pos_factor(k) + neg_factor(k) + 2,
{
    if k == 0 {
        lemma_reciprocal_step(0, 79232123823359799118286999567, 18445821805675392311);
    } else if k == 1 {
        lemma_reciprocal_step(1, 79236085330515764027303304731, 18444899583751176498);
    } else if k == 2 {
        lemma_reciprocal_step(2, 79244008939048815603706035061, 18443055278223354162);
    } else if k == 3 {
        lemma_reciprocal_step(3, 79259858533276714757314932305, 18439367220385604838);
    } else if k == 4 {
        lemma_reciprocal_step(4, 79291567232598584799939703904, 18431993317065449817);
    } else if k == 5 {
        lemma_reciprocal_step(5, 79355022692464371645785046466, 18417254355718160513);
    } else if k == 6 {
        lemma_reciprocal_step(6, 79482085999252804386437311141, 18387811781193591352);
    } else if k == 7 {
        lemma_reciprocal_step(7, 79736823300114093921829183326, 18329067761203520168);
    } else if k == 8 {
        lemma_reciprocal_step(8, 80248749790819932309965073892, 18212142134806087854);
    } else if k == 9 {
        lemma_reciprocal_step(9, 81282483887344747381513967011, 17980523815641551639);
    } else if k == 10 {
        lemma_reciprocal_step(10, 83390072131320151908154831281, 17526086738831147013);
    } else if k == 11 {
        lemma_reciprocal_step(11, 87770609709833776024991924138, 16651378430235024244);
    } else if k == 12 {
        lemma_reciprocal_step(12, 97234110755111693312479820773, 15030750278693429944);
    } else if k == 13 {
        lemma_reciprocal_step(13, 119332217159966728226237229890, 12247334978882834399);
    } else if k == 14 {
        lemma_reciprocal_step(14, 179736315981702064433883588727, 8131365268884726200);
    } else if k == 15 {
        lemma_reciprocal_step(15, 407748233172238350107850275304, 3584323654723342297);
    } else if k == 16 {
        lemma_reciprocal_step(16, 2098478828474011932436660412517, 696457651847595233);
    } else if k == 17 {
        lemma_reciprocal_step(17, 55581415166113811149459800483533, 26294789957452057);
    } else if k == 18 {
        lemma_reciprocal_step(18, 38992368544603139932233054999993551, 37481735321082);
    }
}

/// 2^160, the product of the Q32.96 and Q64.64 scales.
spec fn pow160() -> int {
    1461501637330902918203684832716283019655932542976int
}

/// What one step of the two ladders can lose of their product (2^135).
spec fn step_loss() -> int {
    43556142965880123323311949751266331066368int
}

/// Every Q32.96 ratio of the ladder stays below the bound of its last bit.
proof fn lemma_pos_ratio_bounded(t: u32, k: nat)
    requires
        k <= 18,
    ensures
        pos_ratio_upto(t, k) <= pos_bound(k),
        pos_bound(k) <= 19189247130466284822469633860112541934403int,
    decreases k,
{
    lemma_pos_bound_values();
    if k > 0 {
        lemma_pos_ratio_bounded(t, (k - 1) as nat);
        lemma_pos_bound_monotone(k);
        if tick_bit(t, k) {
            let r = pos_ratio_upto(t, (k - 1) as nat);
            assert(r * pos_factor(k) <= pos_bound((k - 1) as nat) * pos_factor(k)) by (
            nonlinear_arith)
                requires
                    r <= pos_bound((k - 1) as nat),
            ;
            lemma_two_pow_pos(96);
            lemma_div_monotone(
                (r * pos_factor(k)) as int,
                (pos_bound((k - 1) as nat) * pos_factor(k)) as int,
                two_pow(96) as int,
            );
        }
    }
}

/// One step of both ladders: the product of the two ratios stays at most
/// 2^160 and loses at most `step_loss()` more.
proof fn lemma_product_step(a: int, b: int, p: int, n: int, d: int)
    requires
        a >= 0,
        b >= 0,
        p >= 0,
        n >= 0,
        0 <= d <= pow160(),
        a * b <= pow160(),
        a * b + d >= pow160(),
        p * n <= pow160() < p * n + p + n + 2,
        p + n + 2 <= 166153499473114484112975882535043072,
        a * p / 79228162514264337593543950336 <= 19189247130466284822469633860112541934403int,
        b * n / 18446744073709551616 <= 18446744073709551616,
    ensures
        (a * p / 79228162514264337593543950336) * (b * n / 18446744073709551616) <= pow160(),
        (a * p / 79228162514264337593543950336) * (b * n / 18446744073709551616) + d + step_loss()
            >= pow160(),
{
    let s96: int = 79228162514264337593543950336;
    let s64: int = 18446744073709551616;
    let a1 = a * p / s96;
    let b1 = b * n / s64;
    let big = pow160();
    assert(a1 * s96 <= a * p < (a1 + 1) * s96);
    assert(b1 * s64 <= b * n < (b1 + 1) * s64);
    assert(a1 >= 0 && b1 >= 0);
    assert((a * p) * (b * n) == (a * b) * (p * n)) by (nonlinear_arith);
    assert((a1 * s96) * (b1 * s64) <= (a * p) * (b * n)) by (nonlinear_arith)
        requires
            0 <= a1 * s96 <= a * p,
            0 <= b1 * s64 <= b * n,
    ;
    assert((a * b) * (p * n) <= big * big) by (nonlinear_arith)
        requires
            0 <= a * b <= big,
            0 <= p * n <= big,
    ;
    assert(s96 * s64 == big);
    assert(a1 * b1 <= big) by (nonlinear_arith)
        requires
            (a1 * s96) * (b1 * s64) <= big * big,
            s96 * s64 == big,
            big > 0,
    ;
    assert((a * b) * (p * n) >= (big - d) * (big - (p + n + 2))) by (nonlinear_arith)
        requires
            a * b >= big - d >= 0,
            p * n >= big - (p + n + 2),
            big - (p + n + 2) >= 0,
    ;
    assert(((a1 + 1) * s96) * ((b1 + 1) * s64) > (a * p) * (b * n)) by (nonlinear_arith)
        requires
            0 <= a * p < (a1 + 1) * s96,
            0 <= b * n < (b1 + 1) * s64,
    ;
    assert((a1 + 1) * (b1 + 1) + d + (p + n + 2) > big) by (nonlinear_arith)
        requires
            ((a1 + 1) * s96) * ((b1 + 1) * s64) > (big - d) * (big - (p + n + 2)),
            s96 * s64 == big,
            big > 0,
            d >= 0,
            p + n + 2 >= 0,
    ;
    assert((a1 + 1) * (b1 + 1) == a1 * b1 + a1 + b1 + 1) by (nonlinear_arith);
}

/// The two ladders run on the same bit pattern: after bit `k`, the product of
/// the Q32.96 and Q64.64 ratios is at most 2^160, and less only by what
/// `k + 1` steps of rounding down can lose.
proof fn lemma_ratio_products(t: u32, k: nat)
    requires
        k <= 18,
    ensures
        pos_ratio_upto(t, k) * neg_ratio_upto(t, k) <= pow160(),
        pos_ratio_upto(t, k) * neg_ratio_upto(t, k) + (k + 1) * step_loss() >= pow160(),
    decreases k,
{
    lemma_two_pow_values();
    if k == 0 {
        law_price_factors_reciprocal(0);
    } else {
        lemma_ratio_products(t, (k - 1) as nat);
        let a = pos_ratio_upto(t, (k - 1) as nat);
        let b = neg_ratio_upto(t, (k - 1) as nat);
        assert(k * step_loss() <= 19 * step_loss()) by (nonlinear_arith)
            requires
                k <= 18,
        ;
        if tick_bit(t, k) {
            law_price_factors_reciprocal(k);
            lemma_pos_ratio_bounded(t, k);
            lemma_neg_ratio_below_one(t, k);
            assert(pos_factor(k) <= 38992368544603139932233054999993551);
            assert(neg_factor(k) <= 18446744073709551616);
            lemma_product_step(a as int, b as int, pos_factor(k) as int, neg_factor(k) as int, k * step_loss());
        }
        assert((k + 1) * step_loss() == k * step_loss() + step_loss()) by (nonlinear_arith);
    }
}

/// The square-root prices of opposite ticks are reciprocal: as Q64.64 values
/// their product is 2^128, rounded down by less than one part in a million.
pub proof fn law_sqrt_ratios_of_opposite_ticks_are_reciprocal(t: i32)
    requires
        0 <= t <= MAX_TICK_INDEX,
    ensures
        sqrt_ratio_at_tick(t) * sqrt_ratio_at_tick((-t) as i32) <= pow128(),
        pow128() - pow128() / 1000000 <= sqrt_ratio_at_tick(t) * sqrt_ratio_at_tick((-t) as i32),
{
    lemma_two_pow_values();
    if t == 0 {
        lemma_pos_ratio_of_zero(18);
        assert(sqrt_ratio_at_tick(t) == pow64());
    } else {
        let u = t as u32;
        assert(((-((-t) as i32) as int) as u32) == u);
        lemma_ratio_products(u, 18);
        let a = pos_ratio_upto(u, 18) as int;
        let b = neg_ratio_upto(u, 18) as int;
        lemma_neg_ratio_below_one(u, 18);
        let p = a / 4294967296;
        assert(sqrt_ratio_at_tick(t) == p);
        assert(sqrt_ratio_at_tick((-t) as i32) == b);
        assert(p * 4294967296 <= a < (p + 1) * 4294967296);
        assert(p * b * 4294967296 <= a * b) by (nonlinear_arith)
            requires
                p * 4294967296 <= a,
                b >= 0,
        ;
        assert((p + 1) * b * 4294967296 >= a * b) by (nonlinear_arith)
            requires
                a < (p + 1) * 4294967296,
                b >= 0,
        ;
        assert(p * b <= pow128()) by (nonlinear_arith)
            requires
                p * b * 4294967296 <= a * b <= pow160(),
                pow160() == pow128() * 4294967296,
        ;
        assert(p * b + b >= pow128() - 19 * step_loss() / 4294967296) by (nonlinear_arith)
            requires
                (p + 1) * b * 4294967296 >= a * b,
                a * b + 19 * step_loss() >= pow160(),
                pow160() == pow128() * 4294967296,
        ;
    }
}
} // verus!
