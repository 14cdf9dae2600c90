use sure_protocol::errors::SureError;
use sure_protocol::tick_math::{
    calculate_premium, calculate_premium_at, calculate_premium_diff_at, calculate_yearly_premium,
    get_sqrt_ratio_at_tick, get_tick_at_sqrt_ratio, premium_difference, time_fraction,
    MAX_SQRT_RATIO, MAX_TICK_INDEX, MIN_SQRT_RATIO, MIN_TICK_INDEX,
};

#[test]
fn sqrt_ratio_at_the_ends_of_the_range() {
    assert_eq!(get_sqrt_ratio_at_tick(0), Ok(1u128 << 64));
    assert_eq!(get_sqrt_ratio_at_tick(MIN_TICK_INDEX), Ok(MIN_SQRT_RATIO));
    assert_eq!(get_sqrt_ratio_at_tick(MAX_TICK_INDEX), Ok(MAX_SQRT_RATIO));
}

#[test]
fn sqrt_ratio_rises_with_the_tick() {
    let mut last = get_sqrt_ratio_at_tick(-1000).unwrap();
    for tick in [-999, -1, 0, 1, 2, 1000, 20_000] {
        let next = get_sqrt_ratio_at_tick(tick).unwrap();
        assert!(next > last);
        last = next;
    }
}

#[test]
fn sqrt_ratio_around_tick_2048() {
    // sqrt(1.0001)^2048 * 2^96 >> 32
    assert_eq!(get_sqrt_ratio_at_tick(2048), Ok(87770609709833776024991924138 >> 32));
    assert!(get_sqrt_ratio_at_tick(2047).unwrap() < get_sqrt_ratio_at_tick(2048).unwrap());
    for tick in 2040..2110 {
        let ratio = get_sqrt_ratio_at_tick(tick).unwrap();
        assert_eq!(get_tick_at_sqrt_ratio(ratio), Ok(tick));
    }
}

#[test]
fn tick_round_trip_across_the_range() {
    let mut tick = MIN_TICK_INDEX;
    while tick <= MAX_TICK_INDEX {
        let ratio = get_sqrt_ratio_at_tick(tick).unwrap();
        assert_eq!(get_tick_at_sqrt_ratio(ratio), Ok(tick));
        tick += 997;
    }
}

fn round_trip_every_tick(from: i32, to: i32) {
    for tick in from..to {
        let ratio = get_sqrt_ratio_at_tick(tick).unwrap();
        assert_eq!(get_tick_at_sqrt_ratio(ratio), Ok(tick));
    }
}

#[test]
fn tick_round_trip_lowest_quarter() {
    round_trip_every_tick(MIN_TICK_INDEX, -221_818);
}

#[test]
fn tick_round_trip_low_quarter() {
    round_trip_every_tick(-221_818, 0);
}

#[test]
fn tick_round_trip_high_quarter() {
    round_trip_every_tick(0, 221_818);
}

#[test]
fn tick_round_trip_highest_quarter() {
    round_trip_every_tick(221_818, MAX_TICK_INDEX + 1);
}

#[test]
fn opposite_ticks_have_reciprocal_prices() {
    for tick in [0, 1, 7, 2048, 2049, 100_000, 262_143, MAX_TICK_INDEX] {
        let up = get_sqrt_ratio_at_tick(tick).unwrap() as f64;
        let down = get_sqrt_ratio_at_tick(-tick).unwrap() as f64;
        let product = up * down / 2f64.powi(128);
        assert!(product <= 1.0 + 1e-12, "tick {}: {}", tick, product);
        assert!(product >= 1.0 - 1e-6, "tick {}: {}", tick, product);
    }
}

#[test]
fn tick_at_sqrt_ratio_inverts_the_ratio() {
    assert_eq!(get_tick_at_sqrt_ratio(1u128 << 64), Ok(0));
    assert_eq!(get_tick_at_sqrt_ratio(MIN_SQRT_RATIO), Ok(MIN_TICK_INDEX));
    for tick in [-50_000, -7, -1, 1, 7, 50_000] {
        let ratio = get_sqrt_ratio_at_tick(tick).unwrap();
        assert_eq!(get_tick_at_sqrt_ratio(ratio), Ok(tick));
    }
    assert_eq!(
        get_tick_at_sqrt_ratio(MIN_SQRT_RATIO - 1),
        Err(SureError::SqrtRatioNotWithinRange)
    );
    assert_eq!(get_tick_at_sqrt_ratio(MAX_SQRT_RATIO), Ok(MAX_TICK_INDEX));
    assert_eq!(
        get_tick_at_sqrt_ratio(MAX_SQRT_RATIO + 1),
        Err(SureError::SqrtRatioNotWithinRange)
    );
}

#[test]
fn premiums() {
    // 70 * (4295048016 / 100)^2 >> 32
    assert_eq!(calculate_yearly_premium(MIN_SQRT_RATIO, 70), Ok(30065900));
    assert_eq!(
        calculate_yearly_premium(u128::MAX, 2),
        Err(SureError::MultiplictationQ3232Overflow)
    );
    // a year of a premium of 100 is 100; half a year is exact, one second less rounds down
    assert_eq!(time_fraction(100, 0, 31_556_926), Ok(100));
    assert_eq!(time_fraction(1_000_000, 0, 15_778_463), Ok(500_000));
    assert_eq!(time_fraction(1_000_000, 0, 15_778_462), Ok(499_999));
    assert_eq!(time_fraction(1_000_000, 0, 1), Ok(0));
    assert_eq!(
        time_fraction(u128::MAX, 0, 31_556_927),
        Err(SureError::MultiplictationQ3232Overflow)
    );
    assert_eq!(time_fraction(1_000_000, 10, 10), Err(SureError::InvalidTimestamp));
    // a year of the yearly premium
    assert_eq!(calculate_premium_at(MIN_SQRT_RATIO, 70, 1_000 + 31_556_926, 1_000), Ok(30065900));
    assert_eq!(
        calculate_premium_at(MIN_SQRT_RATIO, 70, 1_000, 1_000),
        Err(SureError::InvalidTimestamp)
    );
    // off chain there is no clock to price from
    assert_eq!(calculate_premium(MIN_SQRT_RATIO, 70, 1_001), Err(SureError::ClockUnavailable));
}

#[test]
fn premium_differences() {
    assert_eq!(premium_difference(10, 25), (true, 15));
    assert_eq!(premium_difference(25, 10), (false, 15));
    assert_eq!(premium_difference(5, 5), (false, 0));
    assert_eq!(
        calculate_premium_diff_at(30065905, MIN_SQRT_RATIO, 70, 1_000 + 31_556_926, 1_000),
        Ok((false, 5))
    );
}

#[test]
fn tick_of_prices_between_ticks() {
    for tick in [MIN_TICK_INDEX, -2049, -1, 0, 1, 2047, 2048, 300_000, MAX_TICK_INDEX - 1] {
        let price = get_sqrt_ratio_at_tick(tick).unwrap();
        let next = get_sqrt_ratio_at_tick(tick + 1).unwrap();
        assert!(price < next);
        // every price from a tick's own up to just below the next tick's
        // belongs to the tick
        assert_eq!(get_tick_at_sqrt_ratio(price + 1), Ok(tick));
        assert_eq!(get_tick_at_sqrt_ratio((price + next) / 2), Ok(tick));
        assert_eq!(get_tick_at_sqrt_ratio(next - 1), Ok(tick));
    }
    assert_eq!(get_sqrt_ratio_at_tick(MIN_TICK_INDEX), Ok(MIN_SQRT_RATIO));
    assert_eq!(get_sqrt_ratio_at_tick(MAX_TICK_INDEX), Ok(MAX_SQRT_RATIO));
}
