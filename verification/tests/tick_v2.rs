use anchor_lang::prelude::Pubkey;
use sure_protocol::errors::SureError;
use sure_protocol::product::ProductType;
use sure_protocol::tick_math::MIN_TICK_INDEX;
use sure_protocol::tick_v2::{
    add_liquidity_delta, calculate_sub_fee, get_tick_location, Tick, TickArray, TickArrayPool,
    TickUpdate,
};

fn tick(liquidity_gross: u128, liquidity_net: i128) -> Tick {
    Tick {
        liquidity_net,
        liquidity_gross,
        liquidity_locked: 0,
        fee_growth_outside_0_x64: 0,
        fee_growth_outside_1_x64: 0,
    }
}

#[test]
pub fn test_is_valid_tick() {
    let configs = [(40, 20, true), (30, 20, false)];
    for (tick, tick_spacing, expected) in configs {
        assert_eq!(Tick::is_valid_tick(tick, tick_spacing), expected);
    }
}

#[test]
pub fn test_is_initilized() {
    let tick = tick(10, 0);
    assert_eq!(tick.is_initialized(), true);
}

#[test]
pub fn test_calculate_next_liquidity_update() {
    struct Test<'a> {
        test_name: &'a str,
        tick: Tick,
        tick_index: i32,
        current_tick: i32,
        fee_growth_global_0_x64: u128,
        fee_growth_global_1_x64: u128,
        liquidity_delta: i128,
        product_type: ProductType,
        is_upper_tick: bool,
        expected_tick_update: TickUpdate,
    }

    let test_data = [
        Test {
            test_name: "1. empty tick. Current tick below lower tick",
            tick: tick(0, 0),
            tick_index: 100,
            current_tick: 20,
            fee_growth_global_0_x64: 0,
            fee_growth_global_1_x64: 0,
            liquidity_delta: 24000,
            product_type: ProductType::Coverage,
            is_upper_tick: false,
            expected_tick_update: TickUpdate {
                initialized: true,
                liquidity_net: 24000,
                liquidity_gross: 24000,
                liquidity_locked: 0,
                fee_growth_outside_0: 0,
                fee_growth_outside_1: 0,
            },
        },
        Test {
            test_name: "2. empty tick. Current tick above lower tick",
            tick: tick(0, 0),
            tick_index: 100,
            current_tick: 120,
            fee_growth_global_0_x64: 100,
            fee_growth_global_1_x64: 100,
            liquidity_delta: 24000,
            product_type: ProductType::Coverage,
            is_upper_tick: false,
            expected_tick_update: TickUpdate {
                initialized: true,
                liquidity_net: 24000,
                liquidity_gross: 24000,
                liquidity_locked: 0,
                fee_growth_outside_0: 100,
                fee_growth_outside_1: 100,
            },
        },
        Test {
            test_name: "3. lower tick, initialized tick. Current tick above lower tick",
            tick: tick(100, 100),
            tick_index: 100,
            current_tick: 20,
            fee_growth_global_0_x64: 100,
            fee_growth_global_1_x64: 100,
            liquidity_delta: 24000,
            product_type: ProductType::Coverage,
            is_upper_tick: false,
            expected_tick_update: TickUpdate {
                initialized: true,
                liquidity_net: 24100,
                liquidity_gross: 24100,
                liquidity_locked: 0,
                fee_growth_outside_0: 0,
                fee_growth_outside_1: 0,
            },
        },
        Test {
            test_name: "4. upper tick, initialized tick. Upper tick above current tick. Should subtract from net and add to gross",
            tick: tick(100000, 100000),
            tick_index: 100,
            current_tick: 20,
            fee_growth_global_0_x64: 100,
            fee_growth_global_1_x64: 100,
            liquidity_delta: 24000,
            product_type: ProductType::Coverage,
            is_upper_tick: true,
            expected_tick_update: TickUpdate {
                initialized: true,
                liquidity_net: 100000 - 24000,
                liquidity_gross: 100000 + 24000,
                liquidity_locked: 0,
                fee_growth_outside_0: 0,
                fee_growth_outside_1: 0,
            },
        },
        Test {
            test_name: "5. upper initialized tick. Upper tick above current tick. Reduce position, should subtract from gross and add to net",
            tick: tick(100000, -100000),
            tick_index: 100,
            current_tick: 20,
            fee_growth_global_0_x64: 100,
            fee_growth_global_1_x64: 100,
            liquidity_delta: -100000,
            product_type: ProductType::Coverage,
            is_upper_tick: true,
            expected_tick_update: TickUpdate {
                initialized: false,
                liquidity_net: 0,
                liquidity_gross: 0,
                liquidity_locked: 0,
                fee_growth_outside_0: 0,
                fee_growth_outside_1: 0,
            },
        },
    ];

    for test in test_data {
        let tick_update = test
            .tick
            .calculate_next_liquidity_update(
                test.tick_index,
                test.current_tick,
                test.fee_growth_global_0_x64,
                test.fee_growth_global_1_x64,
                test.liquidity_delta,
                &test.product_type,
                test.is_upper_tick,
            )
            .unwrap();
        assert_eq!(
            tick_update.initialized, test.expected_tick_update.initialized,
            "{}.initialized.failed",
            test.test_name
        );
        assert_eq!(
            tick_update.liquidity_net, test.expected_tick_update.liquidity_net,
            "{}.liquidity_net.failed",
            test.test_name
        );
        assert_eq!(
            tick_update.liquidity_gross, test.expected_tick_update.liquidity_gross,
            "{}.liquidity_gross.failed",
            test.test_name
        );
        assert_eq!(
            tick_update.liquidity_locked, test.expected_tick_update.liquidity_locked,
            "{}.liquidity_locked.failed",
            test.test_name
        );
        assert_eq!(
            tick_update.fee_growth_outside_0, test.expected_tick_update.fee_growth_outside_0,
            "{}.fee_growth_outside_0.failed",
            test.test_name
        );
        assert_eq!(
            tick_update.fee_growth_outside_1, test.expected_tick_update.fee_growth_outside_1,
            "{}.fee_growth_outside_1.failed",
            test.test_name
        );
    }
}

#[test]
pub fn test_calculate_coverage_delta() {
    // Off chain the runtime clock cannot be read, so the premiums cannot be
    // priced.
    let t = tick(1_000, 1_000);
    assert_eq!(
        t.calculate_coverage_delta(120, 120, 100, 20, 10, 0, 1_000, true),
        Err(SureError::ClockUnavailable)
    );
}

#[test]
fn coverage_delta_with_a_clock_reading() {
    let t = tick(1_000, 1_000);
    // expiry before the current time: the premium cannot be priced
    assert_eq!(
        t.calculate_coverage_delta_at(0, 0, 100, 20, 10, 0, 1_000, true, 2_000),
        Err(SureError::InvalidTimestamp)
    );
    // nothing covered and nothing added: no premium, no fee
    assert_eq!(
        t.calculate_coverage_delta_at(0, 0, 0, 0, 10, 0, 2_000, true, 1_000),
        Ok((0, 0, 0))
    );
    // at the lowest tick, a year before expiry: the premium of 70 is its
    // yearly premium 70 * (4295048016 / 100)^2 >> 32 = 30065900; the fee is
    // 70 * 65535 / (1_000_000 - 65535)
    assert_eq!(
        t.calculate_coverage_delta_at(
            MIN_TICK_INDEX,
            MIN_TICK_INDEX,
            70,
            0,
            65535,
            0,
            1_000 + 31_556_926,
            true,
            1_000
        ),
        Ok((4, 30065900, 0))
    );
    // the covered amount is priced before the clock is read
    assert_eq!(
        t.calculate_coverage_delta(0, 0, 100, u128::MAX, 10, 0, 1_000, true),
        Err(SureError::MultiplictationQ3232Overflow)
    );
}

#[test]
fn liquidity_round_trip_at_a_tick() {
    let t = tick(100, 100);
    let up = t.calculate_next_liquidity_update(100, 20, 0, 0, 50, &ProductType::AMM, false).unwrap();
    let mut t2 = t;
    t2.update_tick(&up).unwrap();
    assert_eq!(t2.liquidity_gross, 150);
    let down = t2.calculate_next_liquidity_update(100, 20, 7, 7, -50, &ProductType::AMM, false).unwrap();
    assert_eq!(down.liquidity_gross, 100);
    assert_eq!(down.liquidity_net, 100);
    assert_eq!(down.fee_growth_outside_0, 0);
}

#[test]
fn liquidity_delta_errors() {
    assert_eq!(add_liquidity_delta(5, -6), Err(SureError::LiquidityUnderflow));
    assert_eq!(add_liquidity_delta(u128::MAX, 1), Err(SureError::LiquidityOverflow));
    assert_eq!(add_liquidity_delta(5, -5), Ok(0));
    assert_eq!(
        tick(5, 0).calculate_next_liquidity_update(0, 0, 0, 0, -6, &ProductType::AMM, false),
        Err(SureError::LiquidityUnderflow)
    );
    assert_eq!(
        tick(5, i128::MAX).calculate_next_liquidity_update(0, 0, 0, 0, 6, &ProductType::AMM, false),
        Err(SureError::AdditionQ3232OverflowError)
    );
    assert_eq!(
        tick(5, i128::MIN + 1).calculate_next_liquidity_update(0, 0, 0, 0, 6, &ProductType::AMM, true),
        Err(SureError::SubtractionQ3232Error)
    );
}

#[test]
fn tick_locations() {
    assert_eq!(get_tick_location(0, 120, 10), Ok(12));
    assert_eq!(get_tick_location(100, 0, 10), Err(SureError::TickLtTickArray));
    assert_eq!(get_tick_location(0, 10, 0), Err(SureError::InvalidTickSpacing));
    assert_eq!(get_tick_location(0, 15, 10), Err(SureError::TickOutsideSpacing));
    assert_eq!(get_tick_location(0, 640, 10), Err(SureError::TickOutOfRange));
}

#[test]
fn sub_fee() {
    assert_eq!(calculate_sub_fee(1_000, 10), Ok(1));
    assert_eq!(calculate_sub_fee(1_000, 0), Ok(0));
    assert_eq!(calculate_sub_fee(u128::MAX, 2), Err(SureError::MultiplictationQ3232Overflow));
}

#[test]
fn tick_array_read_after_update() {
    let mut ta = TickArray::new(0, Pubkey::default());
    let update = TickUpdate {
        initialized: true,
        liquidity_net: 7,
        liquidity_gross: 9,
        liquidity_locked: 1,
        fee_growth_outside_0: 2,
        fee_growth_outside_1: 3,
    };
    assert_eq!(ta.update_tick(20, 10, &update), Ok(()));
    let t = *ta.get_tick(20, 10).unwrap();
    assert_eq!(t.liquidity_net, 7);
    assert_eq!(t.liquidity_gross, 9);
    assert_eq!(t.fee_growth_outside_1_x64, 3);
    assert_eq!(ta.get_tick(30, 10).unwrap().liquidity_gross, 0);
    assert_eq!(ta.update_tick(25, 10, &update), Err(SureError::InvalidTick));
    assert_eq!(ta.get_tick(-10, 10).err(), Some(SureError::InvalidTick));
    assert_eq!(ta.get_max_tick_index(10), 630);
    assert_eq!(ta.is_last_tick(630, 10), Ok(true));
    assert_eq!(ta.is_last_tick(620, 10), Ok(false));
    assert!(ta.validate_tick_index(630, 10));
    assert!(!ta.validate_tick_index(640, 10));
    assert_eq!(ta.get_tick(640, 10).err(), Some(SureError::InvalidTick));
    assert_eq!(ta.find_next_initialized_tick_index(630, 10, true), Ok(Some(20)));
    assert_eq!(ta.find_next_initialized_tick_index(10, 10, true), Ok(None));
    assert_eq!(ta.find_next_initialized_tick_index(0, 10, false), Ok(Some(20)));
    assert_eq!(
        ta.find_next_conditional_tick_index(630, 10, true, |t: &Tick| t.liquidity_net == 7),
        Ok(Some(20))
    );
    assert_eq!(
        ta.find_next_conditional_tick_index(0, 10, false, |t: &Tick| t.liquidity_net < 0),
        Ok(None)
    );
    assert_eq!(ta.get_next_tick_index(630, 10, true), Ok(Some(630)));
    assert_eq!(ta.get_next_tick_index(630, 10, false), Ok(None));
    assert_eq!(
        ta.find_next_conditional_tick_index(640, 10, true, |_t: &Tick| true),
        Err(SureError::TickOutOfRange)
    );
}

#[test]
fn tick_array_pool_free_tick() {
    let mut ta0 = TickArray::new(0, Pubkey::default());
    let ta1 = TickArray::new(640, Pubkey::default());
    let update = TickUpdate {
        initialized: true,
        liquidity_net: 10,
        liquidity_gross: 10,
        liquidity_locked: 0,
        fee_growth_outside_0: 0,
        fee_growth_outside_1: 0,
    };
    ta0.update_tick(50, 10, &update).unwrap();
    let pool = TickArrayPool::new(ta0, Some(ta1), None);
    // searching up from tick 0 finds the tick with available liquidity
    assert_eq!(pool.find_next_free_tick_index(0, 10, false, 0), Ok((0, 50)));
    // from the second array nothing is free: its max tick index is returned
    assert_eq!(pool.find_next_free_tick_index(640, 10, false, 1), Ok((1, 1270)));
    assert_eq!(
        pool.find_next_free_tick_index(0, 10, false, 2),
        Err(SureError::InvalidTickArrayIndexInTickArrayPool)
    );
}
