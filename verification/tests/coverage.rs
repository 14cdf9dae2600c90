use anchor_lang::prelude::Pubkey;
use sure_protocol::coverage::{CoveragePosition, TickCoveragePosition};
use sure_protocol::errors::SureError;

fn position(start_tick_index: i32) -> CoveragePosition {
    let mut p = CoveragePosition::default();
    p.start_tick_index = start_tick_index;
    p
}

#[test]
fn defaults() {
    assert_eq!(TickCoveragePosition::default().coverage_amount, 0);
    let p = CoveragePosition::default();
    assert_eq!(p.covered_amount, 0);
    assert!(!p.is_active);
    assert_eq!(p.coverage_amount_ticks, [0u128; 192]);
}

#[test]
fn initialize_needs_the_clock() {
    let mut p = CoveragePosition::default();
    let owner = Pubkey::new_unique();
    let mint = Pubkey::new_unique();
    assert_eq!(p.initialize(1, owner, mint, 40), Err(SureError::ClockUnavailable));
    assert_eq!(p.start_tick_index, 0);
    p.initialize_at(1, owner, mint, 40, 1_234);
    assert_eq!(p.expiry_ts, 1_234);
    assert_eq!(p.owner, owner);
    assert_eq!(p.position_mint, mint);
    assert_eq!(p.start_tick_index, 40);
}

#[test]
fn bounds_and_locations() {
    let p = position(100);
    assert_eq!(p.get_max_tick_index(10), 100 + 1920);
    assert!(p.is_tick_index_out_of_bounds(99, 10, true));
    assert!(p.is_tick_index_out_of_bounds(2021, 10, true));
    assert!(!p.is_tick_index_out_of_bounds(100, 10, true));
    assert!(!p.is_tick_index_out_of_bounds(2020, 10, true));
    assert_eq!(p.get_coverage_at_tick_index(130, 10), Ok(0));
    assert_eq!(p.get_coverage_at_tick_index(135, 10), Err(SureError::TickOutsideSpacing));
    assert_eq!(p.get_current_coverage_position(10), Err(SureError::TickLtTickArray));
}

#[test]
fn buy_and_sell_coverage_at_a_tick() {
    let mut p = position(100);
    p.covered_amount = 0;
    assert_eq!(p.update_coverage_at_tick_with(130, 10, 500, 9_999, true, Some(77)), Ok(()));
    assert_eq!(p.covered_amount, 500);
    assert_eq!(p.coverage_amount_ticks[3], 500);
    assert_eq!(p.get_coverage_at_tick_index(130, 10), Ok(500));
    assert_eq!(p.last_covered_tick_index, 130);
    assert_eq!(p.expiry_ts, 9_999);
    assert_eq!(p.start_ts, 77);
    assert!(p.is_active);
    assert_eq!(p.update_coverage_at_tick_with(150, 10, 200, 9_999, true, Some(78)), Ok(()));
    assert_eq!(p.last_covered_tick_index, 150);
    // selling all at the higher tick leaves the last position one past slot 3
    assert_eq!(p.update_coverage_at_tick_with(150, 10, 200, 9_999, false, Some(79)), Ok(()));
    assert_eq!(p.coverage_amount_ticks[5], 0);
    assert_eq!(p.last_covered_tick_index, 4);
    assert_eq!(p.covered_amount, 500);
    assert_eq!(p.get_last_coverage_position(), Ok(4));
}

#[test]
fn coverage_update_errors() {
    let mut p = position(100);
    assert_eq!(
        p.update_coverage_at_tick_with(90, 10, 5, 1, true, Some(1)),
        Err(SureError::TickOutOfRange)
    );
    assert_eq!(
        p.update_coverage_at_tick_with(135, 10, 5, 1, true, Some(1)),
        Err(SureError::TickOutsideSpacing)
    );
    // only the first 64 ticks of the range hold a location
    assert_eq!(
        p.update_coverage_at_tick_with(100 + 640, 10, 5, 1, true, Some(1)),
        Err(SureError::TickOutOfRange)
    );
    p.covered_amount = u128::MAX;
    assert_eq!(
        p.update_coverage_at_tick_with(130, 10, 5, 1, true, Some(1)),
        Err(SureError::AdditionQ3232OverflowError)
    );
    p.covered_amount = 3;
    p.coverage_amount_ticks[4] = 1;
    assert_eq!(
        p.update_coverage_at_tick_with(130, 10, 5, 1, false, Some(1)),
        Err(SureError::SubtractionQ3232Error)
    );
    p.covered_amount = 10;
    p.coverage_amount_ticks[3] = 2;
    assert_eq!(
        p.update_coverage_at_tick_with(130, 10, 5, 1, false, Some(1)),
        Err(SureError::AdditionQ3232OverflowError)
    );
    // the total was already reduced when the tick could not be
    assert_eq!(p.covered_amount, 5);
}

#[test]
fn start_time_follows_the_clock() {
    let mut p = position(0);
    p.covered_amount = 0;
    p.is_active = true;
    p.start_ts = 5;
    assert_eq!(p.apply_start_time(None), Err(SureError::ClockUnavailable));
    assert!(!p.is_active);
    assert_eq!(p.start_ts, 0);
    assert_eq!(p.apply_start_time(Some(42)), Ok(()));
    assert!(p.is_active);
    assert_eq!(p.start_ts, 42);
    // off chain there is no clock
    assert_eq!(p.update_start_time(), Err(SureError::ClockUnavailable));
    p.update_from_coverage_update(900, 3_000);
    assert_eq!(p.covered_amount, 900);
    assert_eq!(p.expiry_ts, 3_000);
}
