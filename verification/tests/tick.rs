use std::time::{self, SystemTime};
use sure_protocol::tick::{Tick, TickAnchorError, MAX_NUMBER_OF_LIQUIDITY_POSITIONS};

fn initialize_tick() -> Tick {
    let time = SystemTime::now()
        .duration_since(time::UNIX_EPOCH)
        .unwrap()
        .as_secs() as i64;
    let init_liq_idx = [0; (MAX_NUMBER_OF_LIQUIDITY_POSITIONS as usize)];
    let init_liq_size = [0; (MAX_NUMBER_OF_LIQUIDITY_POSITIONS as usize)];
    let init_liq_rewards = [0; (MAX_NUMBER_OF_LIQUIDITY_POSITIONS as usize)];
    let last_liq = 0;
    Tick {
        bump: 1,
        liquidity: 0,
        used_liquidity: 0,
        last_updated: time,
        tick: 300,
        active: false,
        liquidity_position_idx: init_liq_idx,
        liquidity_position_rewards: init_liq_rewards,
        liquidity_position_accumulated: init_liq_size,
        last_liquidity_position_idx: last_liq,
    }
}

#[test]
fn shift_position() {
    let mut tick = initialize_tick();
    tick.add_liquidity(0, 1000).unwrap();
    let id: u8 = 0;
    assert_eq!(tick.liquidity_position_accumulated[id as usize], 1000);
    println!("accumulated: {:?}", tick.liquidity_position_accumulated);
    println!("cool: {:?}", tick.liquidity_position_accumulated[id as usize + 1]);
    tick.shift_liquidity_position_left_by1(id);
    println!("accumulated shifted: {:?}", tick.liquidity_position_accumulated);
}

#[test]
fn add_remove_liquidity() {
    // Initialize
    let mut tick = initialize_tick();

    // Add liquidity
    tick.add_liquidity(244, 1_000).unwrap();
    println!("liquidity pos: {:?}", tick.liquidity_position_accumulated);
    assert_eq!(tick.last_liquidity_position_idx, 1);
    assert_eq!(tick.liquidity, 1_000);
    assert_eq!(tick.liquidity_position_accumulated[0], 1_000);
    assert_eq!(tick.liquidity_position_idx[0], 244);
    assert_eq!(tick.liquidity_position_rewards[0], 0);

    // Remove liquidity
    tick.remove_liquidity(244).unwrap();
    assert_eq!(tick.last_liquidity_position_idx, 0);
    assert_eq!(tick.liquidity, 0);
    assert_eq!(tick.liquidity_position_accumulated[0], 0);
    assert_eq!(tick.liquidity_position_idx[0], 0);
    assert_eq!(tick.liquidity_position_rewards[0], 0);
    assert_eq!(tick.active, false);
}

#[test]
fn add_and_buy_insurance() {
    let mut tick = initialize_tick();

    // Add liquidity
    tick.add_liquidity(244, 1_000).unwrap();
    println!("liquidity pos: {:?}", tick.liquidity_position_accumulated);
    assert_eq!(tick.last_liquidity_position_idx, 1);
    assert_eq!(tick.liquidity, 1_000);
    assert_eq!(tick.liquidity_position_accumulated[0], 1_000);
    assert_eq!(tick.liquidity_position_idx[0], 244);
    assert_eq!(tick.liquidity_position_rewards[0], 0);

    // Buy insurance
    tick.buy_insurance(1_000).unwrap();
    assert_eq!(tick.used_liquidity, 1_000);
}

fn tick_with_positions(ids: &[u8], accumulated: &[u64]) -> Tick {
    let mut tick = initialize_tick();
    for (i, (id, acc)) in ids.iter().zip(accumulated.iter()).enumerate() {
        tick.liquidity_position_idx[i] = *id;
        tick.liquidity_position_accumulated[i] = *acc;
    }
    tick.last_liquidity_position_idx = ids.len() as u8;
    tick.active = true;
    tick
}

#[test]
fn add_liquidity_slots() {
    let mut tick = initialize_tick();
    tick.add_liquidity(244, 1_000).unwrap();
    // the second position takes the next slot and the running total
    tick.add_liquidity(7, 500).unwrap();
    assert_eq!(tick.last_liquidity_position_idx, 2);
    assert_eq!(tick.liquidity, 1_500);
    assert_eq!(tick.liquidity_position_idx[1], 7);
    assert_eq!(tick.liquidity_position_accumulated[1], 1_500);
    assert_eq!(tick.liquidity_position_rewards[1], 0);
    assert_eq!(tick.liquidity_position_idx[2], 0);
}

#[test]
fn remove_moves_every_later_position_left() {
    let mut tick = tick_with_positions(&[2, 43, 12, 53, 32], &[10, 20, 30, 40, 50]);
    tick.liquidity = 50;
    tick.liquidity_position_rewards[3] = 4;
    tick.remove_liquidity(12).unwrap();
    assert_eq!(&tick.liquidity_position_idx[..6], &[2, 43, 53, 32, 0, 0]);
    assert_eq!(&tick.liquidity_position_accumulated[..6], &[10, 20, 30, 40, 0, 0]);
    assert_eq!(&tick.liquidity_position_rewards[..6], &[0, 0, 4, 0, 0, 0]);
    assert_eq!(tick.liquidity, 40);
    assert_eq!(tick.last_liquidity_position_idx, 4);
    assert!(tick.active);
    // the first position: every running total drops by its size
    tick.remove_liquidity(2).unwrap();
    assert_eq!(&tick.liquidity_position_idx[..4], &[43, 53, 32, 0]);
    assert_eq!(&tick.liquidity_position_accumulated[..4], &[10, 20, 30, 0]);
    assert_eq!(tick.liquidity, 30);
}

#[test]
fn add_then_remove_gives_the_positions_back() {
    let mut tick = tick_with_positions(&[1, 2], &[1_000, 1_500]);
    tick.liquidity = 1_500;
    let before = (tick.liquidity_position_idx, tick.liquidity_position_accumulated);
    tick.add_liquidity(3, 250).unwrap();
    assert_eq!(tick.liquidity_position_accumulated[2], 1_750);
    tick.remove_liquidity(3).unwrap();
    assert_eq!((tick.liquidity_position_idx, tick.liquidity_position_accumulated), before);
    assert_eq!(tick.liquidity, 1_500);
    assert_eq!(tick.last_liquidity_position_idx, 2);
}

#[test]
fn shift_moves_the_next_position() {
    let mut tick = tick_with_positions(&[5, 6, 7], &[1000, 1500, 1700]);
    tick.shift_liquidity_position_left_by1(0);
    assert_eq!(tick.liquidity_position_idx[0], 6);
    assert_eq!(tick.liquidity_position_accumulated[0], 500);
    // a later slot re-accumulates onto the slot before it
    let mut tick = tick_with_positions(&[5, 6, 7], &[1000, 1500, 1700]);
    tick.shift_liquidity_position_left_by1(1);
    assert_eq!(tick.liquidity_position_idx[1], 7);
    assert_eq!(tick.liquidity_position_accumulated[1], 1200);
}

#[test]
fn buy_and_exit_insurance_limits() {
    let mut tick = initialize_tick();
    tick.add_liquidity(9, 1_000).unwrap();
    let err = tick.buy_insurance(1_001).unwrap_err();
    assert_eq!(err.cause, "too little liquidity");
    assert_eq!(tick.used_liquidity, 0);
    tick.buy_insurance(600).unwrap();
    tick.exit_insurance(600).unwrap();
    assert_eq!(tick.used_liquidity, 0);
    let err = tick.exit_insurance(1_001).unwrap_err();
    assert_eq!(err.cause, "not possible to exit the pool.");
}

#[test]
fn no_spot_left_for_a_position() {
    let mut tick = initialize_tick();
    tick.last_liquidity_position_idx = 254;
    let err = tick.add_liquidity(3, 10).unwrap_err();
    assert_eq!(err.cause, "no liquidity spots left");
    assert_eq!(tick.liquidity, 0);
}

#[test]
fn remove_liquidity_refusals() {
    let mut tick = initialize_tick();
    tick.add_liquidity(9, 1_000).unwrap();
    tick.liquidity_position_rewards[0] = 5;
    let err = tick.remove_liquidity(9).unwrap_err();
    assert_eq!(err.cause, "rewards should be withdrawn");
    assert_eq!(tick.get_rewards(9).unwrap(), 5);
    tick.withdraw_rewards(9).unwrap();
    assert_eq!(tick.liquidity_position_rewards[0], 0);
    tick.buy_insurance(1_000).unwrap();
    tick.used_liquidity = 1_001;
    let err = tick.remove_liquidity(9).unwrap_err();
    assert_eq!(err.cause, "can not exit position as it is in use.");
    assert_eq!(tick.liquidity, 1_000);
}

#[test]
fn new_ids_and_lookups() {
    let mut tick = initialize_tick();
    assert_eq!(tick.get_new_id(), 1);
    tick.add_liquidity(1, 10).unwrap();
    tick.add_liquidity(2, 10).unwrap();
    assert_eq!(tick.get_new_id(), 3);
    assert!(tick.is_id_taken(2));
    assert!(!tick.is_id_taken(3));
    assert_eq!(tick.find_liquidity_position_idx(2), 1);
    let tick = tick_with_positions(&[1, 2], &[10, 25]);
    assert_eq!(tick.liquidity_position(1), 15);
    assert_eq!(tick.liquidity_position(0), 10);
}

#[test]
fn free_liquidity_of_a_position() {
    let mut tick = tick_with_positions(&[1, 2], &[1_000, 1_500]);
    // nothing used beyond the first position
    tick.used_liquidity = 1_000;
    assert_eq!(tick.free_liquidity(1), 500);
    tick.used_liquidity = 1_200;
    assert_eq!(tick.free_liquidity(1), 300);
    tick.used_liquidity = 1_600;
    assert_eq!(tick.free_liquidity(1), 0);
    tick.last_liquidity_position_idx = 1;
    assert_eq!(tick.get_remaining_liquidity(), 100);
}

#[test]
fn remove_the_last_of_two_positions() {
    let mut tick = tick_with_positions(&[1, 2], &[1_000, 1_500]);
    tick.liquidity = 1_500;
    tick.remove_liquidity(2).unwrap();
    assert_eq!(tick.liquidity, 1_000);
    assert_eq!(tick.last_liquidity_position_idx, 1);
    assert_eq!(tick.liquidity_position_idx[1], 0);
    assert_eq!(tick.liquidity_position_accumulated[1], 0);
    assert!(tick.active);
}

#[test]
fn empty_tick_and_clock() {
    let mut tick = initialize_tick();
    assert!(tick.is_empty());
    tick.add_liquidity(1, 1).unwrap();
    assert!(!tick.is_empty());
    assert!(tick.validate().is_ok());
    // off chain there is no runtime clock
    assert_eq!(tick.update_callback(), Err(TickAnchorError::CouldNotUpdateTimestamp));
    assert_eq!(tick.get_unix_timestamp().unwrap_err().cause, "could not get tick timestamp");
    let before = tick.last_updated;
    assert_eq!(tick.update_callback_with(Some(before + 60)), Ok(()));
    assert_eq!(tick.last_updated, before + 60);
    assert_eq!(tick.update_callback().unwrap_err(), TickAnchorError::CouldNotUpdateTimestamp);
}

#[test]
fn initialize_with_a_clock_reading() {
    let mut tick = initialize_tick();
    tick.add_liquidity(4, 40).unwrap();
    assert!(tick.initialize_with(7, 250, Some(1_000)).is_ok());
    assert_eq!(tick.bump, 7);
    assert_eq!(tick.tick, 250);
    assert_eq!(tick.last_updated, 1_000);
    assert_eq!(tick.liquidity, 0);
    assert!(tick.active);
    assert_eq!(tick.liquidity_position_idx[0], 0);
    let mut tick = initialize_tick();
    tick.add_liquidity(4, 40).unwrap();
    assert!(tick.initialize(7, 250).is_err());
    assert_eq!(tick.liquidity, 0);
    assert_eq!(tick.liquidity_position_idx[0], 4);
}
