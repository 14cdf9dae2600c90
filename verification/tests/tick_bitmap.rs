use sure_protocol::tick_bitmap::{
    least_significant_bit, most_significant_bit, next_initialized_bit, position, BitMap, NextBit,
};
use sure_protocol::tick_word::{self, TickArray};
use sure_protocol::u256::U256;
use sure_protocol::errors::SureError;
use sure_protocol::pool::Pool;
use anchor_lang::prelude::Pubkey;

fn bitmap(spacing: u16) -> BitMap {
    BitMap { bump: 0, word_pos: 0, spacing, word: [0; 4] }
}

#[test]
fn position_splits_word_and_bit() {
    let p = position(0x1234);
    assert_eq!(p.word_pos, 0x12);
    assert_eq!(p.bit_pos, 0x34);
}

#[test]
fn significant_bits_of_u256() {
    let mut x = U256::zero();
    x.flip_bit(5);
    x.flip_bit(140);
    assert_eq!(least_significant_bit(x), 5);
    assert_eq!(most_significant_bit(x), 140);
}

#[test]
fn bitmap_flip_sets_the_bit_of_the_tick() {
    let mut b = bitmap(10);
    // tick 650 / 10 = 65: bit 65 is bit 1 of the second limb
    b.flip_bit(650);
    assert_eq!(b.word, [0, 2, 0, 0]);
    b.flip_bit(650);
    assert_eq!(b.word, [0, 0, 0, 0]);
}

#[test]
fn search_reads_the_bits_of_the_word() {
    // bits 1 and 9 set
    let word = [(1 << 1) | (1 << 9), 0, 0, 0];
    // at or below bit 5: bit 1
    assert_eq!(next_initialized_bit(&word, 0x0305, true), NextBit { next: 1, initialized: true });
    // at or below bit 9: bit 9 itself
    assert_eq!(next_initialized_bit(&word, 9, true), NextBit { next: 9, initialized: true });
    // nothing at or below bit 0
    assert_eq!(next_initialized_bit(&word, 0x0400, true), NextBit { next: 0, initialized: false });
    // above: ratio - 1 = 2, the lowest set bit from 2 is 9
    assert_eq!(next_initialized_bit(&word, 3, false), NextBit { next: 9, initialized: true });
    // above: ratio - 1 = 10, no set bit from 10
    assert_eq!(next_initialized_bit(&word, 11, false), NextBit { next: 255, initialized: false });
    // a bit in the last limb
    let word = [0, 0, 0, 1 << 63];
    assert_eq!(next_initialized_bit(&word, 1, false), NextBit { next: 255, initialized: true });
}

#[test]
fn bitmap_is_initialized_follows_the_search() {
    let mut b = bitmap(1);
    assert!(!b.is_initialized(0x0301, 1));
    b.flip_bit(0x0301);
    // the flag of tick 0x0301 is bit 1 of the word
    assert!(b.is_initialized(0x0301, 1));
    assert!(!b.is_initialized(0x0302, 1));
    assert_eq!(b.next_initialized_tick(0x0302, true), NextBit { next: 1, initialized: true });
    // above: ratio - 1 = 0x02ff, bit 255, and bit 1 lies below it
    assert_eq!(b.next_initialized_tick(0x0300, false), NextBit { next: 255, initialized: false });
}

#[test]
fn tick_word_position_of_negative_ratio() {
    let p = tick_word::position(-1);
    assert_eq!(p.word_pos, -1);
    assert_eq!(p.bit_pos, 255);
    let p = tick_word::position(513);
    assert_eq!(p.word_pos, 2);
    assert_eq!(p.bit_pos, 1);
}

fn pool_with_spacing(tick_spacing: u16) -> Pool {
    let key = Pubkey::default();
    Pool {
        bump: 0,
        bump_array: [0],
        name: String::new(),
        tick_spacing,
        tick_spacing_array: [0, 0],
        founder: key,
        fee_rate: 0,
        protocol_fee: 0,
        founders_fee: 0,
        insurance_fee: 0,
        smart_contract: key,
        token_pools: Vec::new(),
        locked: false,
        token_mint_0: key,
        vault_0: key,
        token_mint_1: key,
        vault_1: key,
        used_liquidity: 0,
        liquidity: 0,
        current_tick_index: 0,
        fee_growth_0_x64: 0,
        fee_growth_1_x64: 0,
        product_id: 0,
    }
}

#[test]
fn tick_word_initialize_checks_the_word_range() {
    let mut ta = TickArray::default();
    // spacing 1: words from -867 to 866
    assert_eq!(ta.initialize(pool_with_spacing(1), 3, 867), Err(SureError::TooLargeWordPosition));
    assert_eq!(ta.initialize(pool_with_spacing(1), 3, -868), Err(SureError::TooSmallWordPosition));
    assert_eq!(ta.initialize(pool_with_spacing(1), 3, -867), Ok(()));
    assert_eq!(ta.word_pos, -867);
    assert_eq!(ta.bump, 3);
    assert_eq!(ta.initialize(pool_with_spacing(1), 4, 866), Ok(()));
    assert_eq!(ta.word_pos, 866);
}

#[test]
fn tick_word_flip_bit_checks_the_word() {
    let mut ta = TickArray::default();
    ta.word_pos = 1;
    assert_eq!(ta.flip_bit(100, 1), Err(SureError::InvalidTickArrayWord));
    assert_eq!(ta.word, [0; 4]);
    assert_eq!(ta.flip_bit(300, 1), Ok(()));
    // ratio 300 is bit 44 of word 1
    assert_eq!(ta.word, [1 << 44, 0, 0, 0]);
    assert!(ta.is_initialized(300, 1));
    assert!(!ta.is_initialized(301, 1));
    assert_eq!(ta.next_initialized_tick(310, 1, true), NextBit { next: 44, initialized: true });
}
