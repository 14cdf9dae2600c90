use sure_protocol::bitmap::C256;
use sure_protocol::u256::U256;

#[test]
fn test_me() {
    let mut bm = C256::init();
    assert_eq!(bm.0, U256::zero());

    // check some random position
    assert_eq!(bm.is_on(100), false);

    // Flip bit
    let next_pos = bm.next_position();
    println!("leading zeros: {}", bm.0.leading_zeros());
    assert_eq!(next_pos, 0);
    bm.flip_bit(next_pos);
    assert_eq!(bm.is_on(next_pos), true);
    assert_eq!(bm.is_on(next_pos + 1), false);

    let new_pos = bm.next_position();
    println!("bm: {}", bm.0.leading_zeros());
    assert_eq!(new_pos, 1);

    bm.flip_bit(next_pos);
    assert_eq!(bm.is_on(next_pos), false);
}

#[test]
fn flipping_twice_restores_the_map() {
    let mut bm = C256::init();
    bm.flip_bit(3);
    bm.flip_bit(200);
    let before = bm;
    bm.flip_bit(130);
    assert!(bm.is_on(130));
    bm.flip_bit(130);
    assert_eq!(bm.0, before.0);
    assert!(bm.is_on(3) && bm.is_on(200) && !bm.is_on(130));
}

#[test]
fn next_position_follows_the_highest_bit() {
    let mut bm = C256::init();
    bm.flip_bit(7);
    assert_eq!(bm.next_position(), 8);
    bm.flip_bit(254);
    assert_eq!(bm.next_position(), 255);
    // the last position on wraps the next position to zero
    bm.flip_bit(255);
    assert_eq!(bm.next_position(), 0);
}

#[test]
fn u256_bits_and_shifts() {
    let mut x = U256::zero();
    x.flip_bit(200);
    assert!(x.is_bit_set(200));
    assert_eq!(x.leading_zeros(), 55);
    assert_eq!(x.highest_set_bit(), 200);
    assert_eq!(x.lowest_set_bit(), 200);
    assert_eq!(x.hi, 1u128 << 72);
    assert_eq!(x.lo, 0);
}

#[test]
fn flipping_adds_or_removes_the_weight_of_the_position() {
    let mut bm = C256::init();
    bm.flip_bit(3);
    assert_eq!((bm.0.lo, bm.0.hi), (8, 0));
    bm.flip_bit(200);
    assert_eq!((bm.0.lo, bm.0.hi), (8, 1u128 << 72));
    bm.flip_bit(3);
    assert_eq!((bm.0.lo, bm.0.hi), (0, 1u128 << 72));
    bm.flip_bit(200);
    assert_eq!(bm.0, U256::zero());
}
