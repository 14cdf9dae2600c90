//! A tick array as a 256-bit word: each bit flags whether a tick is
//! initialized.
use vstd::prelude::*;

use crate::errors::SureError;
use crate::pool::Pool;
use crate::tick_bitmap::{
    flip_word_bit, next_bit_found, next_initialized_bit, word_bit, NextBit,
};

verus! {

/// Lowest tick index of the Q32.32 price range.
pub const MIN_TICK_INDEX: i32 = -221818;

/// Highest tick index of the Q32.32 price range.
pub const MAX_TICK_INDEX: i32 = 221818;

/// Tick Array
///
/// An array of bits holding information about where liquidity is provided.
pub struct TickArray {
    /// Bump
    pub bump: u8,
    /// Word pos identifies where on the pool tick range the tick array is
    /// located: a tick `t` with spacing `s` lies in word `(t / s) >> 8`.
    pub word_pos: i16,
    /// Word is an array of 64*4 = 256 bits; each bit indicates if a tick is
    /// initialized.
    pub word: [u64; 4],
}

impl Default for TickArray {
    fn default() -> (r: Self)
        ensures
            r.bump == 0,
            r.word_pos == 0,
            forall|i: int| 0 <= i < 4 ==> #[trigger] r.word[i] == 0,
    {
        TickArray { bump: 0, word_pos: 0, word: [0u64; 4] }
    }
}

/// Where the flag of a tick is stored: the word and the bit in it.
#[derive(Clone, Copy, PartialEq, Eq, Debug, Structural)]
pub struct Position {
    pub word_pos: i16,
    /// Position in the word where the tick flag is stored
    pub bit_pos: u8,
}

/// Word (the ratio shifted right by 8, kept to 16 bits) and bit (the ratio
/// modulo 256) of the flag of a tick with `tick_by_spacing = tick / spacing`.
pub fn position(tick_by_spacing: i32) -> (r: Position)
    ensures
        r.word_pos == (tick_by_spacing >> 8u32) as i16,
        r.bit_pos as int == (tick_by_spacing as int) % 256,
{
    let rem = tick_by_spacing % 256;
    proof {
        if rem < 0 {
            assert((rem as u8) as int == rem + 256) by (bit_vector)
                requires
                    -256 < rem < 0,
            ;
        }
    }
    Position { word_pos: (tick_by_spacing >> 8u32) as i16, bit_pos: rem as u8 }
}

/// `tick / tick_spacing`, rounded toward zero.
pub open spec fn tick_ratio_of(tick: i32, tick_spacing: u16) -> int {
    if tick >= 0 {
        tick as int / tick_spacing as int
    } else {
        -((-tick) as int / tick_spacing as int)
    }
}

/// Lowest word position allowed with `tick_spacing`.
pub open spec fn min_word_pos(tick_spacing: u16) -> int {
    (-(MAX_TICK_INDEX / (tick_spacing as i32)) as int) / 256
}

/// Highest word position allowed with `tick_spacing`.
pub open spec fn max_word_pos(tick_spacing: u16) -> int {
    (MAX_TICK_INDEX as int / tick_spacing as int) / 256
}

impl TickArray {
    pub const SPACE: usize = 1 + 2 + 2 + 32;

    /// Initialize a new tick array at `word_pos`, which has to lie within the
    /// tick range with the pool's spacing.
    pub fn initialize(&mut self, pool: Pool, bump: u8, word_pos: i16) -> (r: Result<(), SureError>)
        requires
            pool.tick_spacing != 0,
        ensures
            word_pos > max_word_pos(pool.tick_spacing) ==> r == Err::<(), SureError>(
                SureError::TooLargeWordPosition,
            ),
            word_pos <= max_word_pos(pool.tick_spacing) && word_pos < min_word_pos(
                pool.tick_spacing,
            ) ==> r == Err::<(), SureError>(SureError::TooSmallWordPosition),
            r is Ok <==> min_word_pos(pool.tick_spacing) <= word_pos <= max_word_pos(
                pool.tick_spacing,
            ),
            r is Ok ==> final(self).bump == bump && final(self).word_pos == word_pos
                && final(self).word == old(self).word,
            r is Err ==> *final(self) == *old(self),
    {
        let q: u32 = 221818u32 / (pool.tick_spacing as u32);
        let max_word_post: i16 = (q / 256) as i16;
        let min_word_post: i16 = -(((q + 255) / 256) as i16);
        proof {
            assert(max_word_post == max_word_pos(pool.tick_spacing));
            assert(min_word_post == min_word_pos(pool.tick_spacing));
        }
        if word_pos > max_word_post {
            return Err(SureError::TooLargeWordPosition);
        }
        if word_pos < min_word_post {
            return Err(SureError::TooSmallWordPosition);
        }
        self.bump = bump;
        self.word_pos = word_pos;
        Ok(())
    }

    /// Flip the flag of `tick`, which has to lie in this array's word.
    pub fn flip_bit(&mut self, tick: i32, tick_spacing: u16) -> (r: Result<(), SureError>)
        requires
            tick_spacing != 0,
        ensures
            ({
                let ratio = tick_ratio_of(tick, tick_spacing) as i32;
                let word = (ratio >> 8u32) as i16;
                let bit = ratio as int % 256;
                &&& r is Ok <==> word == old(self).word_pos
                &&& r is Err ==> r == Err::<(), SureError>(SureError::InvalidTickArrayWord)
                    && *final(self) == *old(self)
                &&& r is Ok ==> final(self).bump == old(self).bump && final(self).word_pos == old(
                    self,
                ).word_pos && forall|k: nat| k < 256 ==> #[trigger] word_bit(final(self).word, k)
                    == (if k == bit {
                    !word_bit(old(self).word, k)
                } else {
                    word_bit(old(self).word, k)
                })
            }),
    {
        let tick_ratio = tick / tick_spacing as i32;
        let current_position = position(tick_ratio);
        if current_position.word_pos != self.word_pos {
            return Err(SureError::InvalidTickArrayWord);
        }
        flip_word_bit(&mut self.word, current_position.bit_pos);
        Ok(())
    }

    /// Whether the search at or below `tick` lands on the bit position of
    /// `tick` and found a set bit there: whether the tick's bit of the word
    /// is set.
    pub fn is_initialized(&self, tick: u16, tick_spacing: u16) -> (r: bool)
        requires
            tick_spacing != 0,
        ensures
            r == word_bit(self.word, ((tick / tick_spacing) % 256) as nat),
    {
        let tick_ratio = tick / tick_spacing;
        let bit_pos = (tick_ratio % 256) as u8;
        let next_bit = self.next_initialized_tick(tick, tick_spacing, true);
        proof {
            let b = tick_ratio % 256;
            if word_bit(self.word, b as nat) {
                assert(next_bit.initialized);
                if next_bit.next < b {
                    assert(!word_bit(self.word, b as nat));
                }
            }
        }
        next_bit.next == bit_pos && next_bit.initialized
    }

    /// The next initialized bit of the word at or below (`lte`) or above the
    /// tick.
    pub fn next_initialized_tick(&self, tick: u16, tick_spacing: u16, lte: bool) -> (r: NextBit)
        requires
            tick_spacing != 0,
            !lte ==> tick / tick_spacing >= 1,
        ensures
            next_bit_found(self.word, tick / tick_spacing, lte, r),
    {
        let tick_ratio = tick / tick_spacing;
        next_initialized_bit(&self.word, tick_ratio, lte)
    }
}

} // verus!
