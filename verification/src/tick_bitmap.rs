//! Bitmap used to keep track of liquidity at each tick, and the word search
//! that the bitmaps of ticks share.
use vstd::prelude::*;

use crate::u256::U256;

verus! {

broadcast use vstd::array::group_array_axioms;

/// Bit `k` (`k < 256`) of a 256-bit word stored as four 64-bit limbs,
/// least significant limb first.
pub open spec fn word_bit(word: [u64; 4], k: nat) -> bool {
    (word[(k / 64) as int] >> ((k % 64) as u64)) & 1u64 == 1u64
}

/// Bitmap used to keep track of liquidity at each tick.
pub struct BitMap {
    /// Bump
    pub bump: u8,
    pub word_pos: i16,
    pub spacing: u16,
    /// Map
    pub word: [u64; 4],
}

/// Result of a search for the next initialized bit.
#[derive(Clone, Copy, PartialEq, Eq, Debug, Structural)]
pub struct NextBit {
    pub next: u8,
    pub initialized: bool,
}

/// Where the flag of a tick is stored: the word and the bit in it.
#[derive(Clone, Copy, PartialEq, Eq, Debug, Structural)]
pub struct Position {
    pub word_pos: i16,
    /// Position in the word where the tick flag is stored
    pub bit_pos: u8,
}

/// Word and bit of the flag of `tick_ratio`.
pub fn position(tick_ratio: u16) -> (r: Position)
    ensures
        r.word_pos == tick_ratio / 256,
        r.bit_pos == tick_ratio % 256,
{
    proof {
        assert(tick_ratio >> 8u16 == tick_ratio / 256) by (bit_vector);
    }
    Position { word_pos: (tick_ratio >> 8) as i16, bit_pos: (tick_ratio % 256) as u8 }
}

/// Index of the lowest set bit of `x`, which must not be zero.
pub fn least_significant_bit(x: U256) -> (r: u8)
    requires
        !x.no_bits(),
    ensures
        x.bit(r as nat),
        forall|j: nat| j < r ==> !#[trigger] x.bit(j),
{
    x.lowest_set_bit()
}

/// Index of the highest set bit of `x`, which must not be zero.
pub fn most_significant_bit(x: U256) -> (r: u8)
    requires
        !x.no_bits(),
    ensures
        x.bit(r as nat),
        forall|j: nat| r < j < 256 ==> !#[trigger] x.bit(j),
        r == x.highest_bit(),
{
    x.highest_set_bit()
}

proof fn lemma_u64_flip(x: u64, k: u64, j: u64)
    requires
        k < 64,
        j < 64,
    ensures
        ((x ^ (1u64 << k)) >> j) & 1u64 == 1u64 <==> (if j == k {
            !((x >> j) & 1u64 == 1u64)
        } else {
            (x >> j) & 1u64 == 1u64
        }),
{
    assert(((x ^ (1u64 << k)) >> j) & 1u64 == 1u64 <==> (if j == k {
        !((x >> j) & 1u64 == 1u64)
    } else {
        (x >> j) & 1u64 == 1u64
    })) by (bit_vector)
        requires
            k < 64,
            j < 64,
    ;
}

/// Flip bit `bit` of a 256-bit word.
pub fn flip_word_bit(word: &mut [u64; 4], bit: u8)
    ensures
        forall|k: nat| k < 256 ==> #[trigger] word_bit(*final(word), k) == (if k == bit {
            !word_bit(*old(word), k)
        } else {
            word_bit(*old(word), k)
        }),
{
    let ghost before = *word;
    let limb = (bit / 64) as usize;
    let shift = (bit % 64) as u64;
    let flipped = word[limb] ^ (1u64 << shift);
    word[limb] = flipped;
    proof {
        assert forall|k: nat| k < 256 implies #[trigger] word_bit(*word, k) == (if k == bit {
            !word_bit(before, k)
        } else {
            word_bit(before, k)
        }) by {
            let kl = (k / 64) as int;
            if kl == limb as int {
                lemma_u64_flip(before[kl], shift, (k % 64) as u64);
            }
        }
    }
}

/// The search of `word` for the next initialized bit: the highest set bit at
/// or below the bit position of `tick_ratio` (for `lte`), or the lowest set
/// bit at or above the bit position of `tick_ratio - 1` (otherwise).
pub open spec fn next_bit_found(word: [u64; 4], tick_ratio: u16, lte: bool, r: NextBit) -> bool {
    if lte {
        let b = tick_ratio % 256;
        &&& r.initialized == (exists|k: nat| k <= b && #[trigger] word_bit(word, k))
        &&& r.initialized ==> r.next <= b && word_bit(word, r.next as nat) && forall|k: nat|
            r.next < k <= b ==> !#[trigger] word_bit(word, k)
        &&& !r.initialized ==> r.next == 0
    } else {
        let b = (tick_ratio - 1) % 256;
        &&& r.initialized == (exists|k: nat| b <= k < 256 && #[trigger] word_bit(word, k))
        &&& r.initialized ==> b <= r.next && word_bit(word, r.next as nat) && forall|k: nat|
            b <= k < r.next ==> !#[trigger] word_bit(word, k)
        &&& !r.initialized ==> r.next == 255
    }
}

/// Whether bit `k` of `word` is set.
fn word_bit_set(word: &[u64; 4], k: u16) -> (r: bool)
    requires
        k < 256,
    ensures
        r == word_bit(*word, k as nat),
{
    (word[(k / 64) as usize] >> ((k % 64) as u64)) & 1u64 == 1u64
}

/// Search `word` for the next initialized bit: the highest set bit at or
/// below the bit position of `tick_ratio` when `lte`, else the lowest set bit
/// at or above the bit position of `tick_ratio - 1`.
pub fn next_initialized_bit(word: &[u64; 4], tick_ratio: u16, lte: bool) -> (r: NextBit)
    requires
        !lte ==> tick_ratio >= 1,
    ensures
        next_bit_found(*word, tick_ratio, lte, r),
{
    if lte {
        let p = position(tick_ratio);
        let b = p.bit_pos;
        let mut k: u16 = b as u16 + 1;
        while k > 0
            invariant
                lte,
                k <= b + 1,
                b == tick_ratio % 256,
                forall|j: nat| k <= j <= b ==> !#[trigger] word_bit(*word, j),
            decreases k,
        {
            if word_bit_set(word, k - 1) {
                return NextBit { next: (k - 1) as u8, initialized: true };
            }
            k = k - 1;
        }
        NextBit { next: 0, initialized: false }
    } else {
        let p = position(tick_ratio - 1);
        let b = p.bit_pos;
        let mut k: u16 = b as u16;
        while k < 256
            invariant
                !lte,
                tick_ratio >= 1,
                b <= k <= 256,
                b == (tick_ratio - 1) % 256,
                forall|j: nat| b <= j < k ==> !#[trigger] word_bit(*word, j),
            decreases 256 - k,
        {
            if word_bit_set(word, k) {
                return NextBit { next: k as u8, initialized: true };
            }
            k = k + 1;
        }
        NextBit { next: 255, initialized: false }
    }
}

impl BitMap {
    pub const SPACE: usize = 1 + 2 + 2 + 32;

    /// Whether the flag of `tick` is set in the stored word.
    pub open spec fn is_set(self, tick: u16) -> bool {
        word_bit(self.word, ((tick / self.spacing) % 256) as nat)
    }

    /// Flip the flag of `tick` (its bit position within the word).
    pub fn flip_bit(&mut self, tick: u16)
        requires
            old(self).spacing != 0,
        ensures
            final(self).bump == old(self).bump,
            final(self).word_pos == old(self).word_pos,
            final(self).spacing == old(self).spacing,
            forall|k: nat| k < 256 ==> #[trigger] word_bit(final(self).word, k) == (if k == (tick
                / old(self).spacing) % 256 {
                !word_bit(old(self).word, k)
            } else {
                word_bit(old(self).word, k)
            }),
    {
        let tick_ratio = tick / self.spacing;
        let current_position = position(tick_ratio);
        flip_word_bit(&mut self.word, current_position.bit_pos);
    }

    /// Whether the search at or below `tick` lands on the bit position of
    /// `tick` (taken with `tick_spacing`) and found a set bit there: that bit
    /// of the word is set and no bit between it and the search start is.
    pub fn is_initialized(&self, tick: u16, tick_spacing: u16) -> (r: bool)
        requires
            self.spacing != 0,
            tick_spacing != 0,
        ensures
            ({
                let b = (tick / self.spacing) % 256;
                let bt = (tick / tick_spacing) % 256;
                r == (bt <= b && word_bit(self.word, bt as nat) && forall|k: nat|
                    bt < k <= b ==> !#[trigger] word_bit(self.word, k))
            }),
    {
        let tick_ratio = tick / tick_spacing;
        let p = position(tick_ratio);
        let next_bit = self.next_initialized_tick(tick, true);
        proof {
            let b = (tick / self.spacing) % 256;
            let bt = (tick / tick_spacing) % 256;
            if bt <= b && word_bit(self.word, bt as nat) && forall|k: nat|
                bt < k <= b ==> !#[trigger] word_bit(self.word, k) {
                assert(next_bit.initialized);
                if next_bit.next < bt {
                    assert(!word_bit(self.word, bt as nat));
                }
                if next_bit.next > bt {
                    assert(!word_bit(self.word, next_bit.next as nat));
                }
            }
        }
        next_bit.next == p.bit_pos && next_bit.initialized
    }

    /// The next initialized bit of the word at or below (`lte`) or above the
    /// tick.
    pub fn next_initialized_tick(&self, tick: u16, lte: bool) -> (r: NextBit)
        requires
            self.spacing != 0,
            !lte ==> tick / self.spacing >= 1,
        ensures
            next_bit_found(self.word, tick / self.spacing, lte, r),
    {
        let tick_ratio = tick / self.spacing;
        next_initialized_bit(&self.word, tick_ratio, lte)
    }
}

/// Flipping the flag of a tick twice gives back every bit of the word.
pub proof fn law_flip_word_bit_twice(first: [u64; 4], second: [u64; 4], third: [u64; 4], bit: u8)
    requires
        forall|k: nat| k < 256 ==> #[trigger] word_bit(second, k) == (if k == bit {
            !word_bit(first, k)
        } else {
            word_bit(first, k)
        }),
        forall|k: nat| k < 256 ==> #[trigger] word_bit(third, k) == (if k == bit {
            !word_bit(second, k)
        } else {
            word_bit(second, k)
        }),
    ensures
        forall|k: nat| k < 256 ==> #[trigger] word_bit(third, k) == word_bit(first, k),
{
    assert forall|k: nat| k < 256 implies #[trigger] word_bit(third, k) == word_bit(first, k) by {
        assert(word_bit(second, k) == (if k == bit {
            !word_bit(first, k)
        } else {
            word_bit(first, k)
        }));
    }
}

} // verus!
