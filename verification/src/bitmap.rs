//! A 256-bit bitmap for storing binary state, one bit per position.
use vstd::prelude::*;

use crate::u256::{two_pow, U256};

verus! {

/// A bitmap of 256 positions held in an unsigned 256-bit integer.
#[derive(Clone, Copy)]
pub struct C256(pub U256);

/// The position that `next_position` hands out: zero for an empty map or one
/// whose highest position is on, otherwise one past the highest position on.
pub open spec fn next_free_position(map: C256) -> nat {
    if map.0.no_bits() || map.0.highest_bit() == 255 {
        0
    } else {
        map.0.highest_bit() + 1
    }
}

impl C256 {
    /// Whether position `id` is on.
    pub open spec fn on(self, id: nat) -> bool {
        self.0.bit(id)
    }

    /// An empty bitmap.
    pub fn init() -> (r: C256)
        ensures
            r.0.value() == 0,
            forall|id: nat| id < 256 ==> !#[trigger] r.on(id),
    {
        C256(U256::zero())
    }

    /// Flip position `id`.
    pub fn flip_bit(&mut self, id: u8)
        ensures
            forall|j: nat| j < 256 ==> #[trigger] final(self).on(j) == (if j == id {
                !old(self).on(j)
            } else {
                old(self).on(j)
            }),
            final(self).0.value() == (if old(self).on(id as nat) {
                old(self).0.value() - two_pow(id as nat)
            } else {
                old(self).0.value() + two_pow(id as nat) as int
            }),
    {
        self.0.flip_bit(id);
    }

    /// Whether position `id` is on.
    pub fn is_on(&self, id: u8) -> (r: bool)
        ensures
            r == self.on(id as nat),
    {
        self.0.is_bit_set(id)
    }

    /// The position after the highest one that is on, wrapping to zero.
    pub fn next_position(&self) -> (r: u8)
        ensures
            r == next_free_position(*self),
    {
        let lz = self.0.leading_zeros();
        if lz == 256 {
            return 0;
        }
        let idx = (255 - lz) as u8;
        proof {
            self.0.lemma_highest_bit_unique(idx as nat);
        }
        if idx == 255 {
            0
        } else {
            idx + 1
        }
    }
}

/// Flipping a position changes that position and no other.
pub proof fn law_flip_changes_one_position(before: C256, after: C256, id: u8)
    requires
        forall|j: nat| j < 256 ==> #[trigger] after.on(j) == (if j == id {
            !before.on(j)
        } else {
            before.on(j)
        }),
    ensures
        after.on(id as nat) != before.on(id as nat),
        forall|j: nat| j < 256 && j != id ==> #[trigger] after.on(j) == before.on(j),
{
    assert(after.on(id as nat) == !before.on(id as nat));
}

/// Flipping the same position twice gives back every position as it was.
pub proof fn law_flip_twice_restores(first: C256, second: C256, third: C256, id: u8)
    requires
        forall|j: nat| j < 256 ==> #[trigger] second.on(j) == (if j == id {
            !first.on(j)
        } else {
            first.on(j)
        }),
        forall|j: nat| j < 256 ==> #[trigger] third.on(j) == (if j == id {
            !second.on(j)
        } else {
            second.on(j)
        }),
    ensures
        forall|j: nat| j < 256 ==> #[trigger] third.on(j) == first.on(j),
{
    assert forall|j: nat| j < 256 implies #[trigger] third.on(j) == first.on(j) by {
        assert(second.on(j) == (if j == id {
            !first.on(j)
        } else {
            first.on(j)
        }));
    }
}

/// Switching on the position that `next_position` hands out makes the next
/// one the position after it, as long as the map has not wrapped around.
pub proof fn law_next_position_advances(before: C256, after: C256)
    requires
        before.0.no_bits() || before.0.highest_bit() < 254,
        forall|j: nat| j < 256 ==> #[trigger] after.on(j) == (if j == next_free_position(before) {
            !before.on(j)
        } else {
            before.on(j)
        }),
    ensures
        next_free_position(after) == next_free_position(before) + 1,
        after.on(next_free_position(before)),
{
    let p = next_free_position(before);
    if !before.0.no_bits() {
        before.0.lemma_highest_bit_props();
    }
    assert(forall|j: nat| p <= j < 256 ==> !#[trigger] before.0.bit(j));
    assert(p < 255);
    assert(after.on(p) == !before.on(p));
    assert(after.0.bit(p));
    assert(!after.0.no_bits());
    assert forall|j: nat| p < j < 256 implies !#[trigger] after.0.bit(j) by {
        assert(after.on(j) == before.on(j));
    }
    after.0.lemma_highest_bit_unique(p);
}

} // verus!
