//! Tick contains methods to manage a tick pool: the liquidity positions at a
//! tick and what is bought from them. The tick does not manage the premium
//! pool but keeps track of the potential rewards.
use crate::errors::SureError;
use crate::runtime::clock_unix_timestamp;
use vstd::prelude::*;

verus! {

broadcast use {vstd::array::group_array_axioms, vstd::string::group_string_axioms};

pub const MAX_NUMBER_OF_LIQUIDITY_POSITIONS: u8 = 255;

pub const SECONDS_IN_A_YEAR: i64 = 31556926;

/// Tick account used to hold information about the liquidity at a tick.
pub struct Tick {
    /// The bump identity of the PDA
    pub bump: u8,
    /// The active liquidity at the tick
    pub liquidity: u64,
    /// Amount of liquidity used from the pool
    pub used_liquidity: u64,
    /// last time the tick was updated
    pub last_updated: i64,
    /// The tick in basis points
    pub tick: u64,
    /// Boolean representing whether the liquidity is active
    pub active: bool,
    /// Ids of liquidity positions
    pub liquidity_position_idx: [u8; 255],
    /// Accumulation of Liquidity Provided
    pub liquidity_position_accumulated: [u64; 255],
    /// rewards
    pub liquidity_position_rewards: [u64; 255],
    pub last_liquidity_position_idx: u8,
}

/// An error of a tick operation, with its cause.
#[derive(Debug)]
pub struct TickError {
    pub cause: String,
}

/// The error a tick reports to the runtime.
#[derive(Clone, Copy, PartialEq, Eq, Debug, Structural)]
pub enum TickAnchorError {
    CouldNotUpdateTimestamp,
}

impl TickError {
    pub fn to_anchor_error(&self) -> (r: TickAnchorError)
        ensures
            r == TickAnchorError::CouldNotUpdateTimestamp,
    {
        TickAnchorError::CouldNotUpdateTimestamp
    }
}

/// First position of `id` in `ids`.
pub open spec fn is_first_index(ids: Seq<u8>, id: u8, i: int) -> bool {
    &&& 0 <= i < ids.len()
    &&& ids[i] == id
    &&& forall|j: int| 0 <= j < i ==> #[trigger] ids[j] != id
}

/// The first position of `id` in `ids` (meaningful when `id` occurs).
pub open spec fn first_index(ids: Seq<u8>, id: u8) -> int {
    choose|i: int| is_first_index(ids, id, i)
}

/// `id` occurs in `ids`, and `first_index` is its first position.
pub proof fn lemma_first_index(ids: Seq<u8>, id: u8, i: int)
    requires
        0 <= i < ids.len(),
        ids[i] == id,
    ensures
        is_first_index(ids, id, first_index(ids, id)),
        first_index(ids, id) <= i,
    decreases i,
{
    if forall|j: int| 0 <= j < i ==> #[trigger] ids[j] != id {
        assert(is_first_index(ids, id, i));
        let f = first_index(ids, id);
        if f < i {
            assert(ids[f] != id);
        }
        if i < f {
            assert(ids[i] != id);
        }
    } else {
        let j = choose|j: int| 0 <= j < i && #[trigger] ids[j] == id;
        lemma_first_index(ids, id, j);
    }
}

/// Size of the liquidity position at `i`: its accumulated liquidity less
/// that of the position before it.
pub open spec fn position_size(acc: Seq<u64>, i: int) -> int {
    if i > 0 {
        acc[i] - acc[i - 1]
    } else {
        acc[i] as int
    }
}

/// Accumulated liquidity at `i` once the position after it has moved into
/// its place.
pub open spec fn shifted_accumulated(acc: Seq<u64>, i: int) -> u64 {
    if acc[i + 1] == 0 {
        0
    } else if i > 0 {
        (acc[i - 1] + (acc[i + 1] - acc[i])) as u64
    } else {
        (acc[i + 1] - acc[i]) as u64
    }
}

/// The accumulated liquidity can be moved left at `i` without leaving `u64`.
pub open spec fn can_shift(acc: Seq<u64>, i: int) -> bool {
    acc[i + 1] != 0 ==> acc[i + 1] >= acc[i] && (i > 0 ==> acc[i - 1] + (acc[i + 1] - acc[i])
        <= u64::MAX)
}

impl Tick {
    pub fn validate(&self) -> (r: Result<(), SureError>)
        ensures
            r is Ok,
    {
        Ok(())
    }

    /// Initialize the tick at `tick_bp` basis points, stamped with the
    /// runtime clock.
    pub fn initialize(&mut self, bump: u8, tick_bp: u64) -> (r: Result<(), SureError>)
        ensures
            exists|t: Option<i64>| #[trigger] initialized_with(*old(self), *final(self), r, bump, tick_bp, t),
    {
        let timestamp = clock_unix_timestamp();
        self.initialize_with(bump, tick_bp, timestamp)
    }

    /// Initialize the tick at `tick_bp` basis points with the clock reading
    /// `timestamp` (`None` when the clock could not be read).
    pub fn initialize_with(&mut self, bump: u8, tick_bp: u64, timestamp: Option<i64>) -> (r: Result<
        (),
        SureError,
    >)
        ensures
            initialized_with(*old(self), *final(self), r, bump, tick_bp, timestamp),
    {
        self.bump = bump;
        self.liquidity = 0;
        self.used_liquidity = 0;
        self.last_updated = match timestamp {
            Some(t) => t,
            None => return Err(SureError::ClockUnavailable),
        };
        self.tick = tick_bp;
        self.active = true;
        self.liquidity_position_idx = [0u8; 255];
        self.liquidity_position_accumulated = [0u64; 255];
        self.liquidity_position_rewards = [0u64; 255];
        Ok(())
    }

    /// Whether `id` is the id of some liquidity position slot.
    pub fn is_id_taken(&self, id: u8) -> (r: bool)
        ensures
            r == self.liquidity_position_idx@.contains(id),
    {
        let mut i: usize = 0;
        while i < 255
            invariant
                i <= 255,
                forall|j: int| 0 <= j < i ==> #[trigger] self.liquidity_position_idx[j] != id,
            decreases 255 - i,
        {
            if self.liquidity_position_idx[i] == id {
                proof {
                    assert(self.liquidity_position_idx@[i as int] == id);
                }
                return true;
            }
            i = i + 1;
        }
        false
    }

    /// Get new id: the lowest id from 1 that no liquidity position holds.
    pub fn get_new_id(&self) -> (r: u8)
        requires
            exists|k: u8| 1 <= k && !#[trigger] self.liquidity_position_idx@.contains(k),
        ensures
            1 <= r,
            !self.liquidity_position_idx@.contains(r),
            forall|k: u8| 1 <= k < r ==> #[trigger] self.liquidity_position_idx@.contains(k),
    {
        let mut idx: u8 = 1;
        while self.is_id_taken(idx)
            invariant
                1 <= idx,
                exists|k: u8| 1 <= k && !#[trigger] self.liquidity_position_idx@.contains(k),
                forall|k: u8| 1 <= k < idx ==> #[trigger] self.liquidity_position_idx@.contains(k),
            decreases 255 - idx,
        {
            proof {
                let k = choose|k: u8| 1 <= k && !#[trigger] self.liquidity_position_idx@.contains(k);
                if idx == 255 {
                    assert(k <= idx);
                    if k < idx {
                        assert(self.liquidity_position_idx@.contains(k));
                    }
                }
            }
            idx = idx + 1;
        }
        idx
    }

    /// First slot holding the liquidity position `id`, which has to exist.
    pub fn find_liquidity_position_idx(&self, id: u8) -> (r: usize)
        requires
            self.liquidity_position_idx@.contains(id),
        ensures
            r == first_index(self.liquidity_position_idx@, id),
            is_first_index(self.liquidity_position_idx@, id, r as int),
    {
        let mut i: usize = 0;
        while i < 255
            invariant
                i <= 255,
                self.liquidity_position_idx@.contains(id),
                forall|j: int| 0 <= j < i ==> #[trigger] self.liquidity_position_idx[j] != id,
            decreases 255 - i,
        {
            if self.liquidity_position_idx[i] == id {
                proof {
                    lemma_first_index(self.liquidity_position_idx@, id, i as int);
                    let f = first_index(self.liquidity_position_idx@, id);
                    if f < i {
                        assert(self.liquidity_position_idx[f] != id);
                    }
                }
                return i;
            }
            i = i + 1;
        }
        proof {
            let k = choose|k: int|
                0 <= k < 255 && #[trigger] self.liquidity_position_idx@[k] == id;
            assert(self.liquidity_position_idx[k] != id);
        }
        0
    }

    /// Size of the liquidity position in slot `id`.
    pub fn liquidity_position(&self, id: u8) -> (r: u64)
        requires
            id < 255,
            id > 0 ==> self.liquidity_position_accumulated[id as int]
                >= self.liquidity_position_accumulated[id - 1],
        ensures
            r == position_size(self.liquidity_position_accumulated@, id as int),
    {
        if id > 0 {
            self.liquidity_position_accumulated[id as usize] - self.liquidity_position_accumulated[(
            id - 1) as usize]
        } else {
            self.liquidity_position_accumulated[id as usize]
        }
    }

    /// Used liquidity beyond the accumulated liquidity of the last slot.
    pub fn get_remaining_liquidity(&self) -> (r: u64)
        requires
            self.last_liquidity_position_idx < 255,
            self.used_liquidity
                >= self.liquidity_position_accumulated[self.last_liquidity_position_idx as int],
        ensures
            r == self.used_liquidity
                - self.liquidity_position_accumulated[self.last_liquidity_position_idx as int],
    {
        self.used_liquidity
            - self.liquidity_position_accumulated[self.last_liquidity_position_idx as usize]
    }

    /// Move the liquidity position after slot `idx` into slot `idx`,
    /// re-accumulating its size onto the slot before.
    pub fn shift_liquidity_position_left_by1(&mut self, idx: u8)
        requires
            idx < 254,
            can_shift(old(self).liquidity_position_accumulated@, idx as int),
        ensures
            final(self).liquidity_position_idx@ == old(self).liquidity_position_idx@.update(
                idx as int,
                old(self).liquidity_position_idx[idx + 1],
            ),
            final(self).liquidity_position_rewards@ == old(self).liquidity_position_rewards@.update(
                idx as int,
                old(self).liquidity_position_rewards[idx + 1],
            ),
            final(self).liquidity_position_accumulated@
                == old(self).liquidity_position_accumulated@.update(
                idx as int,
                shifted_accumulated(old(self).liquidity_position_accumulated@, idx as int),
            ),
            final(self).bump == old(self).bump,
            final(self).liquidity == old(self).liquidity,
            final(self).used_liquidity == old(self).used_liquidity,
            final(self).last_updated == old(self).last_updated,
            final(self).tick == old(self).tick,
            final(self).active == old(self).active,
            final(self).last_liquidity_position_idx == old(self).last_liquidity_position_idx,
    {
        let ghost before = *self;
        let current_index = idx as usize;
        self.liquidity_position_idx[current_index] = self.liquidity_position_idx[current_index + 1];
        self.liquidity_position_rewards[current_index] = self.liquidity_position_rewards[current_index
            + 1];
        if self.liquidity_position_accumulated[current_index + 1] == 0 {
            self.liquidity_position_accumulated[current_index] = 0;
        } else {
            let next_diff = self.liquidity_position_accumulated[current_index + 1]
                - self.liquidity_position_accumulated[current_index];
            if idx > 0 {
                self.liquidity_position_accumulated[current_index] =
                    self.liquidity_position_accumulated[current_index - 1] + next_diff;
            } else {
                self.liquidity_position_accumulated[current_index] = next_diff;
            }
        }
        proof {
            assert(self.liquidity_position_idx@ =~= before.liquidity_position_idx@.update(
                idx as int,
                before.liquidity_position_idx[idx + 1],
            ));
            assert(self.liquidity_position_rewards@ =~= before.liquidity_position_rewards@.update(
                idx as int,
                before.liquidity_position_rewards[idx + 1],
            ));
            assert(self.liquidity_position_accumulated@
                =~= before.liquidity_position_accumulated@.update(
                idx as int,
                shifted_accumulated(before.liquidity_position_accumulated@, idx as int),
            ));
        }
    }

    /// Read the runtime clock.
    pub fn get_unix_timestamp(&self) -> (r: Result<i64, TickError>)
        ensures
            r matches Err(e) ==> e.cause@ == "could not get tick timestamp"@,
    {
        match clock_unix_timestamp() {
            Some(t) => Ok(t),
            None => Err(TickError { cause: "could not get tick timestamp".to_string() }),
        }
    }

    /// Stamp the tick with the current time of the runtime clock.
    pub fn update_callback(&mut self) -> (r: Result<(), TickAnchorError>)
        ensures
            exists|t: Option<i64>| #[trigger] stamped(*old(self), *final(self), r, t),
    {
        let timestamp = match self.get_unix_timestamp() {
            Ok(t) => Some(t),
            Err(_) => None,
        };
        self.update_callback_with(timestamp)
    }

    /// Stamp the tick with the clock reading `timestamp` (`None` when the
    /// clock could not be read).
    pub fn update_callback_with(&mut self, timestamp: Option<i64>) -> (r: Result<
        (),
        TickAnchorError,
    >)
        ensures
            stamped(*old(self), *final(self), r, timestamp),
    {
        match timestamp {
            Some(t) => {
                self.last_updated = t;
                Ok(())
            },
            None => Err(TickAnchorError::CouldNotUpdateTimestamp),
        }
    }

    /// Buy insurance: take `size` of the tick's liquidity into use.
    pub fn buy_insurance(&mut self, size: u64) -> (r: Result<(), TickError>)
        requires
            old(self).used_liquidity + size <= u64::MAX,
        ensures
            old(self).used_liquidity + size > old(self).liquidity ==> (r matches Err(e) && e.cause@
                == "too little liquidity"@) && *final(self) == *old(self),
            old(self).used_liquidity + size <= old(self).liquidity ==> r is Ok && *final(self) == (Tick {
                used_liquidity: (old(self).used_liquidity + size) as u64,
                last_updated: final(self).last_updated,
                ..*old(self)
            }),
    {
        if self.used_liquidity + size > self.liquidity {
            return Err(TickError { cause: "too little liquidity".to_string() });
        }
        self.used_liquidity = self.used_liquidity + size;
        let _ = self.update_callback();
        Ok(())
    }

    /// Exit insurance: release `size` of the liquidity in use.
    pub fn exit_insurance(&mut self, size: u64) -> (r: Result<(), TickError>)
        requires
            old(self).liquidity >= size ==> old(self).used_liquidity >= size,
        ensures
            old(self).liquidity < size ==> (r matches Err(e) && e.cause@
                == "not possible to exit the pool."@) && *final(self) == *old(self),
            old(self).liquidity >= size ==> r is Ok && *final(self) == (Tick {
                used_liquidity: (old(self).used_liquidity - size) as u64,
                last_updated: final(self).last_updated,
                ..*old(self)
            }),
    {
        if self.liquidity < size {
            return Err(TickError { cause: "not possible to exit the pool.".to_string() });
        }
        self.used_liquidity = self.used_liquidity - size;
        let _ = self.update_callback();
        Ok(())
    }

    /// Add liquidity: a new position `id` of `size` in the first free slot
    /// (slot `last_liquidity_position_idx`, the number of positions), holding
    /// the running total of the liquidity provided and no rewards.
    pub fn add_liquidity(&mut self, id: u8, size: u64) -> (r: Result<(), TickError>)
        requires
            old(self).last_liquidity_position_idx < 255,
            old(self).last_liquidity_position_idx + 1 != 255 ==> old(self).liquidity + size
                <= u64::MAX && running_total(*old(self)) + size <= u64::MAX,
        ensures
            old(self).last_liquidity_position_idx + 1 == 255 ==> (r matches Err(e) && e.cause@
                == "no liquidity spots left"@) && *final(self) == *old(self),
            old(self).last_liquidity_position_idx + 1 != 255 ==> r is Ok && liquidity_added(
                *old(self),
                *final(self),
                id,
                size,
            ),
    {
        if MAX_NUMBER_OF_LIQUIDITY_POSITIONS == self.last_liquidity_position_idx + 1 {
            return Err(TickError { cause: "no liquidity spots left".to_string() });
        }
        let ghost before = *self;
        self.liquidity = self.liquidity + size;
        let next_liquidity_idx = self.last_liquidity_position_idx as usize;
        let liquidity_accumulated: u64 = if next_liquidity_idx > 0 {
            self.liquidity_position_accumulated[next_liquidity_idx - 1]
        } else {
            0
        };
        self.liquidity_position_idx[next_liquidity_idx] = id;
        self.liquidity_position_accumulated[next_liquidity_idx] = liquidity_accumulated + size;
        self.liquidity_position_rewards[next_liquidity_idx] = 0;
        self.last_liquidity_position_idx = self.last_liquidity_position_idx + 1;
        self.active = true;
        proof {
            assert(self.liquidity_position_idx@ =~= before.liquidity_position_idx@.update(
                next_liquidity_idx as int,
                id,
            ));
            assert(self.liquidity_position_accumulated@
                =~= before.liquidity_position_accumulated@.update(
                next_liquidity_idx as int,
                (liquidity_accumulated + size) as u64,
            ));
            assert(self.liquidity_position_rewards@
                =~= before.liquidity_position_rewards@.update(next_liquidity_idx as int, 0));
        }
        let _ = self.update_callback();
        Ok(())
    }

    /// Remove Liquidity
    ///
    /// Finds the position `id` and moves every position after it one slot
    /// to the left, their running totals less the removed position's size;
    /// the last slot is cleared. Ex: idx: [2,43,12,53,32,0,0], rm 12 ->
    /// [2,43,53,32,0,0,0]. A position can only be removed when its rewards
    /// are withdrawn and its liquidity is not in use.
    pub fn remove_liquidity(&mut self, id: u8) -> (r: Result<(), TickError>)
        requires
            old(self).liquidity_position_idx@.contains(id),
            ({
                let p = first_index(old(self).liquidity_position_idx@, id);
                old(self).liquidity_position_rewards[p] == 0 && old(self).used_liquidity <= old(
                    self,
                ).liquidity_position_accumulated[p] ==> removable(*old(self), p)
            }),
        ensures
            ({
                let p = first_index(old(self).liquidity_position_idx@, id);
                &&& old(self).liquidity_position_rewards[p] != 0 ==> (r matches Err(e) && e.cause@
                    == "rewards should be withdrawn"@) && *final(self) == *old(self)
                &&& old(self).liquidity_position_rewards[p] == 0 && old(self).used_liquidity > old(
                    self,
                ).liquidity_position_accumulated[p] ==> (r matches Err(e) && e.cause@
                    == "can not exit position as it is in use."@) && *final(self) == *old(self)
                &&& old(self).liquidity_position_rewards[p] == 0 && old(self).used_liquidity <= old(
                    self,
                ).liquidity_position_accumulated[p] ==> r is Ok && liquidity_removed(
                    *old(self),
                    *final(self),
                    p,
                )
            }),
    {
        let idx = self.find_liquidity_position_idx(id);
        if self.liquidity_position_rewards[idx] != 0 {
            return Err(TickError { cause: "rewards should be withdrawn".to_string() });
        }
        let accumulated_position = self.liquidity_position_accumulated[idx];
        if self.used_liquidity > accumulated_position {
            return Err(TickError { cause: "can not exit position as it is in use.".to_string() });
        }
        let liquidity_position_size = self.liquidity_position(idx as u8);
        let ghost before = *self;
        let ghost p = idx as int;
        let ghost count = before.last_liquidity_position_idx as int;
        let ghost ids = removed_at(before.liquidity_position_idx@, p, 0u8);
        let ghost rewards = removed_at(before.liquidity_position_rewards@, p, 0u64);
        let ghost acc = accumulated_after_removal(before.liquidity_position_accumulated@, p, count);
        let max_number_of_liquidity_positions_as_usize: usize = 254;
        let mut current_idx = idx;
        while current_idx < max_number_of_liquidity_positions_as_usize
            invariant
                max_number_of_liquidity_positions_as_usize == 254,
                p <= current_idx <= 254,
                removable(before, p),
                liquidity_position_size == position_size(before.liquidity_position_accumulated@, p),
                ids == removed_at(before.liquidity_position_idx@, p, 0u8),
                rewards == removed_at(before.liquidity_position_rewards@, p, 0u64),
                acc == accumulated_after_removal(before.liquidity_position_accumulated@, p, count),
                count == before.last_liquidity_position_idx,
                forall|k: int| 0 <= k < current_idx ==> #[trigger] self.liquidity_position_idx[k] == ids[k],
                forall|k: int| 0 <= k < current_idx ==> #[trigger] self.liquidity_position_rewards[k] == rewards[k],
                forall|k: int| 0 <= k < current_idx ==> #[trigger] self.liquidity_position_accumulated[k] == acc[k],
                forall|k: int| current_idx <= k < 255 ==> #[trigger] self.liquidity_position_idx[k] == before.liquidity_position_idx[k],
                forall|k: int| current_idx <= k < 255 ==> #[trigger] self.liquidity_position_rewards[k] == before.liquidity_position_rewards[k],
                forall|k: int| current_idx <= k < 255 ==> #[trigger] self.liquidity_position_accumulated[k] == before.liquidity_position_accumulated[k],
                *self == (Tick {
                    liquidity_position_idx: self.liquidity_position_idx,
                    liquidity_position_rewards: self.liquidity_position_rewards,
                    liquidity_position_accumulated: self.liquidity_position_accumulated,
                    ..before
                }),
            decreases 254 - current_idx,
        {
            proof {
                lemma_removal_step(before.liquidity_position_accumulated@, p, count, current_idx as int);
                if current_idx > p {
                    assert(self.liquidity_position_accumulated[current_idx - 1] == acc[current_idx - 1]);
                }
            }
            self.shift_liquidity_position_left_by1(current_idx as u8);
            proof {
                assert(self.liquidity_position_accumulated[current_idx as int] == acc[current_idx as int]);
            }
            current_idx = current_idx + 1;
        }
        self.liquidity_position_idx[max_number_of_liquidity_positions_as_usize] = 0;
        self.liquidity_position_rewards[max_number_of_liquidity_positions_as_usize] = 0;
        self.liquidity_position_accumulated[max_number_of_liquidity_positions_as_usize] = 0;
        self.last_liquidity_position_idx = self.last_liquidity_position_idx - 1;
        self.liquidity = self.liquidity - liquidity_position_size;
        if self.last_liquidity_position_idx == 0 {
            self.active = false;
        }
        proof {
            assert(self.liquidity_position_idx@ =~= ids);
            assert(self.liquidity_position_rewards@ =~= rewards);
            assert(self.liquidity_position_accumulated@ =~= acc);
        }
        let _ = self.update_callback();
        Ok(())
    }

    /// Free liquidity: the part of position `id` that is not in use.
    pub fn free_liquidity(&mut self, id: u8) -> (r: u64)
        requires
            id < 255,
            old(self).used_liquidity <= old(self).liquidity_position_accumulated[id as int] ==> id
                >= 1 && old(self).liquidity_position_accumulated[id as int] >= old(
                self,
            ).liquidity_position_accumulated[id - 1] && old(self).used_liquidity >= old(
                self,
            ).liquidity_position_accumulated[id - 1],
        ensures
            ({
                let acc = old(self).liquidity_position_accumulated;
                let used = old(self).used_liquidity;
                if used > acc[id as int] {
                    r == 0 && *final(self) == *old(self)
                } else if used > acc[id - 1] {
                    r == acc[id as int] - used && *final(self) == *old(self)
                } else {
                    r == acc[id as int] - acc[id - 1] && *final(self) == (Tick {
                        last_updated: final(self).last_updated,
                        ..*old(self)
                    })
                }
            }),
    {
        let current_index = id as usize;
        if self.used_liquidity > self.liquidity_position_accumulated[current_index] {
            return 0;
        }
        let liquidity_position_size = self.liquidity_position_accumulated[current_index]
            - self.liquidity_position_accumulated[current_index - 1];
        let diff = self.used_liquidity - self.liquidity_position_accumulated[current_index - 1];
        if diff > 0 {
            return liquidity_position_size - diff;
        }
        let _ = self.update_callback();
        liquidity_position_size
    }

    /// Get the rewards of position `id`.
    pub fn get_rewards(&mut self, id: u8) -> (r: Result<u64, TickError>)
        requires
            old(self).liquidity_position_idx@.contains(id),
        ensures
            r matches Ok(v) && v == old(self).liquidity_position_rewards[first_index(
                old(self).liquidity_position_idx@,
                id,
            )],
            *final(self) == (Tick { last_updated: final(self).last_updated, ..*old(self) }),
    {
        let idx = self.find_liquidity_position_idx(id);
        let _ = self.update_callback();
        Ok(self.liquidity_position_rewards[idx])
    }

    /// Withdraw the rewards of position `id`: they become zero.
    pub fn withdraw_rewards(&mut self, id: u8) -> (r: Result<(), TickError>)
        requires
            old(self).liquidity_position_idx@.contains(id),
        ensures
            r is Ok,
            final(self).liquidity_position_rewards@ == old(self).liquidity_position_rewards@.update(
                first_index(old(self).liquidity_position_idx@, id),
                0,
            ),
            *final(self) == (Tick {
                last_updated: final(self).last_updated,
                liquidity_position_rewards: final(self).liquidity_position_rewards,
                ..*old(self)
            }),
    {
        let idx = self.find_liquidity_position_idx(id);
        let ghost before = *self;
        self.liquidity_position_rewards[idx] = 0;
        proof {
            assert(self.liquidity_position_rewards@ =~= before.liquidity_position_rewards@.update(
                idx as int,
                0,
            ));
        }
        let _ = self.update_callback();
        Ok(())
    }

    /// Is the tick empty: nothing provided, nothing used, not active.
    pub fn is_empty(&self) -> (r: bool)
        ensures
            r == (self.used_liquidity == 0 && self.liquidity == 0 && !self.active),
    {
        self.used_liquidity == 0 && self.liquidity == 0 && !self.active
    }
}

/// Liquidity provided by all positions of the tick: the running total of its
/// last occupied slot (zero without positions).
pub open spec fn running_total(t: Tick) -> int {
    let count = t.last_liquidity_position_idx as int;
    if count > 0 {
        t.liquidity_position_accumulated[count - 1] as int
    } else {
        0
    }
}

/// What adding the position `id` of `size` leaves: the position in slot
/// `count` (the number of positions before), its running total the
/// previous one plus `size`.
pub open spec fn liquidity_added(old: Tick, new: Tick, id: u8, size: u64) -> bool {
    let n = old.last_liquidity_position_idx as int;
    &&& new.liquidity == old.liquidity + size
    &&& new.liquidity_position_idx@ == old.liquidity_position_idx@.update(n, id)
    &&& new.liquidity_position_accumulated@ == old.liquidity_position_accumulated@.update(
        n,
        (running_total(old) + size) as u64,
    )
    &&& new.liquidity_position_rewards@ == old.liquidity_position_rewards@.update(n, 0)
    &&& new.last_liquidity_position_idx == n + 1
    &&& new.active
    &&& new.bump == old.bump && new.used_liquidity == old.used_liquidity && new.tick == old.tick
}

/// The positions of the tick fill slots `0..count` with non-decreasing
/// running totals, and no liquidity is recorded after them.
pub open spec fn positions_contiguous(t: Tick) -> bool {
    let count = t.last_liquidity_position_idx as int;
    let acc = t.liquidity_position_accumulated;
    &&& forall|i: int, k: int| 0 <= i <= k < count ==> #[trigger] acc[i] <= #[trigger] acc[k]
    &&& forall|k: int| count <= k < 255 ==> #[trigger] acc[k] == 0
}

/// The position in slot `p` is one of the tick's positions, and taking it
/// out leaves the tick's liquidity non-negative.
pub open spec fn removable(old: Tick, p: int) -> bool {
    &&& 0 <= p < old.last_liquidity_position_idx
    &&& positions_contiguous(old)
    &&& old.liquidity >= position_size(old.liquidity_position_accumulated@, p)
}

/// `s` without its element `p`: the later elements one to the left and
/// `empty` in the last place.
pub open spec fn removed_at<A>(s: Seq<A>, p: int, empty: A) -> Seq<A> {
    Seq::new(
        s.len(),
        |j: int|
            if j < p {
                s[j]
            } else if j + 1 < s.len() {
                s[j + 1]
            } else {
                empty
            },
    )
}

/// Running totals once the position in slot `p` is taken out of the `count`
/// positions: the later ones move left, less the removed position's size.
pub open spec fn accumulated_after_removal(acc: Seq<u64>, p: int, count: int) -> Seq<u64> {
    Seq::new(
        acc.len(),
        |j: int|
            if j < p {
                acc[j]
            } else if j + 1 < count {
                (acc[j + 1] - position_size(acc, p)) as u64
            } else {
                0u64
            },
    )
}

/// What taking out the position in slot `p` leaves.
pub open spec fn liquidity_removed(old: Tick, new: Tick, p: int) -> bool {
    let count = old.last_liquidity_position_idx as int;
    &&& new.liquidity_position_idx@ == removed_at(old.liquidity_position_idx@, p, 0u8)
    &&& new.liquidity_position_rewards@ == removed_at(old.liquidity_position_rewards@, p, 0u64)
    &&& new.liquidity_position_accumulated@ == accumulated_after_removal(
        old.liquidity_position_accumulated@,
        p,
        count,
    )
    &&& new.last_liquidity_position_idx == count - 1
    &&& new.liquidity == old.liquidity - position_size(old.liquidity_position_accumulated@, p)
    &&& new.active == (if count - 1 == 0 {
        false
    } else {
        old.active
    })
    &&& new.bump == old.bump && new.used_liquidity == old.used_liquidity && new.tick == old.tick
}

/// One step of the removal: shifting slot `j` gives the running total the
/// removal asks for there.
proof fn lemma_removal_step(acc: Seq<u64>, p: int, count: int, j: int)
    requires
        acc.len() == 255,
        0 <= p < count <= 255,
        p <= j < 254,
        forall|i: int, k: int| 0 <= i <= k < count ==> #[trigger] acc[i] <= #[trigger] acc[k],
        forall|k: int| count <= k < 255 ==> #[trigger] acc[k] == 0,
    ensures
        ({
            let prev = if j > p {
                accumulated_after_removal(acc, p, count)[j - 1]
            } else if j > 0 {
                acc[j - 1]
            } else {
                0u64
            };
            let shifted = if acc[j + 1] == 0 {
                0
            } else if j > 0 {
                prev + (acc[j + 1] - acc[j])
            } else {
                acc[j + 1] - acc[j]
            };
            &&& acc[j + 1] != 0 ==> acc[j + 1] >= acc[j] && (j > 0 ==> prev + (acc[j + 1] - acc[j])
                <= u64::MAX)
            &&& shifted == accumulated_after_removal(acc, p, count)[j]
        }),
{
    if p > 0 {
        assert(acc[p - 1] <= acc[p]);
    }
    if j + 1 < count {
        assert(acc[j] <= acc[j + 1]);
        assert(acc[p] <= acc[j + 1]);
        assert(acc[p] <= acc[j]);
        if j > p {
            assert(acc[p] <= acc[j]);
        }
    }
    if j > p && j < count {
        assert(acc[p] <= acc[j]);
    }
}

/// What initializing a tick with the clock reading `timestamp` leaves.
pub open spec fn initialized_with(
    old: Tick,
    new: Tick,
    r: Result<(), SureError>,
    bump: u8,
    tick_bp: u64,
    timestamp: Option<i64>,
) -> bool {
    match timestamp {
        None => r == Err::<(), SureError>(SureError::ClockUnavailable) && new == (Tick {
            bump,
            liquidity: 0,
            used_liquidity: 0,
            ..old
        }),
        Some(t) => {
            &&& r is Ok
            &&& new.bump == bump && new.liquidity == 0 && new.used_liquidity == 0
            &&& new.last_updated == t && new.tick == tick_bp && new.active
            &&& new.last_liquidity_position_idx == old.last_liquidity_position_idx
            &&& forall|i: int| 0 <= i < 255 ==> #[trigger] new.liquidity_position_idx[i] == 0
            &&& forall|i: int| 0 <= i < 255 ==> #[trigger] new.liquidity_position_accumulated[i] == 0
            &&& forall|i: int| 0 <= i < 255 ==> #[trigger] new.liquidity_position_rewards[i] == 0
        },
    }
}

/// What stamping a tick with the clock reading `timestamp` leaves.
pub open spec fn stamped(old: Tick, new: Tick, r: Result<(), TickAnchorError>, timestamp: Option<i64>) -> bool {
    match timestamp {
        Some(t) => r is Ok && new == (Tick { last_updated: t, ..old }),
        None => r == Err::<(), TickAnchorError>(TickAnchorError::CouldNotUpdateTimestamp) && new
            == old,
    }
}

/// Buying insurance and then exiting the same amount gives back the tick,
/// but for the time of its last update.
pub proof fn law_buy_then_exit_restores(first: Tick, second: Tick, third: Tick, size: u64)
    requires
        first.used_liquidity + size <= first.liquidity,
        second == (Tick {
            used_liquidity: (first.used_liquidity + size) as u64,
            last_updated: second.last_updated,
            ..first
        }),
        third == (Tick {
            used_liquidity: (second.used_liquidity - size) as u64,
            last_updated: third.last_updated,
            ..second
        }),
    ensures
        third == (Tick { last_updated: third.last_updated, ..first }),
{
}

/// Adding a new position to a tick whose positions are contiguous and then
/// removing it gives the tick back, but for the time of its last update and
/// the tick being active exactly when it holds positions.
pub proof fn law_add_then_remove_restores(first: Tick, second: Tick, third: Tick, id: u8, size: u64)
    requires
        positions_contiguous(first),
        first.last_liquidity_position_idx < 254,
        forall|k: int|
            first.last_liquidity_position_idx <= k < 255 ==> #[trigger] first.liquidity_position_idx[k]
                == 0,
        forall|k: int|
            first.last_liquidity_position_idx <= k < 255
                ==> #[trigger] first.liquidity_position_rewards[k] == 0,
        !first.liquidity_position_idx@.contains(id),
        running_total(first) + size <= u64::MAX,
        liquidity_added(first, second, id, size),
        liquidity_removed(second, third, first_index(second.liquidity_position_idx@, id)),
    ensures
        third == (Tick {
            last_updated: third.last_updated,
            active: first.last_liquidity_position_idx > 0,
            ..first
        }),
{
    let c = first.last_liquidity_position_idx as int;
    assert(second.liquidity_position_idx@[c] == id);
    lemma_first_index(second.liquidity_position_idx@, id, c);
    let p = first_index(second.liquidity_position_idx@, id);
    if p < c {
        assert(first.liquidity_position_idx@[p] == id);
    }
    assert(p == c);
    assert(third.liquidity_position_idx@ =~= first.liquidity_position_idx@);
    assert(third.liquidity_position_rewards@ =~= first.liquidity_position_rewards@);
    assert(third.liquidity_position_accumulated@ =~= first.liquidity_position_accumulated@);
    assert(third.liquidity_position_idx == first.liquidity_position_idx);
    assert(third.liquidity_position_rewards == first.liquidity_position_rewards);
    assert(third.liquidity_position_accumulated == first.liquidity_position_accumulated);
}

/// A tick without positions is empty of positions again after a position is
/// added and removed: no liquidity, no slot in use, and inactive.
pub proof fn law_add_then_remove_empties(first: Tick, second: Tick, third: Tick, id: u8, size: u64)
    requires
        id != 0,
        !first.active,
        first.liquidity == 0,
        first.last_liquidity_position_idx == 0,
        forall|i: int| 0 <= i < 255 ==> #[trigger] first.liquidity_position_idx[i] == 0,
        forall|i: int| 0 <= i < 255 ==> #[trigger] first.liquidity_position_accumulated[i] == 0,
        forall|i: int| 0 <= i < 255 ==> #[trigger] first.liquidity_position_rewards[i] == 0,
        liquidity_added(first, second, id, size),
        liquidity_removed(second, third, first_index(second.liquidity_position_idx@, id)),
    ensures
        third.liquidity == 0,
        third.last_liquidity_position_idx == 0,
        !third.active,
        forall|i: int| 0 <= i < 255 ==> #[trigger] third.liquidity_position_idx[i] == 0,
        forall|i: int| 0 <= i < 255 ==> #[trigger] third.liquidity_position_accumulated[i] == 0,
        forall|i: int| 0 <= i < 255 ==> #[trigger] third.liquidity_position_rewards[i] == 0,
{
    assert(second.liquidity_position_idx@[0] == id);
    lemma_first_index(second.liquidity_position_idx@, id, 0);
    let p = first_index(second.liquidity_position_idx@, id);
    assert(p == 0);
    assert(second.liquidity_position_idx[1] == 0);
    assert(second.liquidity_position_accumulated[1] == 0);
    assert forall|i: int| 0 <= i < 255 implies #[trigger] third.liquidity_position_idx[i] == 0 by {
        assert(third.liquidity_position_idx@[i] == third.liquidity_position_idx[i]);
    }
    assert forall|i: int| 0 <= i < 255 implies #[trigger] third.liquidity_position_accumulated[i]
        == 0 by {
        assert(third.liquidity_position_accumulated@[i] == third.liquidity_position_accumulated[i]);
    }
    assert forall|i: int| 0 <= i < 255 implies #[trigger] third.liquidity_position_rewards[i]
        == 0 by {
        assert(third.liquidity_position_rewards@[i] == third.liquidity_position_rewards[i]);
    }
}

} // verus!
