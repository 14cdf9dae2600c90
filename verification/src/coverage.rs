//! Insurance contract representing the proof that a user has insurance.
use crate::errors::SureError;
use crate::runtime::clock_unix_timestamp;
use crate::tick_math::{get_sqrt_ratio_at_tick, sqrt_ratio_at_tick};
use crate::tick_v2::{get_tick_location, tick_location};
use anchor_lang::prelude::Pubkey;
use vstd::prelude::*;

verus! {

broadcast use vstd::array::group_array_axioms;

/// Max number of ticks to buy over
pub const NUM_TICKS_IN_COVERAGE_POSITION_USIZE: usize = 192;

/// TickCoveragePosition keeps information about the coverage position at a
/// given tick
#[derive(Clone, Copy, PartialEq, Eq, Debug, Structural)]
pub struct TickCoveragePosition {
    /// Amount of coverage bought at tick
    pub coverage_amount: u64,
}

impl Default for TickCoveragePosition {
    fn default() -> (r: Self)
        ensures
            r.coverage_amount == 0,
    {
        TickCoveragePosition { coverage_amount: 0 }
    }
}

/// Holds information about the contracts held by the user
pub struct CoveragePositions {
    /// owner of account
    pub owner: Pubkey,
    /// Vec of Pool PubKeys
    pub pools: Vec<Pubkey>,
}

impl CoveragePositions {
    pub const SPACE: usize = 1 + 32 + 4 + 32 * 256;
}

/// Accumulation of all insurance contracts for a user in a given pool.
pub struct CoveragePosition {
    /// bump seed
    pub bump: u8,
    /// Pool insured against
    pub pool: Pubkey,
    /// token mint
    pub position_mint: Pubkey,
    /// Contract expiry
    pub expiry_ts: i64,
    /// Contract start time
    pub start_ts: i64,
    /// Contract Amount
    pub covered_amount: u128,
    /// Owner of contract
    pub owner: Pubkey,
    /// start tick index
    pub start_tick_index: i32,
    /// last tick index with liquidity
    pub last_covered_tick_index: i32,
    /// Coverage amount at Ticks
    pub coverage_amount_ticks: [u128; 192],
    /// is active
    pub is_active: bool,
}

impl Default for CoveragePosition {
    fn default() -> (r: Self)
        ensures
            r.bump == 0,
            r.pool == r.owner && r.position_mint == r.owner,
            r.expiry_ts == 0,
            r.start_ts == 0,
            r.covered_amount == 0,
            r.start_tick_index == 0,
            r.last_covered_tick_index == 0,
            forall|i: int| 0 <= i < 192 ==> #[trigger] r.coverage_amount_ticks[i] == 0,
            !r.is_active,
    {
        let zero_key = Pubkey::default();
        CoveragePosition {
            bump: 0,
            pool: zero_key,
            position_mint: zero_key,
            expiry_ts: 0,
            start_ts: 0,
            covered_amount: 0,
            owner: zero_key,
            start_tick_index: 0,
            last_covered_tick_index: 0,
            coverage_amount_ticks: [0u128; 192],
            is_active: false,
        }
    }
}

/// One past the last position of `amounts` that holds coverage.
pub open spec fn last_covered_position(amounts: Seq<u128>, p: int) -> bool {
    &&& 1 <= p <= amounts.len()
    &&& amounts[p - 1] != 0
    &&& forall|j: int| p <= j < amounts.len() ==> #[trigger] amounts[j] == 0
}

/// The state after the start time has been updated with the clock reading
/// `timestamp`, and what the update returns.
pub open spec fn start_time_update(old: CoveragePosition, timestamp: Option<i64>) -> (
    CoveragePosition,
    Result<(), SureError>,
) {
    let cleared = if old.covered_amount == 0 {
        CoveragePosition { is_active: false, start_ts: 0, ..old }
    } else {
        old
    };
    match timestamp {
        None => (cleared, Err(SureError::ClockUnavailable)),
        Some(t) => (CoveragePosition { start_ts: t, is_active: true, ..cleared }, Ok(())),
    }
}

/// What a change of `delta` at location `loc` of the tick `tick_index`
/// leaves: the amounts, the last covered tick, the expiry and the start time
/// (from the clock reading `timestamp`), or the error of the step that failed.
pub open spec fn coverage_changed(
    old: CoveragePosition,
    new: CoveragePosition,
    r: Result<(), SureError>,
    loc: int,
    tick_index: i32,
    delta: u128,
    expiry_ts: i64,
    increase: bool,
    timestamp: Option<i64>,
) -> bool {
    let covered = if increase {
        old.covered_amount + delta
    } else {
        old.covered_amount - delta
    };
    let at_tick = if increase {
        old.coverage_amount_ticks[loc] + delta
    } else {
        old.coverage_amount_ticks[loc] - delta
    };
    if covered < 0 || covered > u128::MAX {
        &&& r == Err::<(), SureError>(
            if increase {
                SureError::AdditionQ3232OverflowError
            } else {
                SureError::SubtractionQ3232Error
            },
        )
        &&& new == old
    } else if at_tick < 0 || at_tick > u128::MAX {
        &&& r == Err::<(), SureError>(SureError::AdditionQ3232OverflowError)
        &&& new == (CoveragePosition { covered_amount: covered as u128, ..old })
    } else {
        &&& new.coverage_amount_ticks@ == old.coverage_amount_ticks@.update(loc, at_tick as u128)
        &&& new.covered_amount == covered
        &&& at_tick > 0 ==> new.last_covered_tick_index == (if tick_index
            > old.last_covered_tick_index {
            tick_index
        } else {
            old.last_covered_tick_index
        })
        &&& at_tick == 0 ==> last_covered_position(
            new.coverage_amount_ticks@,
            new.last_covered_tick_index as int,
        )
        &&& new.expiry_ts == expiry_ts
        &&& new.bump == old.bump && new.pool == old.pool && new.position_mint == old.position_mint
        &&& new.owner == old.owner && new.start_tick_index == old.start_tick_index
        &&& match timestamp {
            Some(t) => r is Ok && new.start_ts == t && new.is_active,
            None => {
                &&& r == Err::<(), SureError>(SureError::ClockUnavailable)
                &&& covered == 0 ==> !new.is_active && new.start_ts == 0
                &&& covered != 0 ==> new.is_active == old.is_active && new.start_ts == old.start_ts
            },
        }
    }
}

/// What updating the coverage at `tick_index` returns and leaves.
pub open spec fn coverage_update_result(
    old: CoveragePosition,
    new: CoveragePosition,
    r: Result<(), SureError>,
    tick_index: i32,
    tick_spacing: u16,
    delta: u128,
    expiry_ts: i64,
    increase: bool,
    timestamp: Option<i64>,
) -> bool {
    if old.out_of_bounds(tick_index, tick_spacing) {
        r == Err::<(), SureError>(SureError::TickOutOfRange) && new == old
    } else {
        match tick_location(old.start_tick_index, tick_index, tick_spacing) {
            Err(e) => r == Err::<(), SureError>(e) && new == old,
            Ok(loc) => coverage_changed(
                old,
                new,
                r,
                loc as int,
                tick_index,
                delta,
                expiry_ts,
                increase,
                timestamp,
            ),
        }
    }
}

/// Whether the change leaves no coverage at location `loc` while the total
/// stays in range.
pub open spec fn empties_tick(old: CoveragePosition, loc: int, delta: u128, increase: bool) -> bool {
    if increase {
        old.covered_amount + delta <= u128::MAX && old.coverage_amount_ticks[loc] + delta == 0
    } else {
        old.covered_amount >= delta && old.coverage_amount_ticks[loc] == delta
    }
}

/// The requirement that a change which empties its tick leaves coverage at
/// some other tick.
pub open spec fn keeps_some_coverage(
    old: CoveragePosition,
    tick_index: i32,
    tick_spacing: u16,
    delta: u128,
    increase: bool,
) -> bool {
    match tick_location(old.start_tick_index, tick_index, tick_spacing) {
        Ok(loc) => !old.out_of_bounds(tick_index, tick_spacing) && empties_tick(
            old,
            loc as int,
            delta,
            increase,
        ) ==> exists|i: int|
            0 <= i < 192 && i != loc && #[trigger] old.coverage_amount_ticks[i] != 0,
        Err(_) => true,
    }
}

impl CoveragePosition {
    pub const SPACE: usize = 32 + 32 + 8 + 8 + 32 + 192 * 8;

    /// Highest tick index the position can cover.
    pub open spec fn max_tick_index(self, tick_spacing: u16) -> int {
        self.start_tick_index + 192 * tick_spacing
    }

    /// Whether `tick_index` lies outside `[start_tick_index, max_tick_index]`.
    pub open spec fn out_of_bounds(self, tick_index: i32, tick_spacing: u16) -> bool {
        tick_index < self.start_tick_index || tick_index > self.max_tick_index(tick_spacing)
    }

    /// Open the position, with the current time of the runtime clock as its
    /// expiry.
    pub fn initialize(
        &mut self,
        bump: u8,
        position_owner: Pubkey,
        position_mint: Pubkey,
        start_tick_index: i32,
    ) -> (r: Result<(), SureError>)
        ensures
            r is Err ==> r == Err::<(), SureError>(SureError::ClockUnavailable) && *final(self)
                == *old(self),
            r is Ok ==> *final(self) == (CoveragePosition {
                bump,
                expiry_ts: final(self).expiry_ts,
                covered_amount: 0,
                position_mint,
                owner: position_owner,
                start_tick_index,
                is_active: false,
                ..*old(self)
            }),
    {
        match clock_unix_timestamp() {
            None => Err(SureError::ClockUnavailable),
            Some(now) => {
                self.initialize_at(bump, position_owner, position_mint, start_tick_index, now);
                Ok(())
            },
        }
    }

    /// Open the position at time `timestamp_now`, which becomes its expiry.
    pub fn initialize_at(
        &mut self,
        bump: u8,
        position_owner: Pubkey,
        position_mint: Pubkey,
        start_tick_index: i32,
        timestamp_now: i64,
    )
        ensures
            *final(self) == (CoveragePosition {
                bump,
                expiry_ts: timestamp_now,
                covered_amount: 0,
                position_mint,
                owner: position_owner,
                start_tick_index,
                is_active: false,
                ..*old(self)
            }),
    {
        self.bump = bump;
        self.expiry_ts = timestamp_now;
        self.covered_amount = 0;
        self.position_mint = position_mint;
        self.owner = position_owner;
        self.start_tick_index = start_tick_index;
        self.is_active = false;
    }

    /// Update the position from the result of a coverage change: its new
    /// coverage amount and expiry.
    pub fn update_from_coverage_update(&mut self, coverage_amount: u128, expiry_ts: i64)
        ensures
            *final(self) == (CoveragePosition {
                expiry_ts,
                covered_amount: coverage_amount,
                ..*old(self)
            }),
    {
        self.expiry_ts = expiry_ts;
        self.covered_amount = coverage_amount;
    }

    /// Highest tick index the position can cover.
    pub fn get_max_tick_index(&self, tick_spacing: u16) -> (r: i32)
        requires
            self.max_tick_index(tick_spacing) <= i32::MAX,
        ensures
            r == self.max_tick_index(tick_spacing),
    {
        self.start_tick_index + 192i32 * tick_spacing as i32
    }

    /// Square root price (Q32.64) at the start tick.
    pub fn get_lowest_sqrt_price_x32(&self) -> (r: Result<u128, SureError>)
        requires
            self.start_tick_index != i32::MIN,
        ensures
            r == Ok::<u128, SureError>(sqrt_ratio_at_tick(self.start_tick_index) as u128),
    {
        get_sqrt_ratio_at_tick(self.start_tick_index)
    }

    /// Location of the last covered tick index from the start tick.
    pub fn get_current_coverage_position(&self, tick_spacing: u16) -> (r: Result<i32, SureError>)
        requires
            self.last_covered_tick_index < self.start_tick_index || self.last_covered_tick_index
                - self.start_tick_index <= i32::MAX,
        ensures
            r == tick_location(self.start_tick_index, self.last_covered_tick_index, tick_spacing),
    {
        get_tick_location(self.start_tick_index, self.last_covered_tick_index, tick_spacing)
    }

    /// Coverage bought at `tick_index`.
    pub fn get_coverage_at_tick_index(&self, tick_index: i32, tick_spacing: u16) -> (r: Result<
        u128,
        SureError,
    >)
        requires
            tick_index < self.start_tick_index || tick_index - self.start_tick_index <= i32::MAX,
        ensures
            match tick_location(self.start_tick_index, tick_index, tick_spacing) {
                Err(e) => r == Err::<u128, SureError>(e),
                Ok(loc) => r == Ok::<u128, SureError>(self.coverage_amount_ticks[loc as int]),
            },
    {
        let loc = get_tick_location(self.start_tick_index, tick_index, tick_spacing)?;
        Ok(self.coverage_amount_ticks[loc as usize])
    }

    /// Set start time for contract from the runtime clock.
    pub fn update_start_time(&mut self) -> (r: Result<(), SureError>)
        ensures
            exists|t: Option<i64>| (*final(self), r) == #[trigger] start_time_update(*old(self), t),
    {
        let timestamp = clock_unix_timestamp();
        self.apply_start_time(timestamp)
    }

    /// Set start time for contract from the clock reading `timestamp`
    /// (`None` when the clock could not be read).
    pub fn apply_start_time(&mut self, timestamp: Option<i64>) -> (r: Result<(), SureError>)
        ensures
            (*final(self), r) == start_time_update(*old(self), timestamp),
    {
        if self.covered_amount == 0 {
            self.is_active = false;
            self.start_ts = 0;
        }
        match timestamp {
            None => Err(SureError::ClockUnavailable),
            Some(t) => {
                self.start_ts = t;
                self.is_active = true;
                Ok(())
            },
        }
    }

    /// Update coverage position based on a change at a tick; the start time
    /// is then set from the runtime clock.
    ///
    /// * Arguments
    /// - coverage_delta: coverage amount added (or removed) at the given tick
    pub fn update_coverage_at_tick(
        &mut self,
        tick_index: i32,
        tick_spacing: u16,
        coverage_delta: u128,
        expiry_ts: i64,
        increase: bool,
    ) -> (r: Result<(), SureError>)
        requires
            old(self).max_tick_index(tick_spacing) <= i32::MAX,
            keeps_some_coverage(*old(self), tick_index, tick_spacing, coverage_delta, increase),
        ensures
            exists|t: Option<i64>| #[trigger]
                coverage_update_result(
                    *old(self),
                    *final(self),
                    r,
                    tick_index,
                    tick_spacing,
                    coverage_delta,
                    expiry_ts,
                    increase,
                    t,
                ),
    {
        let timestamp = clock_unix_timestamp();
        self.update_coverage_at_tick_with(
            tick_index,
            tick_spacing,
            coverage_delta,
            expiry_ts,
            increase,
            timestamp,
        )
    }

    /// Update coverage position based on a change at a tick, with the clock
    /// reading `timestamp` for the start time.
    pub fn update_coverage_at_tick_with(
        &mut self,
        tick_index: i32,
        tick_spacing: u16,
        coverage_delta: u128,
        expiry_ts: i64,
        increase: bool,
        timestamp: Option<i64>,
    ) -> (r: Result<(), SureError>)
        requires
            old(self).max_tick_index(tick_spacing) <= i32::MAX,
            keeps_some_coverage(*old(self), tick_index, tick_spacing, coverage_delta, increase),
        ensures
            coverage_update_result(
                *old(self),
                *final(self),
                r,
                tick_index,
                tick_spacing,
                coverage_delta,
                expiry_ts,
                increase,
                timestamp,
            ),
    {
        if self.is_tick_index_out_of_bounds(tick_index, tick_spacing, increase) {
            return Err(SureError::TickOutOfRange);
        }
        let max_tick_index = self.get_max_tick_index(tick_spacing);
        if tick_index > max_tick_index || tick_index < self.start_tick_index {
            return Err(SureError::TickOutOfRange);
        }
        let tick_location = get_tick_location(self.start_tick_index, tick_index, tick_spacing)?;
        let loc = tick_location as usize;
        let ghost before = *self;
        if increase {
            self.covered_amount = match self.covered_amount.checked_add(coverage_delta) {
                Some(v) => v,
                None => return Err(SureError::AdditionQ3232OverflowError),
            };
            self.coverage_amount_ticks[loc] = match self.coverage_amount_ticks[loc].checked_add(
                coverage_delta,
            ) {
                Some(v) => v,
                None => return Err(SureError::AdditionQ3232OverflowError),
            };
        } else {
            self.covered_amount = match self.covered_amount.checked_sub(coverage_delta) {
                Some(v) => v,
                None => return Err(SureError::SubtractionQ3232Error),
            };
            self.coverage_amount_ticks[loc] = match self.coverage_amount_ticks[loc].checked_sub(
                coverage_delta,
            ) {
                Some(v) => v,
                None => return Err(SureError::AdditionQ3232OverflowError),
            };
        }
        proof {
            assert(self.coverage_amount_ticks@ =~= before.coverage_amount_ticks@.update(
                loc as int,
                self.coverage_amount_ticks[loc as int],
            ));
        }
        // update the last active tick index
        if self.coverage_amount_ticks[loc] > 0 {
            if tick_index > self.last_covered_tick_index {
                self.last_covered_tick_index = tick_index;
            }
        } else {
            proof {
                let i = choose|i: int|
                    0 <= i < 192 && i != loc && #[trigger] before.coverage_amount_ticks[i] != 0;
                assert(self.coverage_amount_ticks[i] != 0);
            }
            let last = self.get_last_coverage_position();
            self.last_covered_tick_index = match last {
                Ok(p) => p,
                Err(e) => return Err(e),
            };
        }
        self.expiry_ts = expiry_ts;
        // check if the contract is active
        self.apply_start_time(timestamp)
    }

    /// Get the last covered tick: one past the last position that holds
    /// coverage.
    pub fn get_last_coverage_position(&self) -> (r: Result<i32, SureError>)
        requires
            exists|i: int| 0 <= i < 192 && #[trigger] self.coverage_amount_ticks[i] != 0,
        ensures
            r matches Ok(p) && last_covered_position(self.coverage_amount_ticks@, p as int),
    {
        let mut i: usize = 192;
        while i > 0
            invariant
                i <= 192,
                exists|k: int| 0 <= k < i && #[trigger] self.coverage_amount_ticks[k] != 0,
                forall|j: int| i <= j < 192 ==> #[trigger] self.coverage_amount_ticks[j] == 0,
            decreases i,
        {
            if self.coverage_amount_ticks[i - 1] != 0 {
                return Ok(i as i32);
            }
            i = i - 1;
        }
        Ok(0)
    }

    /// Check if the provided tick_index is beyond the bounds of the position.
    pub fn is_tick_index_out_of_bounds(&self, tick_index: i32, tick_spacing: u16, a_to_b: bool) -> (r:
        bool)
        requires
            self.max_tick_index(tick_spacing) <= i32::MAX,
        ensures
            r == self.out_of_bounds(tick_index, tick_spacing),
    {
        tick_index < self.start_tick_index || tick_index > self.get_max_tick_index(tick_spacing)
    }
}

/// Buying coverage at a tick and then selling the same amount at the same
/// tick gives back the covered amount and the coverage at every tick.
pub proof fn law_coverage_round_trip(
    first: CoveragePosition,
    second: CoveragePosition,
    third: CoveragePosition,
    loc: int,
    tick_index: i32,
    delta: u128,
    expiry_ts: i64,
    later_expiry_ts: i64,
    t1: Option<i64>,
    t2: Option<i64>,
)
    requires
        0 <= loc < 192,
        first.covered_amount + delta <= u128::MAX,
        first.coverage_amount_ticks[loc] + delta <= u128::MAX,
        coverage_changed(first, second, Ok(()), loc, tick_index, delta, expiry_ts, true, t1),
        coverage_changed(second, third, Ok(()), loc, tick_index, delta, later_expiry_ts, false, t2),
    ensures
        third.covered_amount == first.covered_amount,
        third.coverage_amount_ticks@ == first.coverage_amount_ticks@,
{
    assert(third.coverage_amount_ticks@ =~= first.coverage_amount_ticks@);
}


/// The last covered tick is the highest tick holding coverage: an update that
/// leaves coverage at its tick makes the last covered tick the higher of the
/// old one and that tick, so it never comes down.
pub proof fn law_coverage_last_tick_is_highest(
    old: CoveragePosition,
    new: CoveragePosition,
    r: Result<(), SureError>,
    tick_index: i32,
    tick_spacing: u16,
    delta: u128,
    expiry_ts: i64,
    increase: bool,
    timestamp: Option<i64>,
    loc: i32,
)
    requires
        coverage_update_result(
            old,
            new,
            r,
            tick_index,
            tick_spacing,
            delta,
            expiry_ts,
            increase,
            timestamp,
        ),
        r is Ok || r == Err::<(), SureError>(SureError::ClockUnavailable),
        tick_location(old.start_tick_index, tick_index, tick_spacing) == Ok::<i32, SureError>(loc),
        new.coverage_amount_ticks[loc as int] > 0,
    ensures
        new.last_covered_tick_index == (if tick_index > old.last_covered_tick_index {
            tick_index
        } else {
            old.last_covered_tick_index
        }),
        new.last_covered_tick_index >= old.last_covered_tick_index,
        new.last_covered_tick_index >= tick_index,
{
    assert(0 <= loc < 64);
    assert(new.coverage_amount_ticks@[loc as int] == new.coverage_amount_ticks[loc as int]);
}

/// An update that goes through moves `delta` of coverage at its tick and in
/// total, into the position when increasing and out of it otherwise, and
/// leaves every other tick's coverage as it was.
pub proof fn law_coverage_update_moves_delta(
    old: CoveragePosition,
    new: CoveragePosition,
    r: Result<(), SureError>,
    tick_index: i32,
    tick_spacing: u16,
    delta: u128,
    expiry_ts: i64,
    increase: bool,
    timestamp: Option<i64>,
    loc: i32,
)
    requires
        coverage_update_result(
            old,
            new,
            r,
            tick_index,
            tick_spacing,
            delta,
            expiry_ts,
            increase,
            timestamp,
        ),
        r is Ok || r == Err::<(), SureError>(SureError::ClockUnavailable),
        tick_location(old.start_tick_index, tick_index, tick_spacing) == Ok::<i32, SureError>(loc),
    ensures
        new.covered_amount == (if increase {
            old.covered_amount + delta
        } else {
            old.covered_amount - delta
        }),
        new.coverage_amount_ticks[loc as int] == (if increase {
            old.coverage_amount_ticks[loc as int] + delta
        } else {
            old.coverage_amount_ticks[loc as int] - delta
        }),
        forall|j: int|
            0 <= j < 192 && j != loc ==> #[trigger] new.coverage_amount_ticks[j]
                == old.coverage_amount_ticks[j],
{
    assert(0 <= loc < 64);
    assert forall|j: int| 0 <= j < 192 && j != loc implies #[trigger] new.coverage_amount_ticks[j]
        == old.coverage_amount_ticks[j] by {
        assert(new.coverage_amount_ticks@[j] == new.coverage_amount_ticks[j]);
    }
    assert(new.coverage_amount_ticks@[loc as int] == new.coverage_amount_ticks[loc as int]);
}
} // verus!
