//! Ticks and tick arrays of a concentrated-liquidity pool.
//!
//! A tick keeps the liquidity that starts or ends at its price and the fee
//! growth on the side of it away from the current price. Tick arrays hold
//! `NUM_TICKS_IN_TICK_ARRAY` consecutive ticks, `tick_spacing` apart.
use crate::errors::SureError;
use crate::product::ProductType;
use crate::tick_math::{
    calculate_premium_at, calculate_premium_diff_at, calculate_yearly_premium,
    get_sqrt_ratio_at_tick, premium_at, yearly_premium,
    premium_change_at, sqrt_ratio_at_tick,
    MAX_TICK_INDEX, MIN_TICK_INDEX,
};
use crate::runtime::clock_unix_timestamp;
use crate::u256::pow128;
use anchor_lang::prelude::Pubkey;
use vstd::prelude::*;

verus! {

broadcast use vstd::array::group_array_axioms;

pub const NUM_TICKS_IN_TICK_ARRAY: i32 = 64;

pub const NUM_TICKS_IN_TICK_ARRAY_USIZE: usize = 64;

/// Denominator of protocol and founder fee rates (basis points).
pub const MAX_PROTOCOL_FEE: usize = 10_000;

/// Denominator of the coverage fee rate (hundredths of a basis point).
#[allow(non_upper_case_globals)]
pub const MAX_100th_BP: usize = 1_000_000;

/// Absolute value of an `i128` as a mathematical integer.
pub open spec fn abs_i128(x: i128) -> int {
    if x < 0 {
        -(x as int)
    } else {
        x as int
    }
}

/// Liquidity after adding a signed delta, or the error for leaving the `u128` range.
pub open spec fn liquidity_after_delta(liquidity: u128, delta: i128) -> Result<u128, SureError> {
    if delta >= 0 {
        if liquidity + delta > u128::MAX {
            Err(SureError::LiquidityOverflow)
        } else {
            Ok((liquidity + delta) as u128)
        }
    } else {
        if liquidity + delta < 0 {
            Err(SureError::LiquidityUnderflow)
        } else {
            Ok((liquidity + delta) as u128)
        }
    }
}

/// Tick
#[derive(Clone, Copy, PartialEq, Eq, Debug, Structural)]
pub struct Tick {
    /// Amount of liquidity added (removed, if negative)
    /// when the tick is crossed going left to right.
    pub liquidity_net: i128,
    /// The total amount of liquidity referencing the tick.
    /// If liquidity_net = 0, liquidity_gross indicates
    /// whether the tick is referenced by a position.
    pub liquidity_gross: u128,
    /// Liquidity locked in long term commitments.
    pub liquidity_locked: u128,
    /// Fee growth on the far side of the tick, token 0 (Q64.64).
    pub fee_growth_outside_0_x64: u128,
    /// Fee growth on the far side of the tick, token 1 (Q64.64).
    pub fee_growth_outside_1_x64: u128,
}

impl Default for Tick {
    fn default() -> (r: Tick)
        ensures
            r == Tick::empty(),
    {
        Tick {
            liquidity_net: 0,
            liquidity_gross: 0,
            liquidity_locked: 0,
            fee_growth_outside_0_x64: 0,
            fee_growth_outside_1_x64: 0,
        }
    }
}

/// Tick state computed by the pool logic, to be written into a tick.
#[derive(Clone, Copy, PartialEq, Eq, Debug, Structural)]
pub struct TickUpdate {
    pub initialized: bool,
    pub liquidity_net: i128,
    pub liquidity_gross: u128,
    pub liquidity_locked: u128,
    pub fee_growth_outside_0: u128,
    pub fee_growth_outside_1: u128,
}

impl Default for TickUpdate {
    fn default() -> (r: TickUpdate)
        ensures
            r == TickUpdate::empty(),
    {
        TickUpdate {
            initialized: false,
            liquidity_net: 0,
            liquidity_gross: 0,
            liquidity_locked: 0,
            fee_growth_outside_0: 0,
            fee_growth_outside_1: 0,
        }
    }
}

impl TickUpdate {
    /// The all-zero, uninitialized update.
    pub open spec fn empty() -> TickUpdate {
        TickUpdate {
            initialized: false,
            liquidity_net: 0,
            liquidity_gross: 0,
            liquidity_locked: 0,
            fee_growth_outside_0: 0,
            fee_growth_outside_1: 0,
        }
    }

    /// The update that restates a tick as it is.
    pub open spec fn of_tick(tick: Tick) -> TickUpdate {
        TickUpdate {
            initialized: tick.liquidity_gross != 0,
            liquidity_net: tick.liquidity_net,
            liquidity_gross: tick.liquidity_gross,
            liquidity_locked: tick.liquidity_locked,
            fee_growth_outside_0: tick.fee_growth_outside_0_x64,
            fee_growth_outside_1: tick.fee_growth_outside_1_x64,
        }
    }

    pub fn from(tick: &Tick) -> (r: Self)
        ensures
            r == TickUpdate::of_tick(*tick),
    {
        TickUpdate {
            initialized: tick.is_initialized(),
            liquidity_net: tick.liquidity_net,
            liquidity_gross: tick.liquidity_gross,
            liquidity_locked: tick.liquidity_locked,
            fee_growth_outside_0: tick.fee_growth_outside_0_x64,
            fee_growth_outside_1: tick.fee_growth_outside_1_x64,
        }
    }
}

/// A full set of tick values.
pub struct NewTick {
    pub liquidity_net: i128,
    pub liquidity_gross: u128,
    pub liquidity_locked: u128,
    pub fee_growth_outside_0_x32: u128,
    pub fee_growth_outside_1_x32: u128,
}

impl NewTick {
    pub fn from(tick: &Tick) -> (r: NewTick)
        ensures
            r.liquidity_net == tick.liquidity_net,
            r.liquidity_gross == tick.liquidity_gross,
            r.liquidity_locked == tick.liquidity_locked,
            r.fee_growth_outside_0_x32 == tick.fee_growth_outside_0_x64,
            r.fee_growth_outside_1_x32 == tick.fee_growth_outside_1_x64,
    {
        NewTick {
            liquidity_net: tick.liquidity_net,
            liquidity_gross: tick.liquidity_gross,
            liquidity_locked: tick.liquidity_locked,
            fee_growth_outside_0_x32: tick.fee_growth_outside_0_x64,
            fee_growth_outside_1_x32: tick.fee_growth_outside_1_x64,
        }
    }
}

/// Whether a tick index lies in the tick range and on the spacing grid.
pub open spec fn valid_tick(tick_index: i32, tick_spacing: u16) -> bool {
    MIN_TICK_INDEX <= tick_index <= MAX_TICK_INDEX && (tick_index as int) % (tick_spacing as int)
        == 0
}

/// Fee growth below and above a tick range, relative to the current tick.
pub open spec fn fee_growth_inside(
    lower: Tick,
    tick_lower_index: i32,
    upper: Tick,
    tick_upper_index: i32,
    tick_current_index: i32,
    global_0: u128,
    global_1: u128,
) -> (u128, u128) {
    let (below_0, below_1) = if lower.liquidity_gross == 0 {
        (global_0, global_1)
    } else if tick_current_index < tick_lower_index {
        (
            global_0.wrapping_sub(lower.fee_growth_outside_0_x64),
            global_1.wrapping_sub(lower.fee_growth_outside_1_x64),
        )
    } else {
        (lower.fee_growth_outside_0_x64, lower.fee_growth_outside_1_x64)
    };
    let (above_0, above_1) = if upper.liquidity_gross == 0 {
        (0u128, 0u128)
    } else if tick_current_index < tick_upper_index {
        (upper.fee_growth_outside_0_x64, upper.fee_growth_outside_1_x64)
    } else {
        (
            global_0.wrapping_sub(upper.fee_growth_outside_0_x64),
            global_1.wrapping_sub(upper.fee_growth_outside_1_x64),
        )
    };
    (
        global_0.wrapping_sub(below_0).wrapping_sub(above_0),
        global_1.wrapping_sub(below_1).wrapping_sub(above_1),
    )
}

impl Tick {
    pub const SIZE: usize = 16 + 16 + 16 + 16 + 16;

    /// The empty tick.
    pub open spec fn empty() -> Tick {
        Tick {
            liquidity_net: 0,
            liquidity_gross: 0,
            liquidity_locked: 0,
            fee_growth_outside_0_x64: 0,
            fee_growth_outside_1_x64: 0,
        }
    }

    /// The liquidity sum `gross + |net|` is representable.
    pub open spec fn liquidity_sum_fits(self) -> bool {
        self.liquidity_net != i128::MIN && self.liquidity_gross + abs_i128(self.liquidity_net)
            <= u128::MAX
    }

    /// Liquidity available at the tick: `gross + |net|`.
    pub open spec fn available_liquidity(self) -> int {
        self.liquidity_gross + abs_i128(self.liquidity_net)
    }

    /// Update tick with a NewTick object
    ///
    /// The locked liquidity is set from the new gross liquidity.
    pub fn update(&mut self, new_tick: &NewTick)
        ensures
            final(self).liquidity_net == new_tick.liquidity_net,
            final(self).liquidity_gross == new_tick.liquidity_gross,
            final(self).liquidity_locked == new_tick.liquidity_gross,
            final(self).fee_growth_outside_0_x64 == new_tick.fee_growth_outside_0_x32,
            final(self).fee_growth_outside_1_x64 == new_tick.fee_growth_outside_1_x32,
    {
        self.liquidity_net = new_tick.liquidity_net;
        self.liquidity_gross = new_tick.liquidity_gross;
        self.liquidity_locked = new_tick.liquidity_gross;
        self.fee_growth_outside_0_x64 = new_tick.fee_growth_outside_0_x32;
        self.fee_growth_outside_1_x64 = new_tick.fee_growth_outside_1_x32;
    }

    /// Check if the given tick_index is valid: within the tick range and a
    /// multiple of the tick spacing.
    pub fn is_valid_tick(tick_index: i32, tick_spacing: u16) -> (r: bool)
        requires
            tick_spacing != 0 || tick_index < MIN_TICK_INDEX || tick_index > MAX_TICK_INDEX,
        ensures
            r == valid_tick(tick_index, tick_spacing),
    {
        if tick_index < MIN_TICK_INDEX || tick_index > MAX_TICK_INDEX {
            return false;
        }
        let rem = tick_index % tick_spacing as i32;
        proof {
            lemma_mod_zero_neg(tick_index as int, tick_spacing as int);
        }
        rem == 0
    }

    pub fn is_initialized(&self) -> (r: bool)
        ensures
            r == (self.liquidity_gross != 0),
    {
        if self.liquidity_gross == 0 {
            false
        } else {
            true
        }
    }

    pub fn is_available_liquidity(&self) -> (r: bool)
        requires
            self.liquidity_sum_fits(),
        ensures
            r == (self.available_liquidity() > 0),
    {
        let potential_available_liquidity = self.get_available_liquidity();
        if potential_available_liquidity > 0 {
            true
        } else {
            false
        }
    }

    pub fn get_available_liquidity(&self) -> (r: u128)
        requires
            self.liquidity_sum_fits(),
        ensures
            r == self.available_liquidity(),
    {
        let liquidity_net_abs = if self.liquidity_net < 0 {
            (-self.liquidity_net) as u128
        } else {
            self.liquidity_net as u128
        };
        self.liquidity_gross + liquidity_net_abs
    }

    pub fn get_available_coverage_liquidity(&self) -> (r: u128)
        requires
            self.liquidity_sum_fits(),
            self.liquidity_locked <= self.available_liquidity(),
        ensures
            r == self.available_liquidity() - self.liquidity_locked,
    {
        let liquidity_net_abs = if self.liquidity_net < 0 {
            (-self.liquidity_net) as u128
        } else {
            self.liquidity_net as u128
        };
        self.liquidity_gross + liquidity_net_abs - self.liquidity_locked
    }

    /// Calculate the next liquidity update
    ///
    /// Adds `liquidity_delta` to the gross liquidity and to (lower tick) or
    /// from (upper tick) the net liquidity. A tick that is initialized here
    /// records the global fee growth as outside growth when the current tick
    /// is at or above it. A tick left without gross liquidity is reset.
    ///
    /// if productType is coverage then token 0 will be the
    /// only liquidity pool while the token 1 vault will be
    /// the premium account
    #[allow(non_snake_case)]
    pub fn calculate_next_liquidity_update(
        &self,
        tick_index: i32,
        tick_current_index: i32,
        fee_growth_global_0_x64: u128,
        fee_growth_global_1_x64: u128,
        liquidity_delta: i128,
        productType: &ProductType,
        is_upper_tick: bool,
    ) -> (r: Result<TickUpdate, SureError>)
        requires
            liquidity_delta != i128::MIN,
        ensures
            r == self.next_liquidity_update(
                tick_index,
                tick_current_index,
                fee_growth_global_0_x64,
                fee_growth_global_1_x64,
                liquidity_delta,
                is_upper_tick,
            ),
    {
        if liquidity_delta == 0 {
            return Ok(TickUpdate::from(self));
        }
        let next_liquidity_gross = add_liquidity_delta(self.liquidity_gross, liquidity_delta)?;
        if next_liquidity_gross == 0 {
            return Ok(TickUpdate::default());
        }
        let (next_fee_growth_outside_0, next_fee_growth_outside_1) = if self.liquidity_gross == 0 {
            if tick_current_index >= tick_index {
                (fee_growth_global_0_x64, fee_growth_global_1_x64)
            } else {
                (0, 0)
            }
        } else {
            (self.fee_growth_outside_0_x64, self.fee_growth_outside_1_x64)
        };
        let next_liquidity_net = if is_upper_tick {
            match self.liquidity_net.checked_sub(liquidity_delta) {
                Some(v) => v,
                None => return Err(SureError::SubtractionQ3232Error),
            }
        } else {
            match self.liquidity_net.checked_add(liquidity_delta) {
                Some(v) => v,
                None => return Err(SureError::AdditionQ3232OverflowError),
            }
        };
        Ok(
            TickUpdate {
                initialized: true,
                liquidity_net: next_liquidity_net,
                liquidity_gross: next_liquidity_gross,
                liquidity_locked: self.liquidity_locked,
                fee_growth_outside_0: next_fee_growth_outside_0,
                fee_growth_outside_1: next_fee_growth_outside_1,
            },
        )
    }

    /// The result of `calculate_next_liquidity_update`.
    pub open spec fn next_liquidity_update(
        self,
        tick_index: i32,
        tick_current_index: i32,
        global_0: u128,
        global_1: u128,
        liquidity_delta: i128,
        is_upper_tick: bool,
    ) -> Result<TickUpdate, SureError> {
        if liquidity_delta == 0 {
            Ok(TickUpdate::of_tick(self))
        } else {
            match liquidity_after_delta(self.liquidity_gross, liquidity_delta) {
                Err(e) => Err(e),
                Ok(gross) => if gross == 0 {
                    Ok(TickUpdate::empty())
                } else {
                    let fees = if self.liquidity_gross == 0 {
                        if tick_current_index >= tick_index {
                            (global_0, global_1)
                        } else {
                            (0u128, 0u128)
                        }
                    } else {
                        (self.fee_growth_outside_0_x64, self.fee_growth_outside_1_x64)
                    };
                    let net: int = if is_upper_tick {
                        self.liquidity_net - liquidity_delta
                    } else {
                        self.liquidity_net + liquidity_delta
                    };
                    if is_upper_tick && (net < i128::MIN || net > i128::MAX) {
                        Err(SureError::SubtractionQ3232Error)
                    } else if !is_upper_tick && (net < i128::MIN || net > i128::MAX) {
                        Err(SureError::AdditionQ3232OverflowError)
                    } else {
                        Ok(
                            TickUpdate {
                                initialized: true,
                                liquidity_net: net as i128,
                                liquidity_gross: gross,
                                liquidity_locked: self.liquidity_locked,
                                fee_growth_outside_0: fees.0,
                                fee_growth_outside_1: fees.1,
                            },
                        )
                    }
                },
            }
        }
    }

    /// The result of `calculate_coverage_delta_at`: the fee amount and the
    /// premium to pay in or out, with the premiums priced at the tick's
    /// square-root price from `now` until `expiry_ts`.
    pub open spec fn coverage_delta_at(
        tick_index: i32,
        coverage_delta: u128,
        current_covered_amount: u128,
        fee_rate: u16,
        expiry_ts: i64,
        now: i64,
    ) -> Result<(u128, u128, u128), SureError> {
        let sqrt_price = sqrt_ratio_at_tick(tick_index) as u128;
        match premium_at(sqrt_price, current_covered_amount, expiry_ts, now) {
            Err(e) => Err(e),
            Ok(remaining) => match premium_change_at(
                remaining,
                sqrt_price,
                coverage_delta,
                expiry_ts,
                now,
            ) {
                Err(e) => Err(e),
                Ok((increase_premium, premium_delta)) => {
                    let fee = coverage_delta.wrapping_mul(fee_rate as u128) / ((1_000_000
                        - fee_rate) as u128);
                    if increase_premium {
                        Ok((fee, premium_delta, 0u128))
                    } else {
                        Ok((fee, 0u128, premium_delta))
                    }
                },
            },
        }
    }

    /// Calculate coverage delta
    ///
    /// Coverage is bought from each tick. Returns
    ///     - fee_amount: the amount to be used to pay fees,
    ///       `coverage_delta * fee_rate / (1_000_000 - fee_rate)` with wrapping products
    ///     - amount_in: the premium increase to pay into vault 0
    ///     - amount_out: the premium decrease to withdraw from vault 1
    ///
    /// The premiums are priced at the tick's square-root price until
    /// `expiry_ts`, from the current time of the runtime clock.
    pub fn calculate_coverage_delta(
        &self,
        tick_index: i32,
        target_tick_index: i32,
        coverage_delta: u128,
        current_covered_amount: u128,
        fee_rate: u16,
        current_start_ts: i64,
        expiry_ts: i64,
        increase: bool,
    ) -> (r: Result<(u128, u128, u128), SureError>)
        requires
            self.liquidity_sum_fits(),
            tick_index != i32::MIN,
            target_tick_index != i32::MIN,
        ensures
            yearly_premium(sqrt_ratio_at_tick(tick_index) as u128, current_covered_amount) matches Err(
                e,
            ) ==> r == Err::<(u128, u128, u128), SureError>(e),
            r == Err::<(u128, u128, u128), SureError>(SureError::ClockUnavailable) || exists|
                now: i64,
            |
                r == #[trigger] Tick::coverage_delta_at(
                    tick_index,
                    coverage_delta,
                    current_covered_amount,
                    fee_rate,
                    expiry_ts,
                    now,
                ),
    {
        let sqrt_price_x64 = get_sqrt_ratio_at_tick(tick_index)?;
        let _sqrt_price_target = get_sqrt_ratio_at_tick(target_tick_index)?;
        // the premium of the covered amount is priced before the clock is read
        match calculate_yearly_premium(sqrt_price_x64, current_covered_amount) {
            Err(e) => {
                proof {
                    assert(Tick::coverage_delta_at(
                        tick_index,
                        coverage_delta,
                        current_covered_amount,
                        fee_rate,
                        expiry_ts,
                        0,
                    ) == Err::<(u128, u128, u128), SureError>(e));
                }
                return Err(e);
            },
            Ok(_) => {},
        }
        let now = match clock_unix_timestamp() {
            Some(t) => t,
            None => return Err(SureError::ClockUnavailable),
        };
        self.calculate_coverage_delta_at(
            tick_index,
            target_tick_index,
            coverage_delta,
            current_covered_amount,
            fee_rate,
            current_start_ts,
            expiry_ts,
            increase,
            now,
        )
    }

    /// Calculate coverage delta, pricing the premiums from `timestamp_now`.
    pub fn calculate_coverage_delta_at(
        &self,
        tick_index: i32,
        target_tick_index: i32,
        coverage_delta: u128,
        current_covered_amount: u128,
        fee_rate: u16,
        current_start_ts: i64,
        expiry_ts: i64,
        increase: bool,
        timestamp_now: i64,
    ) -> (r: Result<(u128, u128, u128), SureError>)
        requires
            self.liquidity_sum_fits(),
            tick_index != i32::MIN,
            target_tick_index != i32::MIN,
        ensures
            r == Tick::coverage_delta_at(
                tick_index,
                coverage_delta,
                current_covered_amount,
                fee_rate,
                expiry_ts,
                timestamp_now,
            ),
    {
        let _available_liquidity = self.get_available_liquidity();
        let sqrt_price_x64 = get_sqrt_ratio_at_tick(tick_index)?;
        let _sqrt_price_target = get_sqrt_ratio_at_tick(target_tick_index)?;
        let remaining_premium = calculate_premium_at(
            sqrt_price_x64,
            current_covered_amount,
            expiry_ts,
            timestamp_now,
        )?;
        let (increase_premium, premium_delta) = calculate_premium_diff_at(
            remaining_premium,
            sqrt_price_x64,
            coverage_delta,
            expiry_ts,
            timestamp_now,
        )?;
        // division of unsigned integers cannot wrap
        let fee_amount = coverage_delta.wrapping_mul(fee_rate as u128) / (MAX_100th_BP as u128
            - fee_rate as u128);
        let (amount_in, amount_out) = if increase_premium {
            (premium_delta, 0)
        } else {
            (0, premium_delta)
        };
        Ok((fee_amount, amount_in, amount_out))
    }

    /// Calculate Coverage update
    ///
    /// Locks (or unlocks) `coverage_tick_delta` of the tick's liquidity and
    /// flips the outside fee growth of token 0 to the other side of the tick.
    /// The outside fee growth of token 1 is set to the global growth.
    pub fn calculate_coverage_update(
        &self,
        increase_coverage: bool,
        current_liquidity: u128,
        coverage_tick_delta: u128,
        fee_growth_global_0_x64: u128,
        fee_growth_global_1_x64: u128,
    ) -> (r: Result<(TickUpdate, u128), SureError>)
        ensures
            increase_coverage && self.liquidity_locked + coverage_tick_delta > u128::MAX ==> r
                == Err::<(TickUpdate, u128), SureError>(SureError::AdditionQ3232OverflowError),
            !increase_coverage && self.liquidity_locked < coverage_tick_delta ==> r == Err::<
                (TickUpdate, u128),
                SureError,
            >(SureError::SubtractionQ3232Error),
            r is Ok ==> r == Ok::<(TickUpdate, u128), SureError>(
                (
                    TickUpdate {
                        initialized: true,
                        liquidity_net: self.liquidity_net,
                        liquidity_gross: self.liquidity_gross,
                        liquidity_locked: (if increase_coverage {
                            self.liquidity_locked + coverage_tick_delta
                        } else {
                            self.liquidity_locked - coverage_tick_delta
                        }) as u128,
                        fee_growth_outside_0: fee_growth_global_0_x64.wrapping_sub(
                            self.fee_growth_outside_0_x64,
                        ),
                        fee_growth_outside_1: fee_growth_global_1_x64,
                    },
                    current_liquidity,
                ),
            ),
            (increase_coverage && self.liquidity_locked + coverage_tick_delta <= u128::MAX) || (
            !increase_coverage && self.liquidity_locked >= coverage_tick_delta) ==> r is Ok,
    {
        let liquidity_locked = if increase_coverage {
            match self.liquidity_locked.checked_add(coverage_tick_delta) {
                Some(v) => v,
                None => return Err(SureError::AdditionQ3232OverflowError),
            }
        } else {
            match self.liquidity_locked.checked_sub(coverage_tick_delta) {
                Some(v) => v,
                None => return Err(SureError::SubtractionQ3232Error),
            }
        };
        let fee_growth_outside_0_x64 = fee_growth_global_0_x64.wrapping_sub(
            self.fee_growth_outside_0_x64,
        );
        let _fee_growth_outside_1_x64 = fee_growth_global_1_x64.wrapping_sub(
            self.fee_growth_outside_1_x64,
        );
        let next_liquidity = current_liquidity;
        Ok(
            (
                TickUpdate {
                    initialized: true,
                    liquidity_net: self.liquidity_net,
                    liquidity_gross: self.liquidity_gross,
                    liquidity_locked: liquidity_locked,
                    fee_growth_outside_0: fee_growth_outside_0_x64,
                    fee_growth_outside_1: fee_growth_global_1_x64,
                },
                next_liquidity,
            ),
        )
    }

    /// Calculate the update of crossing the tick in a swap
    ///
    /// The net liquidity is taken with its sign (negated when swapping a to b)
    /// and added to the current liquidity; the outside fee growth of token 0
    /// flips to the other side of the tick, that of token 1 is set to the
    /// global growth.
    pub fn calculate_swap_update(
        &self,
        a_to_b: bool,
        current_liquidity: u128,
        fee_growth_global_0_x32: u128,
        fee_growth_global_1_x32: u128,
    ) -> (r: Result<(TickUpdate, u128), SureError>)
        requires
            self.liquidity_net != i128::MIN,
        ensures
            ({
                let net: i128 = if a_to_b {
                    (-self.liquidity_net) as i128
                } else {
                    self.liquidity_net
                };
                match liquidity_after_delta(current_liquidity, net) {
                    Err(e) => r == Err::<(TickUpdate, u128), SureError>(e),
                    Ok(next) => r == Ok::<(TickUpdate, u128), SureError>(
                        (
                            TickUpdate {
                                initialized: true,
                                liquidity_net: net,
                                liquidity_gross: self.liquidity_gross,
                                liquidity_locked: self.liquidity_locked,
                                fee_growth_outside_0: fee_growth_global_0_x32.wrapping_sub(
                                    self.fee_growth_outside_0_x64,
                                ),
                                fee_growth_outside_1: fee_growth_global_1_x32,
                            },
                            next,
                        ),
                    ),
                }
            }),
    {
        let liquidity_net: i128 = if a_to_b {
            -self.liquidity_net
        } else {
            self.liquidity_net
        };
        let fee_growth_outside_0_x32 = fee_growth_global_0_x32.wrapping_sub(
            self.fee_growth_outside_0_x64,
        );
        let _fee_growth_outside_1_x32 = fee_growth_global_1_x32.wrapping_sub(
            self.fee_growth_outside_1_x64,
        );
        let next_liquidity = add_liquidity_delta(current_liquidity, liquidity_net)?;
        Ok(
            (
                TickUpdate {
                    initialized: true,
                    liquidity_net: liquidity_net,
                    liquidity_gross: self.liquidity_gross,
                    liquidity_locked: self.liquidity_locked,
                    fee_growth_outside_0: fee_growth_outside_0_x32,
                    fee_growth_outside_1: fee_growth_global_1_x32,
                },
                next_liquidity,
            ),
        )
    }

    /// Update Tick
    ///
    /// Writes the liquidity and fee growth of a tick update into the tick.
    pub fn update_tick(&mut self, tick_update: &TickUpdate) -> (r: Result<(), SureError>)
        ensures
            r is Ok,
            *final(self) == Tick::from_update(*tick_update),
    {
        self.liquidity_net = tick_update.liquidity_net;
        self.liquidity_gross = tick_update.liquidity_gross;
        self.liquidity_locked = tick_update.liquidity_locked;
        self.fee_growth_outside_0_x64 = tick_update.fee_growth_outside_0;
        self.fee_growth_outside_1_x64 = tick_update.fee_growth_outside_1;
        Ok(())
    }

    /// The tick that a tick update describes.
    pub open spec fn from_update(u: TickUpdate) -> Tick {
        Tick {
            liquidity_net: u.liquidity_net,
            liquidity_gross: u.liquidity_gross,
            liquidity_locked: u.liquidity_locked,
            fee_growth_outside_0_x64: u.fee_growth_outside_0,
            fee_growth_outside_1_x64: u.fee_growth_outside_1,
        }
    }

    /// Calculate the next fee growth within the range (lower, upper)
    ///
    /// `self` is the lower tick. Returns the cumulative fees per share inside
    /// the range for token 0 and token 1 (all arithmetic wraps).
    pub fn calculate_next_fee_growth(
        &self,
        tick_lower_index: i32,
        tick_upper: &Tick,
        tick_upper_index: i32,
        tick_current_index: i32,
        fee_growth_global_0_x64: u128,
        fee_growth_global_1_x64: u128,
    ) -> (r: Result<(u128, u128), SureError>)
        ensures
            tick_lower_index > tick_upper_index ==> r == Err::<(u128, u128), SureError>(
                SureError::InvalidTickIndexProvided,
            ),
            tick_lower_index <= tick_upper_index ==> r == Ok::<(u128, u128), SureError>(
                fee_growth_inside(
                    *self,
                    tick_lower_index,
                    *tick_upper,
                    tick_upper_index,
                    tick_current_index,
                    fee_growth_global_0_x64,
                    fee_growth_global_1_x64,
                ),
            ),
    {
        if tick_lower_index > tick_upper_index {
            return Err(SureError::InvalidTickIndexProvided);
        }
        let (fee_growth_below_a, fee_growth_below_b) = if !self.is_initialized() {
            (fee_growth_global_0_x64, fee_growth_global_1_x64)
        } else if tick_current_index < tick_lower_index {
            (
                fee_growth_global_0_x64.wrapping_sub(self.fee_growth_outside_0_x64),
                fee_growth_global_1_x64.wrapping_sub(self.fee_growth_outside_1_x64),
            )
        } else {
            (self.fee_growth_outside_0_x64, self.fee_growth_outside_1_x64)
        };
        // By convention, when initializing a tick, no fees have been earned above the tick.
        let (fee_growth_above_a, fee_growth_above_b) = if !tick_upper.is_initialized() {
            (0, 0)
        } else if tick_current_index < tick_upper_index {
            (tick_upper.fee_growth_outside_0_x64, tick_upper.fee_growth_outside_1_x64)
        } else {
            (
                fee_growth_global_0_x64.wrapping_sub(tick_upper.fee_growth_outside_0_x64),
                fee_growth_global_1_x64.wrapping_sub(tick_upper.fee_growth_outside_1_x64),
            )
        };
        Ok(
            (
                fee_growth_global_0_x64.wrapping_sub(fee_growth_below_a).wrapping_sub(
                    fee_growth_above_a,
                ),
                fee_growth_global_1_x64.wrapping_sub(fee_growth_below_b).wrapping_sub(
                    fee_growth_above_b,
                ),
            ),
        )
    }
}

/// Divisibility does not depend on the sign of the dividend.
pub proof fn lemma_mod_zero_neg(x: int, d: int)
    requires
        d > 0,
    ensures
        (x % d == 0) <==> ((-x) % d == 0),
{
    vstd::arithmetic::div_mod::lemma_fundamental_div_mod(x, d);
    vstd::arithmetic::div_mod::lemma_fundamental_div_mod(-x, d);
    if x % d == 0 {
        vstd::arithmetic::div_mod::lemma_mod_multiples_basic(-(x / d), d);
        assert(-x == (-(x / d)) * d) by (nonlinear_arith)
            requires
                x == d * (x / d),
        ;
    }
    if (-x) % d == 0 {
        vstd::arithmetic::div_mod::lemma_mod_multiples_basic(-((-x) / d), d);
        assert(x == (-((-x) / d)) * d) by (nonlinear_arith)
            requires
                -x == d * ((-x) / d),
        ;
    }
}

/// Adding a liquidity delta and then its opposite gives back the liquidity.
pub proof fn law_liquidity_delta_round_trip(liquidity: u128, delta: i128, next: u128)
    requires
        delta != i128::MIN,
        liquidity_after_delta(liquidity, delta) == Ok::<u128, SureError>(next),
    ensures
        liquidity_after_delta(next, (-delta) as i128) == Ok::<u128, SureError>(liquidity),
{
}

/// Adding liquidity to a referenced tick and then removing the same
/// liquidity restates the tick as it was: its gross and net liquidity, its
/// locked liquidity and its fee growth outside.
pub proof fn law_tick_liquidity_round_trip(
    tick: Tick,
    tick_index: i32,
    tick_current_index: i32,
    global_0: u128,
    global_1: u128,
    later_global_0: u128,
    later_global_1: u128,
    liquidity_delta: i128,
    is_upper_tick: bool,
    update: TickUpdate,
)
    requires
        liquidity_delta != i128::MIN,
        tick.liquidity_gross != 0,
        tick.next_liquidity_update(
            tick_index,
            tick_current_index,
            global_0,
            global_1,
            liquidity_delta,
            is_upper_tick,
        ) == Ok::<TickUpdate, SureError>(update),
        update.liquidity_gross != 0,
    ensures
        Tick::from_update(update).next_liquidity_update(
            tick_index,
            tick_current_index,
            later_global_0,
            later_global_1,
            (-liquidity_delta) as i128,
            is_upper_tick,
        ) == Ok::<TickUpdate, SureError>(TickUpdate::of_tick(tick)),
{
}

/// A tick read back after a successful write of an update is the tick that
/// the update describes, and every other tick of the array reads as before.
pub proof fn law_read_after_update(
    before: TickArray,
    after: TickArray,
    tick_index: i32,
    other_index: i32,
    tick_spacing: u16,
    update: TickUpdate,
)
    requires
        before.tick_lookup(tick_index, tick_spacing) is Ok,
        after.start_tick_index == before.start_tick_index,
        after.ticks@ == before.ticks@.update(
            tick_location(before.start_tick_index, tick_index, tick_spacing)->Ok_0 as int,
            Tick::from_update(update),
        ),
    ensures
        after.tick_lookup(tick_index, tick_spacing) == Ok::<Tick, SureError>(
            Tick::from_update(update),
        ),
        tick_location(before.start_tick_index, other_index, tick_spacing) != tick_location(
            before.start_tick_index,
            tick_index,
            tick_spacing,
        ) ==> after.tick_lookup(other_index, tick_spacing) == before.tick_lookup(
            other_index,
            tick_spacing,
        ),
{
}

/// Add Liquidity Delta
///
/// Add the delta to the liquidity depending on the delta sign.
pub fn add_liquidity_delta(liquidity: u128, delta: i128) -> (r: Result<u128, SureError>)
    requires
        delta != i128::MIN,
    ensures
        r == liquidity_after_delta(liquidity, delta),
{
    if delta == 0 {
        return Ok(liquidity);
    }
    if delta > 0 {
        match liquidity.checked_add(delta as u128) {
            Some(v) => Ok(v),
            None => Err(SureError::LiquidityOverflow),
        }
    } else {
        match liquidity.checked_sub((-delta) as u128) {
            Some(v) => Ok(v),
            None => Err(SureError::LiquidityUnderflow),
        }
    }
}

/// A fee rate (basis points) applied to an amount.
pub open spec fn sub_fee(amount: u128, fee_rate: u16) -> Result<u128, SureError> {
    if fee_rate == 0 {
        Ok(0)
    } else if amount * fee_rate > u128::MAX {
        Err(SureError::MultiplictationQ3232Overflow)
    } else {
        Ok(((amount * fee_rate) / 10_000) as u128)
    }
}

/// Calculate the sub fee rate on an amount: `amount * fee_rate / 10_000`.
pub fn calculate_sub_fee(amount: u128, fee_rate: u16) -> (r: Result<u128, SureError>)
    ensures
        r == sub_fee(amount, fee_rate),
{
    if fee_rate > 0 {
        let product = match amount.checked_mul(fee_rate as u128) {
            Some(v) => v,
            None => return Err(SureError::MultiplictationQ3232Overflow),
        };
        return match product.checked_div(MAX_PROTOCOL_FEE as u128) {
            Some(v) => Ok(v),
            None => Err(SureError::DivisionQ3232Error),
        };
    }
    Ok(0)
}

/// Calculate fee amounts
///
/// Based on the total fee amount calculate the next protocol fee and founders
/// fee totals and, when there is liquidity, the fee growth from what remains
/// after both totals are taken.
pub fn calculate_fees(
    fee_amount: u128,
    protocol_fee_rate: u16,
    founders_fee_rate: u16,
    current_liquidity: u128,
    current_protocol_fee: u128,
    current_founders_fee: u128,
    current_fee_growth: u128,
) -> (r: Result<(u128, u128, u128), SureError>)
    requires
        sub_fee(fee_amount, protocol_fee_rate) matches Ok(p) ==> (sub_fee(
            fee_amount,
            founders_fee_rate,
        ) matches Ok(f) ==> current_protocol_fee + p <= u128::MAX && current_founders_fee + f
            <= u128::MAX && current_protocol_fee + p + current_founders_fee + f <= fee_amount),
    ensures
        sub_fee(fee_amount, protocol_fee_rate) matches Err(e) ==> r == Err::<
            (u128, u128, u128),
            SureError,
        >(e),
        sub_fee(fee_amount, protocol_fee_rate) is Ok ==> (sub_fee(fee_amount, founders_fee_rate) matches Err(e)
            ==> r == Err::<(u128, u128, u128), SureError>(e)),
        sub_fee(fee_amount, protocol_fee_rate) matches Ok(p) ==> (sub_fee(
            fee_amount,
            founders_fee_rate,
        ) matches Ok(f) ==> r == Ok::<(u128, u128, u128), SureError>(
            (
                (current_protocol_fee + p) as u128,
                (current_founders_fee + f) as u128,
                if current_liquidity > 0 {
                    current_fee_growth.wrapping_add(
                        (fee_amount - (current_protocol_fee + p + current_founders_fee + f)) as u128,
                    )
                } else {
                    current_fee_growth
                },
            ),
        )),
{
    let mut next_protocol_fee = current_protocol_fee;
    let mut next_founders_fee = current_founders_fee;
    let mut remaining_fee = fee_amount;
    let mut next_fee_growth = current_fee_growth;
    let step_protocol_fee = calculate_sub_fee(fee_amount, protocol_fee_rate)?;
    let step_founders_fee = calculate_sub_fee(fee_amount, founders_fee_rate)?;
    next_protocol_fee += step_protocol_fee;
    next_founders_fee += step_founders_fee;
    remaining_fee -= next_protocol_fee + next_founders_fee;
    if current_liquidity > 0 {
        next_fee_growth = next_fee_growth.wrapping_add(remaining_fee);
    }
    Ok((next_protocol_fee, next_founders_fee, next_fee_growth))
}


/// Which ticks a tick-array search stops at.
#[derive(Clone, Copy, PartialEq, Eq, Debug, Structural)]
pub enum TickCondition {
    /// Ticks referenced by some position (`liquidity_gross != 0`).
    Initialized,
    /// Ticks with available liquidity (`gross + |net| > 0`).
    AvailableLiquidity,
    /// Every tick.
    Any,
}

impl TickCondition {
    /// Whether `tick` satisfies the condition.
    pub open spec fn holds(self, tick: Tick) -> bool {
        match self {
            TickCondition::Initialized => tick.liquidity_gross != 0,
            TickCondition::AvailableLiquidity => tick.available_liquidity() > 0,
            TickCondition::Any => true,
        }
    }

    /// The condition can be evaluated on `tick` without overflow.
    pub open spec fn can_test(self, tick: Tick) -> bool {
        self is AvailableLiquidity ==> tick.liquidity_sum_fits()
    }

}

/// Location `[0, 64)` of a tick index in an array starting at `start_tick_index`.
pub open spec fn tick_location(start_tick_index: i32, tick_index: i32, tick_spacing: u16) -> Result<
    i32,
    SureError,
> {
    if tick_index < start_tick_index {
        Err(SureError::TickLtTickArray)
    } else if tick_spacing == 0 {
        Err(SureError::InvalidTickSpacing)
    } else if (tick_index - start_tick_index) % (tick_spacing as int) != 0 {
        Err(SureError::TickOutsideSpacing)
    } else if (tick_index - start_tick_index) / (tick_spacing as int) >= 64 {
        Err(SureError::TickOutOfRange)
    } else {
        Ok(((tick_index - start_tick_index) / (tick_spacing as int)) as i32)
    }
}

/// Get the index [0,64) in the tick array where the tick is located
pub fn get_tick_location(start_tick_index: i32, tick_index: i32, tick_spacing: u16) -> (r: Result<
    i32,
    SureError,
>)
    requires
        tick_index < start_tick_index || tick_index - start_tick_index <= i32::MAX,
    ensures
        r == tick_location(start_tick_index, tick_index, tick_spacing),
        r matches Ok(loc) ==> 0 <= loc < 64,
{
    if tick_index < start_tick_index {
        return Err(SureError::TickLtTickArray);
    }
    let tick_diff = tick_index - start_tick_index;
    if tick_spacing == 0 {
        return Err(SureError::InvalidTickSpacing);
    }
    if tick_diff % tick_spacing as i32 != 0 {
        return Err(SureError::TickOutsideSpacing);
    }
    let tick_location = tick_diff / tick_spacing as i32;
    if tick_location < 0 || tick_location >= NUM_TICKS_IN_TICK_ARRAY {
        return Err(SureError::TickOutOfRange);
    }
    Ok(tick_location)
}

/// Location `j` is reached by a search that starts at `from`: it lies in the
/// array, at or below `from` when searching a to b, at or above it otherwise.
pub open spec fn in_search(from: int, a_to_b: bool, j: int) -> bool {
    0 <= j < 64 && if a_to_b {
        j <= from
    } else {
        j >= from
    }
}

/// Location `j` comes before location `l` in search order.
pub open spec fn searched_before(a_to_b: bool, j: int, l: int) -> bool {
    if a_to_b {
        j > l
    } else {
        j < l
    }
}

/// Position of the nearest tick at or after `loc` (towards lower positions
/// when `a_to_b`, higher otherwise) that satisfies `cond`.
pub open spec fn search_ticks(ticks: Seq<Tick>, cond: TickCondition, loc: int, a_to_b: bool) -> Option<
    int,
>
    decreases (if a_to_b {
        loc + 1
    } else {
        64 - loc
    }),
{
    if loc < 0 || loc >= 64 || loc >= ticks.len() {
        None
    } else if cond.holds(ticks[loc]) {
        Some(loc)
    } else if a_to_b {
        search_ticks(ticks, cond, loc - 1, a_to_b)
    } else {
        search_ticks(ticks, cond, loc + 1, a_to_b)
    }
}

proof fn lemma_search_ticks_bounds(ticks: Seq<Tick>, cond: TickCondition, loc: int, a_to_b: bool)
    ensures
        search_ticks(ticks, cond, loc, a_to_b) matches Some(j) ==> 0 <= j < 64 && cond.holds(
            ticks[j],
        ) && (if a_to_b {
            j <= loc
        } else {
            j >= loc
        }),
    decreases (if a_to_b {
        loc + 1
    } else {
        64 - loc
    }),
{
    if loc < 0 || loc >= 64 || loc >= ticks.len() {
    } else if cond.holds(ticks[loc]) {
    } else if a_to_b {
        lemma_search_ticks_bounds(ticks, cond, loc - 1, a_to_b);
    } else {
        lemma_search_ticks_bounds(ticks, cond, loc + 1, a_to_b);
    }
}

/// `search_ticks` finds the first location, in search order, where `cond`
/// holds, and nothing when it holds at none.
proof fn lemma_search_ticks_first(ticks: Seq<Tick>, cond: TickCondition, from: int, a_to_b: bool)
    requires
        ticks.len() == 64,
        a_to_b ==> from < 64,
        !a_to_b ==> from >= 0,
    ensures
        forall|l: int|
            in_search(from, a_to_b, l) && cond.holds(#[trigger] ticks[l]) && (forall|j: int|
                in_search(from, a_to_b, j) && searched_before(a_to_b, j, l) ==> !cond.holds(
                    #[trigger] ticks[j],
                )) ==> search_ticks(ticks, cond, from, a_to_b) == Some(l),
        (forall|j: int| in_search(from, a_to_b, j) ==> !cond.holds(#[trigger] ticks[j]))
            ==> search_ticks(ticks, cond, from, a_to_b) is None,
    decreases (if a_to_b {
        from + 1
    } else {
        64 - from
    }),
{
    if from < 0 || from >= 64 {
    } else {
        let next = if a_to_b {
            from - 1
        } else {
            from + 1
        };
        lemma_search_ticks_first(ticks, cond, next, a_to_b);
        assert forall|l: int|
            in_search(from, a_to_b, l) && cond.holds(#[trigger] ticks[l]) && (forall|j: int|
                in_search(from, a_to_b, j) && searched_before(a_to_b, j, l) ==> !cond.holds(
                    #[trigger] ticks[j],
                )) implies search_ticks(ticks, cond, from, a_to_b) == Some(l) by {
            if l != from {
                assert(searched_before(a_to_b, from, l));
                assert(!cond.holds(ticks[from]));
                assert(in_search(next, a_to_b, l));
                assert forall|j: int|
                    in_search(next, a_to_b, j) && searched_before(a_to_b, j, l) implies !cond.holds(
                    #[trigger] ticks[j],
                ) by {
                    assert(in_search(from, a_to_b, j));
                }
            }
        }
        if forall|j: int| in_search(from, a_to_b, j) ==> !cond.holds(#[trigger] ticks[j]) {
            assert(!cond.holds(ticks[from]));
            assert forall|j: int| in_search(next, a_to_b, j) implies !cond.holds(
                #[trigger] ticks[j],
            ) by {
                assert(in_search(from, a_to_b, j));
            }
        }
    }
}

/// Tick Array
///
/// An array of `NUM_TICKS_IN_TICK_ARRAY` ticks starting at `start_tick_index`.
pub struct TickArray {
    pub start_tick_index: i32,
    pub ticks: [Tick; 64],
    pub pool: Pubkey,
}

impl TickArray {
    pub const SIZE: usize = 4 + 64 * 40 + 32;

    /// A tick array with all ticks empty.
    pub fn new(start_tick_index: i32, pool: Pubkey) -> (r: TickArray)
        ensures
            r.start_tick_index == start_tick_index,
            r.pool == pool,
            forall|i: int| 0 <= i < 64 ==> #[trigger] r.ticks[i] == Tick::empty(),
    {
        let t = Tick::default();
        TickArray { start_tick_index, ticks: [t; 64], pool }
    }

    /// Index arithmetic of the array stays within `i32`.
    pub open spec fn fits(self, tick_spacing: u16) -> bool {
        self.start_tick_index + 64 * tick_spacing <= i32::MAX
    }

    /// Every tick of the array can be tested against `cond`.
    pub open spec fn testable(self, cond: TickCondition) -> bool {
        forall|i: int| 0 <= i < 64 ==> cond.can_test(#[trigger] self.ticks[i])
    }

    /// Whether `tick_index` lies within the array, between its first and last tick.
    pub open spec fn contains_index(self, tick_index: i32, tick_spacing: u16) -> bool {
        self.start_tick_index <= tick_index <= self.start_tick_index + 63 * tick_spacing
    }

    /// Highest tick index of the array.
    pub open spec fn max_tick_index(self, tick_spacing: u16) -> int {
        self.start_tick_index + tick_spacing * 63
    }

    /// Initialize the array at a start index and assign it to a pool.
    /// The start index has to be a valid tick for the pool's spacing.
    pub fn initialize(&mut self, pool: Pubkey, pool_tick_spacing: u16, start_tick_index: i32) -> (r:
        Result<(), SureError>)
        requires
            pool_tick_spacing != 0,
        ensures
            !valid_tick(start_tick_index, pool_tick_spacing) ==> r == Err::<(), SureError>(
                SureError::InvalidTick,
            ) && *final(self) == *old(self),
            valid_tick(start_tick_index, pool_tick_spacing) ==> r is Ok && final(self).start_tick_index
                == start_tick_index && final(self).pool == pool && final(self).ticks == old(self).ticks,
    {
        if !Tick::is_valid_tick(start_tick_index, pool_tick_spacing) {
            return Err(SureError::InvalidTick);
        }
        self.start_tick_index = start_tick_index;
        self.pool = pool;
        Ok(())
    }

    /// The maximum tick index in the array
    pub fn get_max_tick_index(&self, tick_spacing: u16) -> (r: i32)
        requires
            self.fits(tick_spacing),
        ensures
            r == self.max_tick_index(tick_spacing),
    {
        proof {
            assert(tick_spacing * 63 <= 64 * tick_spacing);
        }
        self.start_tick_index + tick_spacing as i32 * (NUM_TICKS_IN_TICK_ARRAY - 1)
    }

    /// The minimum tick index in the array
    pub fn get_min_tick_index(&self, tick_spacing: u16) -> (r: i32)
        ensures
            r == self.start_tick_index,
    {
        self.start_tick_index
    }

    /// Check if tick is in the tick array (its end included)
    pub fn validate_tick_index(&self, tick_index: i32, tick_spacing: u16) -> (r: bool)
        requires
            self.fits(tick_spacing),
        ensures
            r == self.contains_index(tick_index, tick_spacing),
    {
        let lower_tick_index = self.start_tick_index;
        let upper_tick_index = self.get_max_tick_index(tick_spacing);
        tick_index >= lower_tick_index && tick_index <= upper_tick_index
    }

    /// Is last tick
    ///
    /// Checks if the given tick index is the last/upper tick in the array.
    pub fn is_last_tick(&self, tick_index: i32, tick_spacing: u16) -> (r: Result<bool, SureError>)
        requires
            tick_index < self.start_tick_index || tick_index - self.start_tick_index <= i32::MAX,
        ensures
            match tick_location(self.start_tick_index, tick_index, tick_spacing) {
                Err(e) => r == Err::<bool, SureError>(e),
                Ok(loc) => r == Ok::<bool, SureError>(loc == 63),
            },
    {
        let tick_location = get_tick_location(self.start_tick_index, tick_index, tick_spacing)?;
        Ok(tick_location == NUM_TICKS_IN_TICK_ARRAY - 1)
    }

    /// Location a search from `tick_index` starts at: the tick's own location
    /// when searching a to b, the one above it otherwise.
    pub open spec fn search_start(self, tick_index: i32, tick_spacing: u16, a_to_b: bool) -> Result<
        int,
        SureError,
    > {
        if !self.contains_index(tick_index, tick_spacing) {
            Err(SureError::TickOutOfRange)
        } else {
            match tick_location(self.start_tick_index, tick_index, tick_spacing) {
                Err(e) => Err(e),
                Ok(loc) => Ok(
                    if a_to_b {
                        loc as int
                    } else {
                        loc + 1
                    },
                ),
            }
        }
    }

    /// Result of searching the array from `tick_index` for a tick satisfying `cond`.
    pub open spec fn next_tick_search(
        self,
        tick_index: i32,
        tick_spacing: u16,
        a_to_b: bool,
        cond: TickCondition,
    ) -> Result<Option<i32>, SureError> {
        match self.search_start(tick_index, tick_spacing, a_to_b) {
            Err(e) => Err(e),
            Ok(from) => match search_ticks(self.ticks@, cond, from, a_to_b) {
                None => Ok(None),
                Some(j) => Ok(Some((j * tick_spacing + self.start_tick_index) as i32)),
            },
        }
    }

    /// What a search from location `from` with `condition` found: `None` when
    /// the condition answered false for every location searched, else the
    /// index of the first location, in search order, where it answered true.
    pub open spec fn found_by<F: Fn(&Tick) -> bool>(
        self,
        condition: F,
        from: int,
        a_to_b: bool,
        tick_spacing: u16,
        found: Option<i32>,
    ) -> bool {
        match found {
            None => forall|j: int|
                in_search(from, a_to_b, j) ==> call_ensures(
                    condition,
                    (&#[trigger] self.ticks[j],),
                    false,
                ),
            Some(i) => exists|l: int|
                {
                    &&& in_search(from, a_to_b, l)
                    &&& i == l * tick_spacing + self.start_tick_index
                    &&& call_ensures(condition, (&#[trigger] self.ticks[l],), true)
                    &&& forall|j: int|
                        in_search(from, a_to_b, j) && searched_before(a_to_b, j, l) ==> call_ensures(
                            condition,
                            (&#[trigger] self.ticks[j],),
                            false,
                        )
                },
        }
    }

    /// Find the next tick index whose tick meets a condition
    ///
    /// Searches from the tick's location downwards (a to b, the location
    /// included) or upwards (b to a, the location excluded).
    ///
    /// Returns:
    /// - Some if tick_index is located
    /// - None if the search leaves the array
    pub fn find_next_conditional_tick_index<F: Fn(&Tick) -> bool>(
        &self,
        tick_index: i32,
        tick_spacing: u16,
        a_to_b: bool,
        condition: F,
    ) -> (r: Result<Option<i32>, SureError>)
        requires
            self.fits(tick_spacing),
            forall|i: int| 0 <= i < 64 ==> call_requires(condition, (&#[trigger] self.ticks[i],)),
        ensures
            self.search_start(tick_index, tick_spacing, a_to_b) matches Err(e) ==> r == Err::<
                Option<i32>,
                SureError,
            >(e),
            self.search_start(tick_index, tick_spacing, a_to_b) matches Ok(from) ==> r matches Ok(
                found,
            ) && self.found_by(condition, from, a_to_b, tick_spacing, found),
    {
        if !self.validate_tick_index(tick_index, tick_spacing) {
            return Err(SureError::TickOutOfRange);
        }
        let mut tick_index_location = get_tick_location(
            self.start_tick_index,
            tick_index,
            tick_spacing,
        )?;
        if !a_to_b {
            tick_index_location += 1;
        }
        let ghost from = tick_index_location as int;
        assert(self.search_start(tick_index, tick_spacing, a_to_b) == Ok::<int, SureError>(from));
        while tick_index_location >= 0 && tick_index_location < NUM_TICKS_IN_TICK_ARRAY
            invariant
                -1 <= tick_index_location <= 64,
                a_to_b ==> tick_index_location <= from,
                !a_to_b ==> tick_index_location >= from,
                forall|j: int|
                    in_search(from, a_to_b, j) && searched_before(a_to_b, j, tick_index_location as int)
                        ==> call_ensures(condition, (&#[trigger] self.ticks[j],), false),
                forall|i: int| 0 <= i < 64 ==> call_requires(condition, (&#[trigger] self.ticks[i],)),
                self.fits(tick_spacing),
                self.search_start(tick_index, tick_spacing, a_to_b) == Ok::<int, SureError>(from),
                tick_spacing > 0,
            decreases (if a_to_b {
                tick_index_location + 1
            } else {
                64 - tick_index_location
            }),
        {
            let current_tick = self.ticks[tick_index_location as usize];
            if condition(&current_tick) {
                proof {
                    assert(tick_index_location * tick_spacing <= 63 * tick_spacing) by (
                    nonlinear_arith)
                        requires
                            tick_index_location <= 63,
                            tick_spacing >= 0,
                    ;
                    assert(tick_index_location * tick_spacing >= 0) by (nonlinear_arith)
                        requires
                            tick_index_location >= 0,
                            tick_spacing >= 0,
                    ;
                    let l = tick_index_location as int;
                    assert(in_search(from, a_to_b, l));
                    assert(call_ensures(condition, (&self.ticks[l],), true));
                }
                return Ok(
                    Some((tick_index_location * tick_spacing as i32) + self.start_tick_index),
                );
            }
            tick_index_location =
            if a_to_b {
                tick_index_location - 1
            } else {
                tick_index_location + 1
            }
        }
        Ok(None)
    }

    /// Find the next initialized tick index
    pub fn find_next_initialized_tick_index(
        &self,
        tick_index: i32,
        tick_spacing: u16,
        a_to_b: bool,
    ) -> (r: Result<Option<i32>, SureError>)
        requires
            self.fits(tick_spacing),
        ensures
            r == self.next_tick_search(tick_index, tick_spacing, a_to_b, TickCondition::Initialized),
    {
        let condition = |tick: &Tick| -> (b: bool)
            ensures
                b == TickCondition::Initialized.holds(*tick),
            { tick.is_initialized() };
        let r = self.find_next_conditional_tick_index(tick_index, tick_spacing, a_to_b, condition);
        proof {
            self.lemma_found_by_is_search(tick_index, tick_spacing, a_to_b, TickCondition::Initialized, condition, r);
        }
        r
    }

    /// Find the next tick with available liquidity
    pub fn find_next_available_tick_index(
        &self,
        tick_index: i32,
        tick_spacing: u16,
        a_to_b: bool,
    ) -> (r: Result<Option<i32>, SureError>)
        requires
            self.fits(tick_spacing),
            self.testable(TickCondition::AvailableLiquidity),
        ensures
            r == self.next_tick_search(
                tick_index,
                tick_spacing,
                a_to_b,
                TickCondition::AvailableLiquidity,
            ),
    {
        let condition = |tick: &Tick| -> (b: bool)
            requires
                tick.liquidity_sum_fits(),
            ensures
                b == TickCondition::AvailableLiquidity.holds(*tick),
            { tick.is_available_liquidity() };
        let r = self.find_next_conditional_tick_index(tick_index, tick_spacing, a_to_b, condition);
        proof {
            self.lemma_found_by_is_search(tick_index, tick_spacing, a_to_b, TickCondition::AvailableLiquidity, condition, r);
        }
        r
    }

    /// Get next tick index, whatever its tick holds
    pub fn get_next_tick_index(&self, tick_index: i32, tick_spacing: u16, a_to_b: bool) -> (r:
        Result<Option<i32>, SureError>)
        requires
            self.fits(tick_spacing),
        ensures
            r == self.next_tick_search(tick_index, tick_spacing, a_to_b, TickCondition::Any),
    {
        let condition = |tick: &Tick| -> (b: bool)
            ensures
                b == TickCondition::Any.holds(*tick),
            { true };
        let r = self.find_next_conditional_tick_index(tick_index, tick_spacing, a_to_b, condition);
        proof {
            self.lemma_found_by_is_search(tick_index, tick_spacing, a_to_b, TickCondition::Any, condition, r);
        }
        r
    }

    /// A search whose condition answers as `cond` holds finds what
    /// `next_tick_search` with `cond` describes.
    proof fn lemma_found_by_is_search<F: Fn(&Tick) -> bool>(
        self,
        tick_index: i32,
        tick_spacing: u16,
        a_to_b: bool,
        cond: TickCondition,
        condition: F,
        r: Result<Option<i32>, SureError>,
    )
        requires
            self.fits(tick_spacing),
            forall|t: Tick, b: bool| call_ensures(condition, (&t,), b) ==> b == cond.holds(t),
            self.search_start(tick_index, tick_spacing, a_to_b) matches Err(e) ==> r == Err::<
                Option<i32>,
                SureError,
            >(e),
            self.search_start(tick_index, tick_spacing, a_to_b) matches Ok(from) ==> r matches Ok(
                found,
            ) && self.found_by(condition, from, a_to_b, tick_spacing, found),
        ensures
            r == self.next_tick_search(tick_index, tick_spacing, a_to_b, cond),
    {
        if let Ok(from) = self.search_start(tick_index, tick_spacing, a_to_b) {
            let found = r->Ok_0;
            lemma_search_ticks_first(self.ticks@, cond, from, a_to_b);
            match found {
                None => {
                    assert forall|j: int| in_search(from, a_to_b, j) implies !cond.holds(
                        #[trigger] self.ticks@[j],
                    ) by {
                        assert(call_ensures(condition, (&self.ticks[j],), false));
                    }
                    assert(search_ticks(self.ticks@, cond, from, a_to_b) is None);
                },
                Some(i) => {
                    let l = choose|l: int|
                        {
                            &&& in_search(from, a_to_b, l)
                            &&& i == l * tick_spacing + self.start_tick_index
                            &&& call_ensures(condition, (&#[trigger] self.ticks[l],), true)
                            &&& forall|j: int|
                                in_search(from, a_to_b, j) && searched_before(a_to_b, j, l)
                                    ==> call_ensures(condition, (&#[trigger] self.ticks[j],), false)
                        };
                    assert(cond.holds(self.ticks@[l]));
                    assert forall|j: int|
                        in_search(from, a_to_b, j) && searched_before(a_to_b, j, l) implies !cond.holds(
                        #[trigger] self.ticks@[j],
                    ) by {
                        assert(call_ensures(condition, (&self.ticks[j],), false));
                    }
                    assert(search_ticks(self.ticks@, cond, from, a_to_b) == Some(l));
                    assert(l * tick_spacing <= 63 * tick_spacing) by (nonlinear_arith)
                        requires
                            l <= 63,
                    ;
                    assert(l * tick_spacing >= 0) by (nonlinear_arith)
                        requires
                            l >= 0,
                    ;
                },
            }
        }
    }

    /// Result of looking up a tick by its index.
    pub open spec fn tick_lookup(self, tick_index: i32, tick_spacing: u16) -> Result<Tick, SureError> {
        if !self.contains_index(tick_index, tick_spacing) || !valid_tick(tick_index, tick_spacing) {
            Err(SureError::InvalidTick)
        } else {
            match tick_location(self.start_tick_index, tick_index, tick_spacing) {
                Err(e) => Err(e),
                Ok(loc) => Ok(self.ticks[loc as int]),
            }
        }
    }

    /// The tick at a valid tick index of the array.
    pub fn get_tick(&self, tick_index: i32, tick_spacing: u16) -> (r: Result<&Tick, SureError>)
        requires
            self.fits(tick_spacing),
            tick_spacing != 0,
        ensures
            match self.tick_lookup(tick_index, tick_spacing) {
                Err(e) => r == Err::<&Tick, SureError>(e),
                Ok(t) => r matches Ok(rt) && *rt == t,
            },
    {
        if !self.validate_tick_index(tick_index, tick_spacing) || !Tick::is_valid_tick(
            tick_index,
            tick_spacing,
        ) {
            return Err(SureError::InvalidTick);
        }
        let tick_location = get_tick_location(self.start_tick_index, tick_index, tick_spacing)?;
        Ok(&self.ticks[tick_location as usize])
    }

    /// Write a tick update into the tick at a valid tick index.
    pub fn update_tick(&mut self, tick_index: i32, tick_spacing: u16, tick_update: &TickUpdate) -> (r:
        Result<(), SureError>)
        requires
            old(self).fits(tick_spacing),
            tick_spacing != 0,
        ensures
            final(self).start_tick_index == old(self).start_tick_index,
            final(self).pool == old(self).pool,
            match old(self).tick_lookup(tick_index, tick_spacing) {
                Err(e) => r == Err::<(), SureError>(e) && final(self).ticks == old(self).ticks,
                Ok(_) => r is Ok && final(self).ticks@ == old(self).ticks@.update(
                    tick_location(old(self).start_tick_index, tick_index, tick_spacing)->Ok_0 as int,
                    Tick::from_update(*tick_update),
                ),
            },
    {
        if !self.validate_tick_index(tick_index, tick_spacing) || !Tick::is_valid_tick(
            tick_index,
            tick_spacing,
        ) {
            return Err(SureError::InvalidTick);
        }
        let tick_location = get_tick_location(self.start_tick_index, tick_index, tick_spacing)?;
        let mut tick = self.ticks[tick_location as usize];
        tick.update_tick(tick_update)?;
        self.ticks[tick_location as usize] = tick;
        Ok(())
    }
}


/// Result of searching a sequence of tick arrays, from array `i` on, for the
/// next tick with available liquidity.
pub open spec fn free_tick_search(
    arrays: Seq<TickArray>,
    tick_index: i32,
    tick_spacing: u16,
    a_to_b: bool,
    i: int,
) -> Result<(usize, i32), SureError>
    decreases arrays.len() - i,
{
    if i < 0 || i >= arrays.len() {
        Err(SureError::InvalidTickArrayIndexInTickArrayPool)
    } else {
        let ta = arrays[i];
        match ta.next_tick_search(tick_index, tick_spacing, a_to_b, TickCondition::AvailableLiquidity) {
            Err(e) => Err(e),
            Ok(Some(found)) => Ok((i as usize, clamp_free_tick(found as int))),
            Ok(None) => if i + 1 == arrays.len() {
                Ok((i as usize, clamp_free_tick(ta.max_tick_index(tick_spacing))))
            } else if !a_to_b && ta.start_tick_index <= FREE_TICK_MIN {
                Ok((i as usize, FREE_TICK_MIN))
            } else if a_to_b && ta.max_tick_index(tick_spacing) >= FREE_TICK_MAX {
                Ok((i as usize, FREE_TICK_MAX))
            } else {
                let next = if !a_to_b {
                    ta.start_tick_index + 64 * tick_spacing
                } else {
                    ta.start_tick_index - 1
                };
                free_tick_search(arrays, next as i32, tick_spacing, a_to_b, i + 1)
            },
        }
    }
}

/// A tick index brought into the range `[FREE_TICK_MIN, FREE_TICK_MAX]`
/// that the search for free liquidity returns.
pub open spec fn clamp_free_tick(t: int) -> i32 {
    if t < FREE_TICK_MIN {
        FREE_TICK_MIN
    } else if t > FREE_TICK_MAX {
        FREE_TICK_MAX
    } else {
        t as i32
    }
}

/// Lowest tick index the search for free liquidity returns.
pub const FREE_TICK_MIN: i32 = -221818;

/// Highest tick index the search for free liquidity returns.
pub const FREE_TICK_MAX: i32 = 221818;

/// Bring a tick index into `[FREE_TICK_MIN, FREE_TICK_MAX]`.
fn clamp_to_free_range(t: i32) -> (r: i32)
    ensures
        r == clamp_free_tick(t as int),
{
    if t < FREE_TICK_MIN {
        FREE_TICK_MIN
    } else if t > FREE_TICK_MAX {
        FREE_TICK_MAX
    } else {
        t
    }
}

/// Every position the search for free liquidity returns lies in the pool
/// and in `[FREE_TICK_MIN, FREE_TICK_MAX]`.
proof fn lemma_free_tick_search_range(
    arrays: Seq<TickArray>,
    tick_index: i32,
    tick_spacing: u16,
    a_to_b: bool,
    i: int,
)
    ensures
        free_tick_search(arrays, tick_index, tick_spacing, a_to_b, i) matches Ok((a, t)) ==> a
            < arrays.len() && FREE_TICK_MIN <= t <= FREE_TICK_MAX,
    decreases arrays.len() - i,
{
    if 0 <= i < arrays.len() {
        let ta = arrays[i];
        let next = if !a_to_b {
            ta.start_tick_index + 64 * tick_spacing
        } else {
            ta.start_tick_index - 1
        };
        lemma_free_tick_search_range(arrays, next as i32, tick_spacing, a_to_b, i + 1);
    }
}

/// Tick Array Pool
///
/// One to three consecutive tick arrays that operations run across.
pub struct TickArrayPool {
    arrays: Vec<TickArray>,
}

impl TickArrayPool {
    /// The arrays of the pool.
    pub closed spec fn arrays(self) -> Seq<TickArray> {
        self.arrays@
    }

    /// A pool holds one to three arrays.
    pub open spec fn wf(self) -> bool {
        1 <= self.arrays().len() <= 3
    }

    /// Every array of the pool keeps its index arithmetic within `i32` and
    /// its liquidity sums within `u128`.
    pub open spec fn fits(self, tick_spacing: u16) -> bool {
        forall|i: int|
            0 <= i < self.arrays().len() ==> #[trigger] self.arrays()[i].fits(tick_spacing)
                && self.arrays()[i].testable(TickCondition::AvailableLiquidity)
    }

    /// Combine a first array with up to two following ones.
    pub fn new(ta0: TickArray, ta1: Option<TickArray>, ta2: Option<TickArray>) -> (r: Self)
        ensures
            r.wf(),
            r.arrays() == seq![ta0] + (match ta1 {
                Some(a) => seq![a],
                None => Seq::empty(),
            }) + (match ta2 {
                Some(a) => seq![a],
                None => Seq::empty(),
            }),
    {
        let mut tick_array_pool: Vec<TickArray> = Vec::with_capacity(3);
        tick_array_pool.push(ta0);
        if ta1.is_some() {
            tick_array_pool.push(ta1.unwrap());
        }
        if ta2.is_some() {
            tick_array_pool.push(ta2.unwrap());
        }
        let r = Self { arrays: tick_array_pool };
        proof {
            assert(r.arrays() =~= seq![ta0] + (match ta1 {
                Some(a) => seq![a],
                None => Seq::empty(),
            }) + (match ta2 {
                Some(a) => seq![a],
                None => Seq::empty(),
            }));
        }
        r
    }

    /// Max tick index: the highest tick index of the last array.
    pub fn max_tick_index(&self, tick_spacing: u16) -> (r: Result<i32, SureError>)
        requires
            self.wf(),
            self.fits(tick_spacing),
        ensures
            r == Ok::<i32, SureError>(
                self.arrays().last().max_tick_index(tick_spacing) as i32,
            ),
    {
        let len_array = self.arrays.len();
        let last_array = &self.arrays[len_array - 1];
        Ok(last_array.get_max_tick_index(tick_spacing))
    }

    /// Min tick index: the start index of the first array.
    pub fn min_tick_index(&self, tick_spacing: u16) -> (r: Result<i32, SureError>)
        requires
            self.wf(),
        ensures
            r == Ok::<i32, SureError>(self.arrays()[0].start_tick_index),
    {
        let first_array = &self.arrays[0];
        Ok(first_array.get_min_tick_index(tick_spacing))
    }

    /// Square-root price (Q64.64) at the max tick index of the pool.
    pub fn max_sqrt_price_x32(&self, tick_spacing: u16) -> (r: Result<u128, SureError>)
        requires
            self.wf(),
            self.fits(tick_spacing),
            self.arrays().last().max_tick_index(tick_spacing) != i32::MIN,
        ensures
            r == Ok::<u128, SureError>(
                sqrt_ratio_at_tick(self.arrays().last().max_tick_index(tick_spacing) as i32) as u128,
            ),
    {
        let tick_index = self.max_tick_index(tick_spacing)?;
        proof {
            assert(self.arrays()[self.arrays().len() - 1].fits(tick_spacing));
        }
        get_sqrt_ratio_at_tick(tick_index)
    }

    /// The tick at `tick_index` in array `array_index`.
    pub fn get_tick(&mut self, array_index: usize, tick_index: i32, tick_spacing: u16) -> (r: Result<
        &Tick,
        SureError,
    >)
        requires
            old(self).wf(),
            array_index < old(self).arrays().len(),
            old(self).fits(tick_spacing),
            tick_spacing != 0,
        ensures
            *final(self) == *old(self),
            match old(self).arrays()[array_index as int].tick_lookup(tick_index, tick_spacing) {
                Err(e) => r == Err::<&Tick, SureError>(e),
                Ok(t) => r matches Ok(rt) && *rt == t,
            },
    {
        let array = &self.arrays[array_index];
        array.get_tick(tick_index, tick_spacing)
    }

    /// Whether `tick_index` is the last tick of array `array_index`.
    pub fn is_last_tick_index_in_array(
        &mut self,
        array_index: usize,
        tick_index: i32,
        tick_spacing: u16,
    ) -> (r: Result<bool, SureError>)
        requires
            old(self).wf(),
            array_index < old(self).arrays().len(),
            tick_index < old(self).arrays()[array_index as int].start_tick_index || tick_index
                - old(self).arrays()[array_index as int].start_tick_index <= i32::MAX,
        ensures
            *final(self) == *old(self),
            ({
                let ta = old(self).arrays()[array_index as int];
                match tick_location(ta.start_tick_index, tick_index, tick_spacing) {
                    Err(e) => r == Err::<bool, SureError>(e),
                    Ok(loc) => r == Ok::<bool, SureError>(loc == 63),
                }
            }),
    {
        let array = &self.arrays[array_index];
        array.is_last_tick(tick_index, tick_spacing)
    }

    /// Find the next tick with free/available liquidity
    ///
    /// Searches the current array and moves on to the following arrays until
    /// a tick with available liquidity is found. When the last array is
    /// exhausted its max tick index is returned; at the ends of the tick range
    /// the range bound is returned.
    ///
    /// Returns: (next_tick_array, next_tick_index)
    /// - next_tick_array in [0,2]
    /// - next_tick_index in [-221_818,221_818]
    pub fn find_next_free_tick_index(
        &self,
        current_tick_index: i32,
        tick_spacing: u16,
        a_to_b: bool,
        current_array_index: usize,
    ) -> (r: Result<(usize, i32), SureError>)
        requires
            self.wf(),
            self.fits(tick_spacing),
            a_to_b ==> forall|i: int|
                0 <= i < self.arrays().len() ==> #[trigger] self.arrays()[i].start_tick_index
                    > i32::MIN,
        ensures
            r == free_tick_search(
                self.arrays(),
                current_tick_index,
                tick_spacing,
                a_to_b,
                current_array_index as int,
            ),
            r matches Ok((a, t)) ==> a < self.arrays().len() && FREE_TICK_MIN <= t <= FREE_TICK_MAX,
    {
        proof {
            lemma_free_tick_search_range(
                self.arrays(),
                current_tick_index,
                tick_spacing,
                a_to_b,
                current_array_index as int,
            );
        }
        let tick_array_width_in_ticks = NUM_TICKS_IN_TICK_ARRAY * tick_spacing as i32;
        let mut next_tick_index = current_tick_index;
        let mut next_tick_array_index = current_array_index;
        loop
            invariant
                self.wf(),
                self.fits(tick_spacing),
                a_to_b ==> forall|i: int|
                    0 <= i < self.arrays().len() ==> #[trigger] self.arrays()[i].start_tick_index
                        > i32::MIN,
                tick_array_width_in_ticks == 64 * tick_spacing,
                free_tick_search(
                    self.arrays(),
                    current_tick_index,
                    tick_spacing,
                    a_to_b,
                    current_array_index as int,
                ) == free_tick_search(
                    self.arrays(),
                    next_tick_index,
                    tick_spacing,
                    a_to_b,
                    next_tick_array_index as int,
                ),
                free_tick_search(
                    self.arrays(),
                    current_tick_index,
                    tick_spacing,
                    a_to_b,
                    current_array_index as int,
                ) matches Ok((a, t)) ==> a < self.arrays().len() && FREE_TICK_MIN <= t
                    <= FREE_TICK_MAX,
            decreases self.arrays().len() - next_tick_array_index,
        {
            if next_tick_array_index >= self.arrays.len() {
                return Err(SureError::InvalidTickArrayIndexInTickArrayPool);
            }
            let tick_array = &self.arrays[next_tick_array_index];
            proof {
                assert(tick_array.fits(tick_spacing));
            }
            let tick_index = tick_array.find_next_available_tick_index(
                next_tick_index,
                tick_spacing,
                a_to_b,
            )?;
            match tick_index {
                Some(tick_index) => return Ok(
                    (next_tick_array_index, clamp_to_free_range(tick_index)),
                ),
                None => {
                    if next_tick_array_index + 1 == self.arrays.len() {
                        return Ok(
                            (
                                next_tick_array_index,
                                clamp_to_free_range(tick_array.get_max_tick_index(tick_spacing)),
                            ),
                        );
                    }
                    if !a_to_b && tick_array.start_tick_index <= FREE_TICK_MIN {
                        return Ok((next_tick_array_index, FREE_TICK_MIN));
                    } else if a_to_b && tick_array.get_max_tick_index(tick_spacing)
                        >= FREE_TICK_MAX {
                        return Ok((next_tick_array_index, FREE_TICK_MAX));
                    }
                    next_tick_index =
                    if !a_to_b {
                        tick_array.start_tick_index + tick_array_width_in_ticks
                    } else {
                        tick_array.start_tick_index - 1
                    };
                    next_tick_array_index += 1;
                },
            }
        }
    }

    /// Write a tick update into array `array_index`.
    pub fn update_tick(
        &mut self,
        array_index: usize,
        tick_index: i32,
        tick_spacing: u16,
        tick_update: &TickUpdate,
    ) -> (r: Result<(), SureError>)
        requires
            old(self).wf(),
            array_index < old(self).arrays().len(),
            old(self).fits(tick_spacing),
            tick_spacing != 0,
        ensures
            final(self).wf(),
            final(self).arrays().len() == old(self).arrays().len(),
            forall|i: int|
                0 <= i < old(self).arrays().len() && i != array_index ==> #[trigger] final(self).arrays()[i]
                    == old(self).arrays()[i],
            ({
                let ta = old(self).arrays()[array_index as int];
                let nta = final(self).arrays()[array_index as int];
                &&& nta.start_tick_index == ta.start_tick_index
                &&& nta.pool == ta.pool
                &&& match ta.tick_lookup(tick_index, tick_spacing) {
                    Err(e) => r == Err::<(), SureError>(e) && nta.ticks == ta.ticks,
                    Ok(_) => r is Ok && nta.ticks@ == ta.ticks@.update(
                        tick_location(ta.start_tick_index, tick_index, tick_spacing)->Ok_0 as int,
                        Tick::from_update(*tick_update),
                    ),
                }
            }),
    {
        let mut arrays: Vec<TickArray> = Vec::new();
        std::mem::swap(&mut arrays, &mut self.arrays);
        let mut tick_array = arrays.remove(array_index);
        proof {
            assert(old(self).arrays()[array_index as int].fits(tick_spacing));
        }
        let r = tick_array.update_tick(tick_index, tick_spacing, tick_update);
        arrays.insert(array_index, tick_array);
        self.arrays = arrays;
        proof {
            assert forall|i: int|
                0 <= i < old(self).arrays().len() && i != array_index implies #[trigger] self.arrays()[i]
                == old(self).arrays()[i] by {}
        }
        r
    }
}


/// Pricing a coverage change settles the premium difference in the right
/// direction: the amount paid in less the amount paid out is the premium of
/// the new amount less the remaining premium of the covered amount, with
/// nothing paid in when the premium does not grow and nothing paid out when
/// it does. The fee is `coverage_delta * fee_rate / (1_000_000 - fee_rate)`,
/// the product taken modulo 2^128.
pub proof fn law_coverage_premium_flows(
    tick_index: i32,
    coverage_delta: u128,
    current_covered_amount: u128,
    fee_rate: u16,
    expiry_ts: i64,
    now: i64,
)
    ensures
        Tick::coverage_delta_at(
            tick_index,
            coverage_delta,
            current_covered_amount,
            fee_rate,
            expiry_ts,
            now,
        ) matches Ok((fee, amount_in, amount_out)) ==> ({
            let sqrt_price = sqrt_ratio_at_tick(tick_index) as u128;
            &&& premium_at(sqrt_price, current_covered_amount, expiry_ts, now) matches Ok(remaining)
                && premium_at(sqrt_price, coverage_delta, expiry_ts, now) matches Ok(new_premium)
                && amount_in - amount_out == new_premium - remaining
                && (new_premium <= remaining ==> amount_in == 0)
                && (new_premium > remaining ==> amount_out == 0)
            &&& fee == ((coverage_delta * fee_rate) % (pow128() as int)) / (1_000_000 - fee_rate)
        }),
{
}

/// The search for free liquidity moves on to the next array above: when the
/// current array holds no tick with available liquidity above the current
/// tick, and the next array (starting where the current one ends) holds one
/// at location `l >= 1` with none between, the search returns that array and
/// that tick.
pub proof fn law_free_tick_search_moves_up(
    arrays: Seq<TickArray>,
    tick_index: i32,
    tick_spacing: u16,
    i: int,
    l: int,
)
    requires
        0 <= i,
        i + 1 < arrays.len(),
        tick_spacing > 0,
        arrays[i].fits(tick_spacing),
        arrays[i + 1].start_tick_index == arrays[i].start_tick_index + 64 * tick_spacing,
        arrays[i].start_tick_index > FREE_TICK_MIN,
        arrays[i].start_tick_index <= tick_index <= arrays[i].start_tick_index + 63 * tick_spacing,
        (tick_index - arrays[i].start_tick_index) % (tick_spacing as int) == 0,
        forall|j: int|
            (tick_index - arrays[i].start_tick_index) / (tick_spacing as int) < j < 64
                ==> #[trigger] arrays[i].ticks[j].available_liquidity() == 0,
        1 <= l < 64,
        arrays[i + 1].ticks[l].available_liquidity() > 0,
        forall|j: int| 1 <= j < l ==> #[trigger] arrays[i + 1].ticks[j].available_liquidity() == 0,
        FREE_TICK_MIN <= arrays[i + 1].start_tick_index + l * tick_spacing <= FREE_TICK_MAX,
    ensures
        free_tick_search(arrays, tick_index, tick_spacing, false, i) == Ok::<(usize, i32), SureError>(
            ((i + 1) as usize, (arrays[i + 1].start_tick_index + l * tick_spacing) as i32),
        ),
{
    let ta = arrays[i];
    let nb = arrays[i + 1];
    let loc = (tick_index - ta.start_tick_index) / (tick_spacing as int);
    assert(0 <= loc < 64) by (nonlinear_arith)
        requires
            ta.start_tick_index <= tick_index <= ta.start_tick_index + 63 * tick_spacing,
            tick_spacing > 0,
            loc == (tick_index - ta.start_tick_index) / (tick_spacing as int),
    ;
    assert(tick_location(ta.start_tick_index, tick_index, tick_spacing) == Ok::<i32, SureError>(
        loc as i32,
    ));
    assert(ta.search_start(tick_index, tick_spacing, false) == Ok::<int, SureError>(loc + 1));
    lemma_search_ticks_first(ta.ticks@, TickCondition::AvailableLiquidity, loc + 1, false);
    assert forall|j: int| in_search(loc + 1, false, j) implies !TickCondition::AvailableLiquidity.holds(
        #[trigger] ta.ticks@[j],
    ) by {
        assert(ta.ticks[j].available_liquidity() == 0);
    }
    assert(ta.next_tick_search(tick_index, tick_spacing, false, TickCondition::AvailableLiquidity)
        == Ok::<Option<i32>, SureError>(None));
    let next = ta.start_tick_index + 64 * tick_spacing;
    assert(next == nb.start_tick_index);
    assert(nb.contains_index(next as i32, tick_spacing));
    assert(tick_location(nb.start_tick_index, next as i32, tick_spacing) == Ok::<i32, SureError>(0));
    assert(nb.search_start(next as i32, tick_spacing, false) == Ok::<int, SureError>(1));
    lemma_search_ticks_first(nb.ticks@, TickCondition::AvailableLiquidity, 1, false);
    assert(TickCondition::AvailableLiquidity.holds(nb.ticks@[l]));
    assert forall|j: int| in_search(1, false, j) && searched_before(false, j, l) implies !TickCondition::AvailableLiquidity.holds(
        #[trigger] nb.ticks@[j],
    ) by {
        assert(nb.ticks[j].available_liquidity() == 0);
    }
    assert(search_ticks(nb.ticks@, TickCondition::AvailableLiquidity, 1, false) == Some(l));
    let found = (arrays[i + 1].start_tick_index + l * tick_spacing) as i32;
    assert(l * tick_spacing == tick_spacing * l) by (nonlinear_arith);
    assert(nb.next_tick_search(next as i32, tick_spacing, false, TickCondition::AvailableLiquidity)
        == Ok::<Option<i32>, SureError>(Some(found)));
    assert(clamp_free_tick(found as int) == found);
    assert(free_tick_search(arrays, next as i32, tick_spacing, false, i + 1) == Ok::<
        (usize, i32),
        SureError,
    >(((i + 1) as usize, found)));
    assert(free_tick_search(arrays, tick_index, tick_spacing, false, i) == free_tick_search(
        arrays,
        next as i32,
        tick_spacing,
        false,
        i + 1,
    ));
}

/// The search for free liquidity stops in the array it starts in when that
/// array holds a tick with available liquidity in the search direction (at
/// or below the current tick a to b, above it otherwise): it returns the
/// nearest such tick.
pub proof fn law_free_tick_search_in_array(
    arrays: Seq<TickArray>,
    tick_index: i32,
    tick_spacing: u16,
    a_to_b: bool,
    i: int,
    l: int,
)
    requires
        0 <= i < arrays.len(),
        tick_spacing > 0,
        arrays[i].fits(tick_spacing),
        arrays[i].start_tick_index <= tick_index <= arrays[i].start_tick_index + 63 * tick_spacing,
        (tick_index - arrays[i].start_tick_index) % (tick_spacing as int) == 0,
        ({
            let loc = (tick_index - arrays[i].start_tick_index) / (tick_spacing as int);
            &&& 0 <= l < 64
            &&& a_to_b ==> l <= loc
            &&& !a_to_b ==> l > loc
            &&& arrays[i].ticks[l].available_liquidity() > 0
            &&& forall|j: int|
                (if a_to_b {
                    l < j <= loc
                } else {
                    loc < j < l
                }) ==> #[trigger] arrays[i].ticks[j].available_liquidity() == 0
        }),
        FREE_TICK_MIN <= arrays[i].start_tick_index + l * tick_spacing <= FREE_TICK_MAX,
    ensures
        free_tick_search(arrays, tick_index, tick_spacing, a_to_b, i) == Ok::<(usize, i32), SureError>(
            (i as usize, (arrays[i].start_tick_index + l * tick_spacing) as i32),
        ),
{
    let ta = arrays[i];
    let loc = (tick_index - ta.start_tick_index) / (tick_spacing as int);
    assert(0 <= loc < 64) by (nonlinear_arith)
        requires
            ta.start_tick_index <= tick_index <= ta.start_tick_index + 63 * tick_spacing,
            tick_spacing > 0,
            loc == (tick_index - ta.start_tick_index) / (tick_spacing as int),
    ;
    assert(tick_location(ta.start_tick_index, tick_index, tick_spacing) == Ok::<i32, SureError>(
        loc as i32,
    ));
    let from = if a_to_b {
        loc
    } else {
        loc + 1
    };
    assert(ta.search_start(tick_index, tick_spacing, a_to_b) == Ok::<int, SureError>(from));
    lemma_search_ticks_first(ta.ticks@, TickCondition::AvailableLiquidity, from, a_to_b);
    assert(TickCondition::AvailableLiquidity.holds(ta.ticks@[l]));
    assert forall|j: int|
        in_search(from, a_to_b, j) && searched_before(a_to_b, j, l) implies !TickCondition::AvailableLiquidity.holds(
        #[trigger] ta.ticks@[j],
    ) by {
        assert(ta.ticks[j].available_liquidity() == 0);
    }
    assert(search_ticks(ta.ticks@, TickCondition::AvailableLiquidity, from, a_to_b) == Some(l));
    let found = (ta.start_tick_index + l * tick_spacing) as i32;
    assert(l * tick_spacing == tick_spacing * l) by (nonlinear_arith);
    assert(ta.next_tick_search(tick_index, tick_spacing, a_to_b, TickCondition::AvailableLiquidity)
        == Ok::<Option<i32>, SureError>(Some(found)));
    assert(clamp_free_tick(found as int) == found);
}
} // verus!
