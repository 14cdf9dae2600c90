//! State updates computed before liquidity changes.
use crate::errors::SureError;
use crate::pool::LiquidityPosition;
use crate::tick_v2::TickArrayPool;
use vstd::prelude::*;

verus! {

/// The update of the liquidity state.
pub struct LiquidityUpdate {}

/// Calculate the state update
pub fn get_next_liquidity_state(
    liquidity_amount: u128,
    liquidity_position: LiquidityPosition,
    tick_array_pool: TickArrayPool,
) -> (r: Result<LiquidityUpdate, SureError>)
    ensures
        r is Ok,
{
    Ok(LiquidityUpdate {})
}

} // verus!
