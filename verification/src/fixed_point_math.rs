//! Arithmetic on Q32.32 fixed point numbers.
use crate::errors::SureError;
use vstd::prelude::*;

verus! {

pub const Q3232_FP_SHIFT: u8 = 32;

/// Multiply a u64 with a Q32.32 and round down to the nearest u64:
/// `ui * fp / 2^32`, or an error when that does not fit in a u64.
#[allow(non_snake_case)]
pub fn mul_round_down_Q3232(ui: u64, fp: u64) -> (r: Result<u64, SureError>)
    ensures
        (ui * fp) / 0x1_0000_0000 > u64::MAX ==> r == Err::<u64, SureError>(
            SureError::MultiplictationQ3232Overflow,
        ),
        (ui * fp) / 0x1_0000_0000 <= u64::MAX ==> r == Ok::<u64, SureError>(
            ((ui * fp) / 0x1_0000_0000) as u64,
        ),
{
    if ui == 0 || fp == 0 {
        proof {
            assert(ui * fp == 0) by (nonlinear_arith)
                requires
                    ui == 0 || fp == 0,
            ;
        }
        return Ok(0);
    }
    proof {
        assert((ui as int) * (fp as int) <= u64::MAX * u64::MAX) by (nonlinear_arith);
    }
    let product = (ui as u128) * (fp as u128);
    proof {
        assert(product >> 32u8 == product / 0x1_0000_0000) by (bit_vector);
    }
    let result = product >> Q3232_FP_SHIFT;
    if result > u64::MAX as u128 {
        return Err(SureError::MultiplictationQ3232Overflow);
    }
    Ok(result as u64)
}

} // verus!
