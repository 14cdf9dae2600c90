//! Error codes of the pool program.
use vstd::prelude::*;

verus! {

/// Errors returned by the pool logic.
#[derive(Clone, Copy, PartialEq, Eq, Debug, Structural)]
pub enum SureError {
    InvalidMint,
    InvalidRangeSize,
    InvalidTick,
    InvalidTickSpacing,
    InvalidTickArrayIndexInTickArrayPool,
    InvalidAmount,
    LiquidityTooLarge,
    TickOutOfRange,
    LiquidityHaveToBeGreaterThan0,
    LiquidityFilled,
    InvalidPoolCreator,
    CouldNotProvideLiquidity,
    TickAccountNotEmpty,
    InvalidTimestamp,
    InsuranceContractExpired,
    InsuranceContractIsNotActive,
    PoolsInProductPoolExceeded,
    ProductPoolIsEmpty,
    MaxFeeRateExceeded,
    MaxProtocolFeeRateExceeded,
    InvalidSubFeeRates,
    MaxFoundersFeeRateExceeded,
    TooLowLiquidityProviderFeeRate,
    SqrtRatioNotWithinRange,
    WrongTokenMintOrder,
    TooLargeWordPosition,
    TooSmallWordPosition,
    InvalidTickArrayWord,
    InvalidTickIndexProvided,
    InvalidOwner,
    CouldNotUpdatePoolLiquidity,
    LiquidityOverflow,
    LiquidityUnderflow,
    InvalidFeeGrowthSubtraction,
    MultiplictationQ3232Overflow,
    DivisionQ3232Error,
    SubtractionQ3232Error,
    AdditionQ3232OverflowError,
    OverflowU64,
    InvalidProductTypeId,
    TickLtTickArray,
    TickOutsideSpacing,
    /// The runtime clock could not be read.
    ClockUnavailable,
}

} // verus!
