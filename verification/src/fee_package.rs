//! Fee package of a pool: total fee rate and the protocol and founder shares.
use crate::errors::SureError;
use anchor_lang::prelude::Pubkey;
use vstd::prelude::*;

verus! {

/// Fee package
pub struct FeePackage {
    pub bump: u8,
    pub owner: Pubkey,
    pub fee_rate: u16,
    pub founders_fee: u16,
    pub protocol_fee: u16,
}

impl FeePackage {
    pub const MAX_FEE_RATE_BP: u16 = 10_000;
    pub const MAX_PROTOCOL_FEE_RATE_BP: u16 = 3_200;
    pub const MAX_FOUNDERS_FEE_RATE_BP: u16 = 1_000;
    pub const MIN_LIQUIDITY_PROVIDER_FEE_RATE_BP: u16 = 1_000;
    pub const SIZE: usize = 1 + 32 + 2 + 2 + 2;

    /// The outcome of validating a set of rates: the fee rate is at most
    /// 10 000 bp and `1/protocol + 1/founders <= 1`, i.e. `p + f <= p * f`.
    pub open spec fn rates_check(fee_rate: u16, protocol_fee: u16, founders_fee: u16) -> Result<
        (),
        SureError,
    > {
        if fee_rate > 10_000 {
            Err(SureError::MaxFeeRateExceeded)
        } else if protocol_fee + founders_fee > protocol_fee * founders_fee {
            Err(SureError::InvalidSubFeeRates)
        } else {
            Ok(())
        }
    }

    /// The sub-fee sums and products of the check fit in `u16`.
    pub open spec fn rates_fit(fee_rate: u16, protocol_fee: u16, founders_fee: u16) -> bool {
        fee_rate > 10_000 || (protocol_fee + founders_fee <= u16::MAX && protocol_fee * founders_fee
            <= u16::MAX)
    }

    /// Set the rates, validate them, then record the owner.
    pub fn initialize(
        &mut self,
        owner: Pubkey,
        fee_rate: u16,
        protocol_fee_rate: u16,
        founders_fee_rate: u16,
    ) -> (r: Result<(), SureError>)
        requires
            FeePackage::rates_fit(fee_rate, protocol_fee_rate, founders_fee_rate),
        ensures
            final(self).fee_rate == fee_rate,
            final(self).protocol_fee == protocol_fee_rate,
            final(self).founders_fee == founders_fee_rate,
            final(self).bump == old(self).bump,
            r == FeePackage::rates_check(fee_rate, protocol_fee_rate, founders_fee_rate),
            r is Ok ==> final(self).owner == owner,
            r is Err ==> final(self).owner == old(self).owner,
    {
        self.update_fee_package(fee_rate, protocol_fee_rate, founders_fee_rate);
        self.validate_fee_rates()?;
        self.owner = owner;
        Ok(())
    }

    pub fn update_fee_package(&mut self, fee_rate: u16, protocol_fee: u16, founders_fee: u16)
        ensures
            final(self).fee_rate == fee_rate,
            final(self).protocol_fee == protocol_fee,
            final(self).founders_fee == founders_fee,
            final(self).bump == old(self).bump,
            final(self).owner == old(self).owner,
    {
        self.fee_rate = fee_rate;
        self.protocol_fee = protocol_fee;
        self.founders_fee = founders_fee;
    }

    pub fn validate_fee_rates(&self) -> (r: Result<(), SureError>)
        requires
            FeePackage::rates_fit(self.fee_rate, self.protocol_fee, self.founders_fee),
        ensures
            r == FeePackage::rates_check(self.fee_rate, self.protocol_fee, self.founders_fee),
    {
        if self.fee_rate > FeePackage::MAX_FEE_RATE_BP {
            return Err(SureError::MaxFeeRateExceeded);
        }
        // 1/x + 1/y <= 1 <=> (x+y) <= xy
        if self.protocol_fee + self.founders_fee > self.protocol_fee * self.founders_fee {
            return Err(SureError::InvalidSubFeeRates);
        }
        Ok(())
    }
}

/// A fee package whose initialization succeeded holds rates that validate.
pub proof fn law_initialized_package_validates(
    after: FeePackage,
    fee_rate: u16,
    protocol_fee: u16,
    founders_fee: u16,
)
    requires
        FeePackage::rates_fit(fee_rate, protocol_fee, founders_fee),
        after.fee_rate == fee_rate,
        after.protocol_fee == protocol_fee,
        after.founders_fee == founders_fee,
        FeePackage::rates_check(fee_rate, protocol_fee, founders_fee) is Ok,
    ensures
        FeePackage::rates_fit(after.fee_rate, after.protocol_fee, after.founders_fee),
        FeePackage::rates_check(after.fee_rate, after.protocol_fee, after.founders_fee) is Ok,
        after.fee_rate <= 10_000,
{
}

} // verus!
