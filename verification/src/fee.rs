//! Fee package with the protocol and founder rates as shares of the fee.
use crate::errors::SureError;
use anchor_lang::prelude::Pubkey;
use vstd::prelude::*;

verus! {

/// Fee package
pub struct FeePackage {
    pub bump: u8,
    /// Owner of fee package
    pub owner: Pubkey,
    /// Total fee the protocol will charge per tx as
    /// 100th of a basis point i.e 0.0001%
    pub fee_rate: u16,
    /// Fees that accrue the protocol:
    /// (1/x) of the total fee will go to the protocol
    pub protocol_fee_rate: u16,
    /// Fees that accrue the founder of the pool:
    /// (1/x) of the total fee will go to the founder
    pub founders_fee_rate: u16,
}

impl FeePackage {
    pub const MAX_FEE_RATE_BP: u16 = 10_000;
    pub const MAX_PROTOCOL_FEE_RATE_BP: u16 = 3_200;
    pub const MAX_FOUNDERS_FEE_RATE_BP: u16 = 1_000;
    pub const MIN_LIQUIDITY_PROVIDER_FEE_RATE_BP: u16 = 1_000;
    pub const SIZE: usize = 1 + 32 + 2 + 2 + 2;

    /// The outcome of validating a set of rates: the fee rate is at most
    /// 10 000 bp and the sub-fee rates sum to less than 1.
    pub open spec fn rates_check(fee_rate: u16, protocol_fee_rate: u16, founders_fee_rate: u16) -> Result<
        (),
        SureError,
    > {
        if fee_rate > 10_000 {
            Err(SureError::MaxFeeRateExceeded)
        } else if protocol_fee_rate + founders_fee_rate >= 1 {
            Err(SureError::InvalidSubFeeRates)
        } else {
            Ok(())
        }
    }

    /// Validate the stored rates, then store the new ones and the owner.
    pub fn initialize(
        &mut self,
        owner: Pubkey,
        fee_rate: u16,
        protocol_fee_rate: u16,
        founders_fee_rate: u16,
    ) -> (r: Result<(), SureError>)
        requires
            old(self).fee_rate > 10_000 || old(self).protocol_fee_rate + old(self).founders_fee_rate
                <= u16::MAX,
        ensures
            r == FeePackage::rates_check(
                old(self).fee_rate,
                old(self).protocol_fee_rate,
                old(self).founders_fee_rate,
            ),
            r is Err ==> *final(self) == *old(self),
            r is Ok ==> *final(self) == (FeePackage {
                fee_rate,
                protocol_fee_rate,
                founders_fee_rate,
                owner,
                ..*old(self)
            }),
    {
        self.validate_fee_rates()?;
        self.update_fee_package(fee_rate, protocol_fee_rate, founders_fee_rate);
        self.owner = owner;
        Ok(())
    }

    pub fn update_fee_package(&mut self, fee_rate: u16, protocol_fee_rate: u16, founders_fee_rate: u16)
        ensures
            *final(self) == (FeePackage {
                fee_rate,
                protocol_fee_rate,
                founders_fee_rate,
                ..*old(self)
            }),
    {
        self.fee_rate = fee_rate;
        self.protocol_fee_rate = protocol_fee_rate;
        self.founders_fee_rate = founders_fee_rate;
    }

    pub fn validate_fee_rates(&self) -> (r: Result<(), SureError>)
        requires
            self.fee_rate > 10_000 || self.protocol_fee_rate + self.founders_fee_rate <= u16::MAX,
        ensures
            r == FeePackage::rates_check(self.fee_rate, self.protocol_fee_rate, self.founders_fee_rate),
    {
        if self.fee_rate > FeePackage::MAX_FEE_RATE_BP {
            return Err(SureError::MaxFeeRateExceeded);
        }
        // 1/(x+y) <= 1 <=> x+y >= 1
        if self.protocol_fee_rate + self.founders_fee_rate >= 1 {
            return Err(SureError::InvalidSubFeeRates);
        }
        Ok(())
    }
}

} // verus!
