//! The kinds of product a pool can offer.
use crate::errors::SureError;
use vstd::prelude::*;

verus! {

/// Product offered by a pool: smart-contract coverage or an AMM.
#[derive(PartialEq, Eq, Clone, Copy, Debug, Structural)]
pub enum ProductType {
    Coverage,
    AMM,
}

impl ProductType {
    /// Product type from its on-chain id; only id 1 (coverage) is known.
    pub fn get_product_type(product_id: u8) -> (r: Result<Self, SureError>)
        ensures
            product_id == 1 ==> r == Ok::<ProductType, SureError>(ProductType::Coverage),
            product_id != 1 ==> r == Err::<ProductType, SureError>(SureError::InvalidProductTypeId),
    {
        if product_id == 1 {
            return Ok(ProductType::Coverage);
        } else {
            return Err(SureError::InvalidProductTypeId);
        }
    }

    pub fn is_smart_contract_coverage(self) -> (r: bool)
        ensures
            r == (self == ProductType::Coverage),
    {
        self == ProductType::Coverage
    }

    #[allow(non_snake_case)]
    pub fn is_smart_AMM(self) -> (r: bool)
        ensures
            r == (self == ProductType::AMM),
    {
        self == ProductType::AMM
    }
}

impl Default for ProductType {
    fn default() -> (r: Self)
        ensures
            r == ProductType::Coverage,
    {
        ProductType::Coverage
    }
}

} // verus!
