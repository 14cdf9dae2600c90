use anchor_lang::prelude::Pubkey;
use sure_protocol::account::{validate_owner, validate_token_account_ownership};
use sure_protocol::contract::CoveragePosition as InsuranceContract;
use sure_protocol::errors::SureError;
use sure_protocol::fee::FeePackage as StateFeePackage;
use sure_protocol::fee_package::FeePackage;
use sure_protocol::managers::get_next_liquidity_state;
use sure_protocol::pool::LiquidityPosition;
use sure_protocol::product::ProductType;
use sure_protocol::shield::{CoveragePosition as ShieldPosition, Pool as ShieldPool, Protection, UpdateProtection};
use sure_protocol::tick_v2::{TickArray, TickArrayPool};

#[test]
fn product_types() {
    assert_eq!(ProductType::get_product_type(1), Ok(ProductType::Coverage));
    assert_eq!(ProductType::get_product_type(2), Err(SureError::InvalidProductTypeId));
    assert!(ProductType::Coverage.is_smart_contract_coverage());
    assert!(ProductType::AMM.is_smart_AMM());
    assert_eq!(ProductType::default(), ProductType::Coverage);
}

#[test]
fn fee_package_rates() {
    let owner = Pubkey::new_unique();
    let mut f = FeePackage { bump: 1, owner: Pubkey::default(), fee_rate: 0, founders_fee: 0, protocol_fee: 0 };
    assert_eq!(f.initialize(owner, 10_001, 2, 2), Err(SureError::MaxFeeRateExceeded));
    assert_eq!(f.initialize(owner, 100, 1, 3), Err(SureError::InvalidSubFeeRates));
    assert_eq!(f.owner, Pubkey::default());
    assert_eq!(f.initialize(owner, 100, 2, 2), Ok(()));
    assert_eq!(f.owner, owner);
    assert_eq!(f.validate_fee_rates(), Ok(()));
}

#[test]
fn state_fee_package_rates() {
    let owner = Pubkey::new_unique();
    let mut f = StateFeePackage {
        bump: 1,
        owner: Pubkey::default(),
        fee_rate: 20_000,
        protocol_fee_rate: 0,
        founders_fee_rate: 0,
    };
    // the stored rates are validated before the new ones are taken
    assert_eq!(f.initialize(owner, 100, 0, 0), Err(SureError::MaxFeeRateExceeded));
    f.update_fee_package(100, 0, 0);
    assert_eq!(f.initialize(owner, 200, 1, 0), Ok(()));
    assert_eq!(f.fee_rate, 200);
    assert_eq!(f.validate_fee_rates(), Err(SureError::InvalidSubFeeRates));
}

#[test]
fn protection_reduction() {
    let mut p = Protection {
        bump: 0,
        owner: Pubkey::default(),
        order_id: 0,
        pending_protection: 0,
        protection: 0,
    };
    let owner = Pubkey::new_unique();
    p.new(3, owner, 17, 100, 40);
    assert_eq!(p.owner, owner);
    assert_eq!(p.pending_protection, 100);
    assert_eq!(
        p.reduce_protection(30),
        Ok(UpdateProtection { amount_to_close: 30, amount_to_hedge: 0 })
    );
    assert_eq!(
        p.reduce_protection(130),
        Ok(UpdateProtection { amount_to_close: 100, amount_to_hedge: 30 })
    );
}

#[test]
fn shield_positions_and_pool() {
    let mint = Pubkey::new_unique();
    let mut c = ShieldPosition {
        bump: 0,
        bump_array: [0],
        mint: Pubkey::default(),
        pending_coverage: 9,
        provided_coverage: 0,
        premium: 0,
    };
    c.initialize(4, &mint, 55);
    assert_eq!(c.bump_array, [4]);
    assert_eq!(c.mint, mint);
    assert_eq!(c.pending_coverage, 0);
    c.provide_coverage(0, 8);
    assert_eq!(c.premium, 0);
    c.provide_coverage(10, 8);
    assert_eq!(c.provided_coverage, 10);
    assert_eq!(c.premium, 8);

    let k = Pubkey::default();
    let mut pool = ShieldPool {
        bump: 0,
        bump_array: [0],
        name: String::new(),
        founder: k,
        fee_rate: 0,
        protocol_fee: 0,
        founders_fee: 0,
        insurance_fee: 0,
        vault: k,
        orderbook_market: k,
        event_queue: k,
        asks: k,
        bids: k,
        sure_market: 0,
    };
    let market = Pubkey::new_unique();
    pool.initialize(&2, "shield", &k, &k, &market, &k, &k, &k, &12);
    assert_eq!(pool.name, "shield");
    assert_eq!(pool.fee_rate, 100);
    assert_eq!(pool.insurance_fee, 50);
    assert_eq!(pool.orderbook_market, market);
    assert_eq!(pool.sure_market, 12);
}

#[test]
fn owner_checks() {
    let a = Pubkey::new_unique();
    let b = Pubkey::new_unique();
    assert_eq!(validate_owner(&a, &a, true), Ok(()));
    assert_eq!(validate_owner(&a, &b, true), Err(SureError::InvalidOwner));
    assert_eq!(validate_owner(&a, &a, false), Err(SureError::InvalidOwner));
    // the delegate signs for the account
    assert_eq!(validate_token_account_ownership(Some(a), &b, &a, true), Ok(()));
    assert_eq!(validate_token_account_ownership(Some(a), &b, &a, false), Err(SureError::InvalidOwner));
    // otherwise the token owner has to sign
    assert_eq!(validate_token_account_ownership(None, &b, &b, true), Ok(()));
    assert_eq!(validate_token_account_ownership(Some(a), &b, &b, true), Ok(()));
    assert_eq!(validate_token_account_ownership(None, &b, &a, true), Err(SureError::InvalidOwner));
    assert_eq!(validate_token_account_ownership(None, &b, &b, false), Err(SureError::InvalidOwner));
}

#[test]
fn insurance_contract_opening() {
    let k = Pubkey::default();
    let mut c = InsuranceContract { pool: k, position_mint: k, expiry_ts: 5, insured_amount: 9, owner: k };
    let owner = Pubkey::new_unique();
    assert_eq!(c.initialize(owner, k), Err(SureError::ClockUnavailable));
    assert_eq!(c.insured_amount, 9);
    c.initialize_at(owner, k, 600);
    assert_eq!(c.insured_amount, 0);
    assert_eq!(c.expiry_ts, 600);
    assert_eq!(c.owner, owner);
}

#[test]
fn next_liquidity_state() {
    let k = Pubkey::default();
    let position = LiquidityPosition {
        bump: 0,
        liquidity: 0,
        used_liquidity: 0,
        pool: k,
        position_mint: k,
        tick_index_lower: 0,
        tick_index_upper: 10,
        owed_fees: 0,
        owed_premium: 0,
        fee_growth_inside_0_last_x64: 0,
        fee_growth_inside_1_last_x64: 0,
    };
    let pool = TickArrayPool::new(TickArray::new(0, k), None, None);
    assert!(get_next_liquidity_state(10, position, pool).is_ok());
}
