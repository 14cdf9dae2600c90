//! Pool and liquidity position state.
use crate::errors::SureError;
use crate::fee_package::FeePackage;
use crate::tick_v2::{add_liquidity_delta, liquidity_after_delta};
use anchor_lang::prelude::Pubkey;
use vstd::prelude::*;

verus! {

/// Account describing the pool manager
pub struct PoolManager {
    /// The current pool manager
    pub owner: Pubkey,
    /// Bump to identify the PDA
    pub bump: u8,
}

impl PoolManager {
    pub const SIZE: usize = 32 + 1;
}

/// SurePools holds information on which programs are insured by Sure
pub struct SurePools {
    pub bump: u8,
    /// Vec of insured programs
    pub pools: Vec<Pubkey>,
}

impl SurePools {
    pub const SPACE: usize = 1 + 4 + 32 * 256;
}

/// Pool state: the insurance pool of a smart contract.
pub struct Pool {
    /// Bump to identify the PDA
    pub bump: u8,
    pub bump_array: [u8; 1],
    /// Name of pool visible to the user
    pub name: String,
    /// Spaces between ticks
    pub tick_spacing: u16,
    pub tick_spacing_array: [u8; 2],
    /// Founder of the pool
    pub founder: Pubkey,
    /// Fee rate in hundredths of a basis point
    pub fee_rate: u16,
    /// (1/x)% of fee_rate
    pub protocol_fee: u16,
    pub founders_fee: u16,
    /// Fee paid when buying insurance, in basis points
    pub insurance_fee: u16,
    /// The public key of the smart contract that is insured
    pub smart_contract: Pubkey,
    /// Token pools of the pool
    pub token_pools: Vec<Pubkey>,
    /// Whether the insurance pool is locked
    pub locked: bool,
    pub token_mint_0: Pubkey,
    pub vault_0: Pubkey,
    pub token_mint_1: Pubkey,
    pub vault_1: Pubkey,
    /// Used liquidity
    pub used_liquidity: u128,
    /// Liquidity active at the current tick.
    ///
    /// This and the four fields below are the state that the liquidity
    /// functions read from a pool; what they hold is this library's own
    /// choice, that of a concentrated-liquidity pool.
    pub liquidity: u128,
    /// The tick of the current price
    pub current_tick_index: i32,
    /// Global fee growth of token 0 (Q64.64)
    pub fee_growth_0_x64: u128,
    /// Global fee growth of token 1 (Q64.64)
    pub fee_growth_1_x64: u128,
    /// Id of the product the pool offers
    pub product_id: u8,
}

/// Liquidity of a pool after a position changes by `delta`: the pool's
/// active liquidity changes only when the current tick lies in the position's
/// range `[lower, upper)`.
pub open spec fn next_pool_liquidity(pool_liquidity: u128, current: i32, lower: i32, upper: i32, delta: i128) -> Result<
    u128,
    SureError,
> {
    if lower <= current && current < upper {
        liquidity_after_delta(pool_liquidity, delta)
    } else {
        Ok(pool_liquidity)
    }
}

impl Pool {
    pub const SPACE: usize = 1 + 4 + 200 + 4 + 32 + 4 + 32 * 64 + 1;

    /// Initialize the pool
    ///
    /// Records the bump, name, founder, tick spacing (also as little-endian
    /// bytes), token mints and vaults.
    pub fn initialize(
        &mut self,
        bump: u8,
        name: String,
        founder: Pubkey,
        tick_spacing: u16,
        fee_package: &FeePackage,
        token_mint_0: Pubkey,
        token_mint_1: Pubkey,
        vault_0: Pubkey,
        vault_1: Pubkey,
    ) -> (r: Result<(), SureError>)
        ensures
            r is Ok,
            final(self).bump == bump,
            final(self).bump_array@ == seq![bump],
            final(self).name == name,
            final(self).founder == founder,
            final(self).tick_spacing == tick_spacing,
            final(self).tick_spacing_array@ == seq![
                (tick_spacing % 256) as u8,
                (tick_spacing / 256) as u8,
            ],
            final(self).token_mint_0 == token_mint_0,
            final(self).token_mint_1 == token_mint_1,
            final(self).vault_0 == vault_0,
            final(self).vault_1 == vault_1,
            final(self).fee_rate == old(self).fee_rate,
            final(self).liquidity == old(self).liquidity,
            final(self).current_tick_index == old(self).current_tick_index,
    {
        self.bump = bump;
        self.bump_array = [bump];
        self.name = name;
        self.founder = founder;
        self.tick_spacing = tick_spacing;
        self.tick_spacing_array = [(tick_spacing % 256) as u8, (tick_spacing / 256) as u8];
        self.token_mint_0 = token_mint_0;
        self.token_mint_1 = token_mint_1;
        self.vault_0 = vault_0;
        self.vault_1 = vault_1;
        proof {
            assert(self.bump_array@ =~= seq![bump]);
            assert(self.tick_spacing_array@ =~= seq![
                (tick_spacing % 256) as u8,
                (tick_spacing / 256) as u8,
            ]);
        }
        Ok(())
    }

    /// The pool liquidity after a position changes by `liquidity_delta`.
    ///
    /// The rule is this library's choice, that of a concentrated-liquidity
    /// pool: the active liquidity moves only when the current tick lies in
    /// the position's range.
    pub fn get_next_liquidity(&self, position: &LiquidityPosition, liquidity_delta: i128) -> (r:
        Result<u128, SureError>)
        requires
            liquidity_delta != i128::MIN,
        ensures
            r == next_pool_liquidity(
                self.liquidity,
                self.current_tick_index,
                position.tick_index_lower,
                position.tick_index_upper,
                liquidity_delta,
            ),
    {
        if position.tick_index_lower <= self.current_tick_index && self.current_tick_index
            < position.tick_index_upper {
            add_liquidity_delta(self.liquidity, liquidity_delta)
        } else {
            Ok(self.liquidity)
        }
    }

    /// The tick of the current price, as the pool keeps it (a field of this
    /// library's choosing).
    pub fn get_current_tick_index(&self) -> (r: Result<i32, SureError>)
        ensures
            r == Ok::<i32, SureError>(self.current_tick_index),
    {
        Ok(self.current_tick_index)
    }

    /// Set the pool's active liquidity (a field of this library's choosing);
    /// nothing else of the pool changes.
    pub fn update_liquidity(&mut self, next_liquidity: u128) -> (r: Result<(), SureError>)
        ensures
            r is Ok,
            final(self).liquidity == next_liquidity,
            final(self).current_tick_index == old(self).current_tick_index,
            final(self).tick_spacing == old(self).tick_spacing,
            final(self).fee_growth_0_x64 == old(self).fee_growth_0_x64,
            final(self).fee_growth_1_x64 == old(self).fee_growth_1_x64,
            *final(self) == (Pool { liquidity: next_liquidity, ..*old(self) }),
    {
        self.liquidity = next_liquidity;
        Ok(())
    }
}

/// Liquidity Position
///
/// Holds information about the liquidity provided over a tick range.
pub struct LiquidityPosition {
    /// Bump Identity
    pub bump: u8,
    /// The amount of liquidity provided in lamports
    pub liquidity: u128,
    /// the amount of liquidity used
    pub used_liquidity: u128,
    /// Liquidity Pool
    pub pool: Pubkey,
    /// NFT mint. The mint representing the position.
    /// The NFT is the owner of the position.
    pub position_mint: Pubkey,
    /// Lower tick of the range
    pub tick_index_lower: i32,
    /// Upper tick of the range
    pub tick_index_upper: i32,
    /// Outstanding Rewards
    pub owed_fees: u32,
    pub owed_premium: u32,
    /// Fee growth inside the range at the last update, token 0 (Q64.64)
    pub fee_growth_inside_0_last_x64: u128,
    /// Fee growth inside the range at the last update, token 1 (Q64.64)
    pub fee_growth_inside_1_last_x64: u128,
}

impl LiquidityPosition {
    pub const SPACE: usize = 1 + 8 + 8 + 32 + 32 + 32 + 32 + 8 + 1 + 8 + 4;

    pub fn initialize(
        &mut self,
        bump: u8,
        liquidity_delta: u128,
        pool: Pubkey,
        position_mint: Pubkey,
        tick_index_lower: i32,
        tick_index_upper: i32,
    )
        ensures
            final(self).bump == bump,
            final(self).liquidity == liquidity_delta,
            final(self).pool == pool,
            final(self).position_mint == position_mint,
            final(self).tick_index_lower == tick_index_lower,
            final(self).tick_index_upper == tick_index_upper,
            final(self).used_liquidity == old(self).used_liquidity,
            final(self).owed_fees == old(self).owed_fees,
            final(self).owed_premium == old(self).owed_premium,
    {
        self.bump = bump;
        self.liquidity = liquidity_delta;
        self.pool = pool;
        self.position_mint = position_mint;
        self.tick_index_lower = tick_index_lower;
        self.tick_index_upper = tick_index_upper;
    }

    /// Apply a liquidity change and record the fee growth inside the range.
    pub fn update(
        &mut self,
        liquidity_delta: i128,
        fee_growth_inside_0_x64: u128,
        fee_growth_inside_1_x64: u128,
    ) -> (r: Result<(), SureError>)
        requires
            liquidity_delta != i128::MIN,
        ensures
            match liquidity_after_delta(old(self).liquidity, liquidity_delta) {
                Err(e) => r == Err::<(), SureError>(e) && *final(self) == *old(self),
                Ok(l) => r is Ok && *final(self) == (LiquidityPosition {
                    liquidity: l,
                    fee_growth_inside_0_last_x64: fee_growth_inside_0_x64,
                    fee_growth_inside_1_last_x64: fee_growth_inside_1_x64,
                    ..*old(self)
                }),
            },
    {
        let next = add_liquidity_delta(self.liquidity, liquidity_delta)?;
        self.liquidity = next;
        self.fee_growth_inside_0_last_x64 = fee_growth_inside_0_x64;
        self.fee_growth_inside_1_last_x64 = fee_growth_inside_1_x64;
        Ok(())
    }
}

} // verus!
