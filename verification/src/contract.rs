//! Insurance contract of a user in a pool: the proof that the user has
//! insurance.
use crate::errors::SureError;
use crate::runtime::clock_unix_timestamp;
use anchor_lang::prelude::Pubkey;
use vstd::prelude::*;

verus! {

/// Time an insurance contract is locked for: one day.
pub const SURE_TIME_LOCK_IN_SECONDS: u64 = 86400;

/// Holds information about the contracts held by the user
pub struct CoveragePositions {
    /// owner of account
    pub owner: Pubkey,
    /// Vec of Pool PubKeys
    pub pools: Vec<Pubkey>,
}

impl CoveragePositions {
    pub const SPACE: usize = 1 + 32 + 4 + 32 * 256;
}

/// Accumulation of all insurance contracts for a user in a given pool.
pub struct CoveragePosition {
    /// Pool insured against
    pub pool: Pubkey,
    /// token mint
    pub position_mint: Pubkey,
    /// Contract expiry
    pub expiry_ts: i64,
    /// Contract Amount
    pub insured_amount: u64,
    /// Owner of contract
    pub owner: Pubkey,
}

impl CoveragePosition {
    pub const SPACE: usize = 8 + 8 + 32 + 32;

    /// Open the contract, with the current time of the runtime clock as its
    /// expiry.
    pub fn initialize(&mut self, position_owner: Pubkey, position_mint: Pubkey) -> (r: Result<
        (),
        SureError,
    >)
        ensures
            r is Err ==> r == Err::<(), SureError>(SureError::ClockUnavailable) && *final(self)
                == *old(self),
            r is Ok ==> *final(self) == (CoveragePosition {
                expiry_ts: final(self).expiry_ts,
                insured_amount: 0,
                position_mint,
                owner: position_owner,
                ..*old(self)
            }),
    {
        match clock_unix_timestamp() {
            None => Err(SureError::ClockUnavailable),
            Some(now) => {
                self.initialize_at(position_owner, position_mint, now);
                Ok(())
            },
        }
    }

    /// Open the contract at time `timestamp_now`, which becomes its expiry.
    pub fn initialize_at(&mut self, position_owner: Pubkey, position_mint: Pubkey, timestamp_now: i64)
        ensures
            *final(self) == (CoveragePosition {
                expiry_ts: timestamp_now,
                insured_amount: 0,
                position_mint,
                owner: position_owner,
                ..*old(self)
            }),
    {
        self.expiry_ts = timestamp_now;
        self.insured_amount = 0;
        self.position_mint = position_mint;
        self.owner = position_owner;
    }
}

} // verus!
