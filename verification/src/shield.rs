//! State of the shield program: protection bought against a pool and the
//! coverage provided to it.
use anchor_lang::prelude::Pubkey;
use vstd::prelude::*;

verus! {

broadcast use vstd::string::group_string_axioms;

/// Errors of the shield program.
#[derive(Clone, Copy, PartialEq, Eq, Debug, Structural)]
pub enum ShieldError {
    DefaultError,
    CoveragePositionRejected,
}

/// How a reduction of protection is carried out.
#[derive(Clone, Copy, PartialEq, Eq, Debug, Structural)]
pub struct UpdateProtection {
    /// amount that is pending and can be closed on the ob
    pub amount_to_close: u64,
    /// amount that is matched and needs to be hedged
    pub amount_to_hedge: u64,
}

/// Protection held by a policy holder.
pub struct Protection {
    pub bump: u8,
    pub owner: Pubkey,
    pub order_id: u128,
    pub pending_protection: u64,
    pub protection: u64,
}

impl Protection {
    /// Set every field of the protection.
    pub fn new(
        &mut self,
        bump: u8,
        owner: Pubkey,
        order_id: u128,
        pending_protection: u64,
        protection: u64,
    )
        ensures
            *final(self) == (Protection { bump, owner, order_id, pending_protection, protection }),
    {
        self.bump = bump;
        self.owner = owner;
        self.order_id = order_id;
        self.pending_protection = pending_protection;
        self.protection = protection;
    }

    /// Reduce protection by `amount`: the pending part is closed, what
    /// exceeds it has to be hedged.
    pub fn reduce_protection(&mut self, amount: u64) -> (r: Result<UpdateProtection, ShieldError>)
        ensures
            r == Ok::<UpdateProtection, ShieldError>(
                UpdateProtection {
                    amount_to_close: if amount < old(self).pending_protection {
                        amount
                    } else {
                        old(self).pending_protection
                    },
                    amount_to_hedge: if amount > old(self).pending_protection {
                        (amount - old(self).pending_protection) as u64
                    } else {
                        0
                    },
                },
            ),
            *final(self) == *old(self),
    {
        let amount_to_close = if amount < self.pending_protection {
            amount
        } else {
            self.pending_protection
        };
        let amount_to_hedge = if amount > self.pending_protection {
            amount - self.pending_protection
        } else {
            0
        };
        Ok(UpdateProtection { amount_to_close, amount_to_hedge })
    }
}

/// A reduction is split without loss: what is closed and what is hedged
/// add up to the amount, and no more than the pending protection is closed.
pub proof fn law_reduction_splits_amount(pending_protection: u64, amount: u64, u: UpdateProtection)
    requires
        u == (UpdateProtection {
            amount_to_close: if amount < pending_protection {
                amount
            } else {
                pending_protection
            },
            amount_to_hedge: if amount > pending_protection {
                (amount - pending_protection) as u64
            } else {
                0
            },
        }),
    ensures
        u.amount_to_close + u.amount_to_hedge == amount,
        u.amount_to_close <= pending_protection,
{
}

/// Coverage position of a provider.
pub struct CoveragePosition {
    /// pda bump
    pub bump: u8,
    pub bump_array: [u8; 1],
    /// mint of position
    pub mint: Pubkey,
    /// pending coverage
    pub pending_coverage: u64,
    /// provided coverage
    pub provided_coverage: u64,
    pub premium: u64,
}

impl CoveragePosition {
    pub const SPACE: usize = 0;

    /// Set the bump and mint; the pending coverage starts at zero whatever
    /// `pending_coverage` is.
    pub fn initialize(&mut self, bump: u8, mint: &Pubkey, pending_coverage: u64)
        ensures
            final(self).bump == bump,
            final(self).bump_array[0] == bump,
            final(self).mint == *mint,
            final(self).pending_coverage == 0,
            final(self).provided_coverage == old(self).provided_coverage,
            final(self).premium == old(self).premium,
    {
        self.bump = bump;
        self.bump_array = [bump];
        self.mint = *mint;
        self.pending_coverage = 0;
    }

    /// Record provided coverage and its premium, when some coverage was
    /// provided.
    pub fn provide_coverage(&mut self, coverage: u64, premium: u64)
        ensures
            coverage > 0 ==> *final(self) == (CoveragePosition {
                provided_coverage: coverage,
                premium,
                ..*old(self)
            }),
            coverage == 0 ==> *final(self) == *old(self),
    {
        if coverage > 0 {
            self.provided_coverage = coverage;
            self.premium = premium;
        }
    }
}

/// A shield pool.
pub struct Pool {
    pub bump: u8,
    pub bump_array: [u8; 1],
    pub name: String,
    pub founder: Pubkey,
    /// fee rates in basis points
    pub fee_rate: u16,
    /// (1/x)% of fee_rate
    pub protocol_fee: u16,
    pub founders_fee: u16,
    /// Fee paid when buying insurance, in basis points
    pub insurance_fee: u16,
    /// vault holding collateral
    pub vault: Pubkey,
    /// order book data
    pub orderbook_market: Pubkey,
    pub event_queue: Pubkey,
    pub asks: Pubkey,
    pub bids: Pubkey,
    /// Sure underlying prediction market
    pub sure_market: u64,
}

impl Pool {
    pub const SPACE: usize = 0;

    /// Initialize pool state, with the default fee rates.
    pub fn initialize(
        &mut self,
        bump: &u8,
        name: &str,
        founder: &Pubkey,
        vault: &Pubkey,
        orderbook_market: &Pubkey,
        event_queue: &Pubkey,
        asks: &Pubkey,
        bids: &Pubkey,
        sure_market: &u64,
    )
        ensures
            final(self).bump == *bump,
            final(self).bump_array[0] == *bump,
            final(self).name@ == name@,
            final(self).founder == *founder,
            final(self).fee_rate == 100,
            final(self).protocol_fee == 2,
            final(self).founders_fee == 2,
            final(self).insurance_fee == 50,
            final(self).vault == *vault,
            final(self).orderbook_market == *orderbook_market,
            final(self).event_queue == *event_queue,
            final(self).asks == *asks,
            final(self).bids == *bids,
            final(self).sure_market == *sure_market,
    {
        self.bump = *bump;
        self.bump_array = [*bump];
        self.name = name.to_string();
        self.founder = *founder;
        self.fee_rate = 100;
        self.protocol_fee = 2;
        self.founders_fee = 2;
        self.insurance_fee = 50;
        self.vault = *vault;
        self.orderbook_market = *orderbook_market;
        self.event_queue = *event_queue;
        self.bids = *bids;
        self.asks = *asks;
        self.sure_market = *sure_market;
    }
}

} // verus!
