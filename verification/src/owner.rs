//! Owner of the Sure Protocol.
use anchor_lang::prelude::Pubkey;
use vstd::prelude::*;

verus! {

/// Owner of the Sure Protocol
///
/// # Capabilities
///
/// * Adjust pool fee
/// * Mint tokens
pub struct ProtocolOwner {
    /// Bump
    pub bump: u8,
    /// Owner of the protocol
    pub owner: Pubkey,
}

impl ProtocolOwner {
    pub const SPACE: usize = 1 + 32;
}

/// Event for changing the owner of the protocol
pub struct ChangeProtocolOwner {
    pub owner: Pubkey,
    pub old_owner: Pubkey,
}

} // verus!
