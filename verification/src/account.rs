//! Ownership checks of token accounts.
use crate::errors::SureError;
use anchor_lang::prelude::Pubkey;
use vstd::prelude::*;

verus! {

/// Compares two keys with `Pubkey`'s `==` (solana-program derives
/// `PartialEq` on its 32 bytes): equal exactly when the keys are the same.
#[verifier::external_body]
fn same_key(a: &Pubkey, b: &Pubkey) -> (r: bool)
    ensures
        r == (*a == *b),
{
    a == b
}

/// Validate owner
///
/// Check that the key of the owner account matches `expected_owner` and
/// that the account signed.
pub fn validate_owner(expected_owner: &Pubkey, owner_key: &Pubkey, owner_is_signer: bool) -> (r:
    Result<(), SureError>)
    ensures
        r is Ok <==> *expected_owner == *owner_key && owner_is_signer,
        r is Err ==> r == Err::<(), SureError>(SureError::InvalidOwner),
{
    if !same_key(expected_owner, owner_key) || !owner_is_signer {
        return Err(SureError::InvalidOwner);
    }
    Ok(())
}

/// Validate Token Account ownership
///
/// Check if the expected owner has admin rights over the token account:
/// as the account's delegate, or else as the token owner; either way the
/// expected owner has to sign.
pub fn validate_token_account_ownership(
    delegate: Option<Pubkey>,
    token_owner: &Pubkey,
    expected_owner_key: &Pubkey,
    expected_owner_is_signer: bool,
) -> (r: Result<(), SureError>)
    ensures
        r is Err ==> r == Err::<(), SureError>(SureError::InvalidOwner),
        (r is Ok) == ((delegate == Some(*expected_owner_key) || *token_owner
            == *expected_owner_key) && expected_owner_is_signer),
{
    match delegate {
        Some(d) => {
            if same_key(expected_owner_key, &d) {
                validate_owner(&d, expected_owner_key, expected_owner_is_signer)
            } else {
                validate_owner(token_owner, expected_owner_key, expected_owner_is_signer)
            }
        },
        None => validate_owner(token_owner, expected_owner_key, expected_owner_is_signer),
    }
}

} // verus!
