//! Values that only the Solana runtime can supply.
use anchor_lang::solana_program::sysvar::Sysvar;
use vstd::prelude::*;

verus! {

/// The account key type of the Solana runtime.
#[verifier::external_type_specification]
#[verifier::external_body]
pub struct ExPubkey(anchor_lang::prelude::Pubkey);

/// `Pubkey::default` of `anchor_lang` (solana-program's derived `Default`):
/// the all-zero key. Verus sees no more of the key than that a value is
/// returned; that it is the same key on every call is not stated.
pub assume_specification[ <anchor_lang::prelude::Pubkey as core::default::Default>::default ]() -> (r: anchor_lang::prelude::Pubkey);

/// Reads the runtime clock through `anchor_lang`'s `Clock::get` (the Solana clock
/// sysvar) and returns its `unix_timestamp`, or `None` when the sysvar cannot be
/// read (off chain it never can). Nothing is promised about the value: it is
/// the current time of the cluster.
#[verifier::external_body]
pub(crate) fn clock_unix_timestamp() -> (r: Option<i64>) {
    anchor_lang::prelude::Clock::get().ok().map(|clock| clock.unix_timestamp)
}

} // verus!
