//! The transfer executor: the two ways value moves. In signer mode the
//! source has signed the transaction; in derivation-proof mode the source
//! is the vault itself, and reproducing its address from
//! (tag, authority, bump) stands in for a signature it cannot give.

use vstd::prelude::*;
use crate::derivation::{compute_vault, bytes_eq, vault_for};
use crate::errors::ErrorCode;
use crate::ledger::{Ledger, moved};

verus! {

/// Move `amount` from a signing source to `dest`. Fails with
/// InsufficientFunds, changing nothing, exactly when the source balance is
/// under `amount`; a zero amount always succeeds and moves nothing.
pub fn transfer_signed(
    ledger: &mut Ledger,
    source: &[u8; 32],
    source_is_signer: bool,
    dest: &[u8; 32],
    amount: u64,
) -> (r: Result<(), ErrorCode>)
    requires
        old(ledger).wf(),
        source_is_signer,
    ensures
        final(ledger).wf(),
        r is Ok <==> old(ledger).balance_of(source@) >= amount,
        r is Ok ==> moved(*old(ledger), *final(ledger), source@, dest@, amount),
        r is Err ==> *final(ledger) == *old(ledger) && r == Err::<(), ErrorCode>(
            ErrorCode::InsufficientFunds,
        ),
{
    ledger.move_value(source, dest, amount)
}

/// Move `amount` out of the vault at `source` to `dest`, authorized by the
/// derivation proof (authority, bump): it must reproduce exactly the
/// source address, else the transfer fails with DerivationMismatch and
/// changes nothing. With a valid proof it behaves as a signed transfer
/// from the vault.
pub fn transfer_with_proof(
    ledger: &mut Ledger,
    source: &[u8; 32],
    dest: &[u8; 32],
    amount: u64,
    authority: &[u8; 32],
    bump: u8,
) -> (r: Result<(), ErrorCode>)
    requires
        old(ledger).wf(),
    ensures
        final(ledger).wf(),
        vault_for(authority@, bump) != Some(source@) ==> r == Err::<(), ErrorCode>(
            ErrorCode::DerivationMismatch,
        ) && *final(ledger) == *old(ledger),
        vault_for(authority@, bump) == Some(source@) ==> {
            &&& (r is Ok <==> old(ledger).balance_of(source@) >= amount)
            &&& (r is Ok ==> moved(*old(ledger), *final(ledger), source@, dest@, amount))
            &&& (r is Err ==> *final(ledger) == *old(ledger) && r == Err::<(), ErrorCode>(
                ErrorCode::InsufficientFunds,
            ))
        },
{
    let proven = match compute_vault(authority, bump) {
        Some(derived) => bytes_eq(&derived, source),
        None => false,
    };
    if !proven {
        return Err(ErrorCode::DerivationMismatch);
    }
    ledger.move_value(source, dest, amount)
}

} // verus!
