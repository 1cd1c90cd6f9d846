//! The instruction handlers: three stateless entry points — initialize,
//! deposit, distribute — plus the legacy direct transfer. Each validates
//! the supplied accounts and authorization against the treasury record,
//! then invokes the transfer executor.

use vstd::prelude::*;
use crate::derivation::{
    compute_vault, find_vault, bytes_eq, vault_for, is_canonical_bump, derivation_possible,
};
use crate::errors::ErrorCode;
use crate::ledger::{Ledger, moved};
use crate::transfer::{transfer_signed, transfer_with_proof};
use crate::treasury::{Treasury, TreasuryStore};

verus! {

/// The accounts of an initialize call: the authority creating its own
/// treasury, which must have signed the transaction.
#[derive(Clone, Copy, Debug)]
pub struct InitializeTreasury {
    pub authority: [u8; 32],
    pub authority_is_signer: bool,
}

/// The accounts of a deposit call: a signing depositor and the treasury
/// record whose vault receives the funds.
#[derive(Clone, Copy, Debug)]
pub struct Deposit {
    pub depositor: [u8; 32],
    pub depositor_is_signer: bool,
    pub treasury: Treasury,
}

/// The accounts of a distribute call: the signing caller claiming to be
/// the authority, the treasury record, and the recipient of the funds.
#[derive(Clone, Copy, Debug)]
pub struct Distribute {
    pub authority: [u8; 32],
    pub authority_is_signer: bool,
    pub treasury: Treasury,
    pub recipient: [u8; 32],
}

/// What initializing a treasury for `authority` does to the record store:
/// a duplicate attempt fails with AlreadyInitialized and changes nothing;
/// where derivation is exhausted it fails with DerivationExhausted and
/// changes nothing; otherwise a record with the canonical bump is created,
/// and no other authority's record is touched.
pub open spec fn init_transition(
    pre: TreasuryStore,
    post: TreasuryStore,
    authority: [u8; 32],
    r: Result<(), ErrorCode>,
) -> bool {
    &&& (pre.record_of(authority@) is Some ==> r == Err::<(), ErrorCode>(
        ErrorCode::AlreadyInitialized,
    ) && post == pre)
    &&& (pre.record_of(authority@) is None && !derivation_possible(authority@) ==> r == Err::<
        (),
        ErrorCode,
    >(ErrorCode::DerivationExhausted) && post == pre)
    &&& (pre.record_of(authority@) is None && derivation_possible(authority@) ==> r is Ok
        && exists|b: u8|
        is_canonical_bump(authority@, b) && post.record_of(authority@) == Some(
            Treasury { authority, bump: b },
        ))
    &&& (forall|x: Seq<u8>| x != authority@ ==> post.record_of(x) == pre.record_of(x))
}

/// Create the treasury record for the signing authority, storing the
/// canonical bump found by address derivation. Anyone may become the
/// authority of their own treasury; the record is created at most once.
pub fn initialize_treasury(store: &mut TreasuryStore, ctx: &InitializeTreasury) -> (r: Result<
    (),
    ErrorCode,
>)
    requires
        ctx.authority_is_signer,
    ensures
        init_transition(*old(store), *final(store), ctx.authority, r),
{
    if store.get_record(&ctx.authority).is_some() {
        return Err(ErrorCode::AlreadyInitialized);
    }
    match find_vault(&ctx.authority) {
        Some((_vault, bump)) => {
            let record = Treasury { authority: ctx.authority, bump };
            store.insert_new(record);
            Ok(())
        },
        None => Err(ErrorCode::DerivationExhausted),
    }
}

/// What a deposit does to the ledger: where the record's own (authority,
/// bump) fail to reproduce a vault address it fails with
/// DerivationMismatch; otherwise `amount` moves from the depositor to the
/// vault, or the call fails with InsufficientFunds, all-or-nothing.
pub open spec fn deposit_transition(
    pre: Ledger,
    post: Ledger,
    ctx: Deposit,
    amount: u64,
    r: Result<(), ErrorCode>,
) -> bool {
    &&& (vault_for(ctx.treasury.authority@, ctx.treasury.bump) is None ==> r == Err::<
        (),
        ErrorCode,
    >(ErrorCode::DerivationMismatch) && post == pre)
    &&& (vault_for(ctx.treasury.authority@, ctx.treasury.bump) matches Some(vault) ==> {
        &&& (r is Ok <==> pre.balance_of(ctx.depositor@) >= amount)
        &&& (r is Ok ==> moved(pre, post, ctx.depositor@, vault, amount))
        &&& (r is Err ==> post == pre && r == Err::<(), ErrorCode>(ErrorCode::InsufficientFunds))
    })
}

/// Move `amount` from the signing depositor into the vault derived from
/// the supplied treasury record.
pub fn deposit(ledger: &mut Ledger, ctx: &Deposit, amount: u64) -> (r: Result<(), ErrorCode>)
    requires
        old(ledger).wf(),
        ctx.depositor_is_signer,
    ensures
        final(ledger).wf(),
        deposit_transition(*old(ledger), *final(ledger), *ctx, amount, r),
{
    match compute_vault(&ctx.treasury.authority, ctx.treasury.bump) {
        Some(vault) => transfer_signed(ledger, &ctx.depositor, ctx.depositor_is_signer, &vault, amount),
        None => Err(ErrorCode::DerivationMismatch),
    }
}

/// What a distribute does to the ledger: a caller other than the stored
/// authority is rejected with Unauthorized before any value moves; with
/// the right caller, the vault address is recomputed from the record's own
/// stored fields (never from caller-supplied values), and `amount` moves
/// from the vault to the recipient, or the call fails with
/// InsufficientFunds, all-or-nothing.
pub open spec fn distribute_transition(
    pre: Ledger,
    post: Ledger,
    ctx: Distribute,
    amount: u64,
    r: Result<(), ErrorCode>,
) -> bool {
    &&& (ctx.authority@ != ctx.treasury.authority@ ==> r == Err::<(), ErrorCode>(
        ErrorCode::Unauthorized,
    ) && post == pre)
    &&& (ctx.authority@ == ctx.treasury.authority@ ==> {
        &&& (vault_for(ctx.treasury.authority@, ctx.treasury.bump) is None ==> r == Err::<
            (),
            ErrorCode,
        >(ErrorCode::DerivationMismatch) && post == pre)
        &&& (vault_for(ctx.treasury.authority@, ctx.treasury.bump) matches Some(vault) ==> {
            &&& (r is Ok <==> pre.balance_of(vault) >= amount)
            &&& (r is Ok ==> moved(pre, post, vault, ctx.recipient@, amount))
            &&& (r is Err ==> post == pre && r == Err::<(), ErrorCode>(
                ErrorCode::InsufficientFunds,
            ))
        })
    })
}

/// Disburse `amount` from the vault to the recipient, on the order of the
/// signing caller, who must be exactly the record's stored authority.
pub fn distribute(ledger: &mut Ledger, ctx: &Distribute, amount: u64) -> (r: Result<
    (),
    ErrorCode,
>)
    requires
        old(ledger).wf(),
        ctx.authority_is_signer,
    ensures
        final(ledger).wf(),
        distribute_transition(*old(ledger), *final(ledger), *ctx, amount, r),
{
    if !bytes_eq(&ctx.authority, &ctx.treasury.authority) {
        return Err(ErrorCode::Unauthorized);
    }
    match compute_vault(&ctx.treasury.authority, ctx.treasury.bump) {
        Some(vault) => transfer_with_proof(
            ledger,
            &vault,
            &ctx.recipient,
            amount,
            &ctx.treasury.authority,
            ctx.treasury.bump,
        ),
        None => Err(ErrorCode::DerivationMismatch),
    }
}

/// The legacy direct entry point: a plain peer transfer from a signing
/// sender to a recipient, with no treasury indirection and no
/// authorization beyond the signature.
pub fn transfer(
    ledger: &mut Ledger,
    sender: &[u8; 32],
    sender_is_signer: bool,
    recipient: &[u8; 32],
    amount: u64,
) -> (r: Result<(), ErrorCode>)
    requires
        old(ledger).wf(),
        sender_is_signer,
    ensures
        final(ledger).wf(),
        r is Ok <==> old(ledger).balance_of(sender@) >= amount,
        r is Ok ==> moved(*old(ledger), *final(ledger), sender@, recipient@, amount),
        r is Err ==> *final(ledger) == *old(ledger) && r == Err::<(), ErrorCode>(
            ErrorCode::InsufficientFunds,
        ),
{
    transfer_signed(ledger, sender, sender_is_signer, recipient, amount)
}

/// Initializing a treasury twice for the same authority fails the second
/// time with AlreadyInitialized, and the stored record — in particular its
/// bump — is unchanged from the first call.
pub proof fn lemma_initialize_twice(
    s0: TreasuryStore,
    s1: TreasuryStore,
    s2: TreasuryStore,
    authority: [u8; 32],
    r1: Result<(), ErrorCode>,
    r2: Result<(), ErrorCode>,
)
    requires
        init_transition(s0, s1, authority, r1),
        r1 is Ok,
        init_transition(s1, s2, authority, r2),
    ensures
        r2 == Err::<(), ErrorCode>(ErrorCode::AlreadyInitialized),
        s2 == s1,
        s2.record_of(authority@) == s1.record_of(authority@),
{
    if s0.record_of(authority@) is Some {
        assert(r1 == Err::<(), ErrorCode>(ErrorCode::AlreadyInitialized));
    }
    if !derivation_possible(authority@) {
        assert(r1 == Err::<(), ErrorCode>(ErrorCode::DerivationExhausted));
    }
    assert(s1.record_of(authority@) is Some);
}

} // verus!
