//! Address derivation: the treasury vault's control address is derived
//! deterministically from a fixed domain tag and the authority's identity,
//! together with a canonical proof value (the "bump"). Reproducing the
//! address from (tag, authority, bump) is the vault's only authorization
//! mechanism: the vault has no private key.

use vstd::prelude::*;

verus! {

/// The fixed domain tag distinguishing the treasury derivation namespace:
/// the bytes of `"treasury"`.
pub const TREASURY_TAG: [u8; 8] = [116, 114, 101, 97, 115, 117, 114, 121];

/// The identity of this program: the namespace owner of every derived
/// vault address.
pub const PROGRAM_ID: [u8; 32] = [
    57, 197, 219, 124, 201, 6, 173, 120, 187, 103, 42, 63, 175, 251, 121, 210,
    136, 232, 183, 12, 181, 253, 17, 16, 11, 64, 221, 45, 113, 218, 4, 139,
];

/// The address that the host platform derives from the seeds
/// (tag, authority, [bump]) under `program_id`, or `None` where that
/// derivation is rejected (the resulting point would have a private key,
/// or a seed is over the platform's length limit). It is a pure function
/// of its arguments: a hash plus a curve membership test.
pub uninterp spec fn derived_address(
    tag: Seq<u8>,
    authority: Seq<u8>,
    bump: u8,
    program_id: Seq<u8>,
) -> Option<Seq<u8>>;

/// The vault address of the given authority under the fixed tag and
/// program id, for a given bump.
pub open spec fn vault_for(authority: Seq<u8>, bump: u8) -> Option<Seq<u8>> {
    derived_address(TREASURY_TAG@, authority, bump, PROGRAM_ID@)
}

/// A bump is canonical when it is the largest value in the probed range
/// (255 down to 1) whose derivation succeeds.
pub open spec fn is_canonical_bump(authority: Seq<u8>, bump: u8) -> bool {
    &&& 1 <= bump
    &&& vault_for(authority, bump) is Some
    &&& forall|b2: u8| b2 > bump ==> vault_for(authority, b2) is None
}

/// Some bump in the probed range yields a valid derivation for this
/// authority; where none does, derivation is exhausted.
pub open spec fn derivation_possible(authority: Seq<u8>) -> bool {
    exists|b: u8| 1 <= b && vault_for(authority, b) is Some
}

/// Relies on `anchor_lang::solana_program::pubkey::Pubkey::create_program_address`
/// (solana-address's off-chain implementation): a deterministic derivation,
/// sha256 over the seeds, the program id and a fixed marker, rejected exactly
/// when the digest lies on the ed25519 curve. The tag (8 bytes), the
/// authority (32 bytes) and the single bump byte are all within the
/// platform's seed-length limit of 32, and 3 seeds are under its limit of
/// 16, so no length error can occur.
#[verifier::external_body]
fn create_address(tag: &[u8; 8], authority: &[u8; 32], bump: u8, program_id: &[u8; 32]) -> (r:
    Option<[u8; 32]>)
    ensures
        match r {
            Some(a) => derived_address(tag@, authority@, bump, program_id@) == Some(a@),
            None => derived_address(tag@, authority@, bump, program_id@) is None,
        },
{
    let pid = anchor_lang::solana_program::pubkey::Pubkey::new_from_array(*program_id);
    let bump_seed = [bump];
    let seeds: [&[u8]; 3] = [tag, authority, &bump_seed];
    match anchor_lang::solana_program::pubkey::Pubkey::create_program_address(&seeds, &pid) {
        Ok(a) => Some(a.to_bytes()),
        Err(_) => None,
    }
}

/// Relies on `anchor_lang::solana_program::pubkey::Pubkey::try_find_program_address`
/// (solana-address's off-chain implementation): it probes bumps from 255 down
/// to 1 and returns the first whose derivation succeeds, together with the
/// derived address; it returns `None` when every probed bump is rejected.
/// Both seeds are within the platform's length limits, so the probe can stop
/// early only by exhausting the range.
#[verifier::external_body]
fn find_address(tag: &[u8; 8], authority: &[u8; 32], program_id: &[u8; 32]) -> (r: Option<
    ([u8; 32], u8),
>)
    ensures
        match r {
            Some(found) => {
                &&& 1 <= found.1
                &&& derived_address(tag@, authority@, found.1, program_id@) == Some(found.0@)
                &&& forall|b2: u8|
                    b2 > found.1 ==> derived_address(tag@, authority@, b2, program_id@) is None
            },
            None => forall|b: u8|
                1 <= b ==> derived_address(tag@, authority@, b, program_id@) is None,
        },
{
    let pid = anchor_lang::solana_program::pubkey::Pubkey::new_from_array(*program_id);
    let seeds: [&[u8]; 2] = [tag, authority];
    match anchor_lang::solana_program::pubkey::Pubkey::try_find_program_address(&seeds, &pid) {
        Some((a, b)) => Some((a.to_bytes(), b)),
        None => None,
    }
}

/// Recompute the vault address of `authority` under the fixed tag and
/// program id from a given bump.
pub fn compute_vault(authority: &[u8; 32], bump: u8) -> (r: Option<[u8; 32]>)
    ensures
        match r {
            Some(a) => vault_for(authority@, bump) == Some(a@),
            None => vault_for(authority@, bump) is None,
        },
{
    create_address(&TREASURY_TAG, authority, bump, &PROGRAM_ID)
}

/// Find the canonical bump for `authority` and the vault address it
/// derives; `None` when no bump in the probed range yields a valid
/// derivation.
pub fn find_vault(authority: &[u8; 32]) -> (r: Option<([u8; 32], u8)>)
    ensures
        match r {
            Some(found) => is_canonical_bump(authority@, found.1) && vault_for(
                authority@,
                found.1,
            ) == Some(found.0@),
            None => !derivation_possible(authority@),
        },
{
    find_address(&TREASURY_TAG, authority, &PROGRAM_ID)
}

/// Compare two 32-byte identities or addresses.
pub fn bytes_eq(a: &[u8; 32], b: &[u8; 32]) -> (r: bool)
    ensures
        r <==> a@ == b@,
{
    let mut i: usize = 0;
    while i < 32
        invariant
            i <= 32,
            forall|j: int| 0 <= j < i ==> a@[j] == b@[j],
        decreases 32 - i,
    {
        if a[i] != b[i] {
            return false;
        }
        i += 1;
    }
    proof {
        assert(a@ =~= b@);
    }
    true
}

/// Check that a claimed address is exactly what (tag, authority, bump)
/// derives: the verification half of the derivation contract, used in
/// place of a private-key signature.
pub fn verify_vault_address(authority: &[u8; 32], bump: u8, claimed: &[u8; 32]) -> (r: bool)
    ensures
        r <==> vault_for(authority@, bump) == Some(claimed@),
{
    match compute_vault(authority, bump) {
        Some(a) => bytes_eq(&a, claimed),
        None => false,
    }
}

/// The derivation is deterministic and idempotent: any two recomputations
/// of the vault address from the same (authority, bump) yield the same
/// result, since every recomputation returns `vault_for(authority, bump)`.
pub proof fn lemma_derivation_deterministic(
    authority: Seq<u8>,
    bump: u8,
    v1: Option<Seq<u8>>,
    v2: Option<Seq<u8>>,
)
    requires
        v1 == vault_for(authority, bump),
        v2 == vault_for(authority, bump),
    ensures
        v1 == v2,
{
}

/// An executable witness of the same law: recomputing the vault address
/// twice from the same inputs always agrees.
pub fn recompute_vault_twice(authority: &[u8; 32], bump: u8) -> (r: bool)
    ensures
        r,
{
    let v1 = compute_vault(authority, bump);
    let v2 = compute_vault(authority, bump);
    match (v1, v2) {
        (Some(a1), Some(a2)) => bytes_eq(&a1, &a2),
        (None, None) => true,
        _ => false,
    }
}

} // verus!
