use distribution_program::derivation::{
    compute_vault, find_vault, recompute_vault_twice, verify_vault_address,
};
use distribution_program::errors::ErrorCode;
use distribution_program::handlers::{
    deposit, distribute, initialize_treasury, transfer, Deposit, Distribute, InitializeTreasury,
};
use distribution_program::ledger::Ledger;
use distribution_program::transfer::{transfer_signed, transfer_with_proof};
use distribution_program::treasury::TreasuryStore;

fn authority_a() -> [u8; 32] {
    [7; 32]
}

fn authority_b() -> [u8; 32] {
    [9; 32]
}

fn depositor_d() -> [u8; 32] {
    [11; 32]
}

fn recipient_r() -> [u8; 32] {
    [13; 32]
}

fn init_for(store: &mut TreasuryStore, authority: [u8; 32]) {
    let ctx = InitializeTreasury { authority, authority_is_signer: true };
    let r = initialize_treasury(store, &ctx);
    assert_eq!(r, Ok(()));
}

#[test]
fn initialize_creates_record_with_canonical_bump() {
    let a = authority_a();
    let mut store = TreasuryStore::new();
    init_for(&mut store, a);
    let rec = store.get_record(&a).expect("record must exist after initialize");
    assert_eq!(rec.authority, a);
    // the stored bump reproduces the vault address that derivation found
    let (vault, bump) = find_vault(&a).expect("derivation must find a canonical bump");
    assert_eq!(rec.bump, bump);
    assert!(verify_vault_address(&a, rec.bump, &vault));
}

#[test]
fn initialize_twice_fails_and_keeps_bump() {
    let a = authority_a();
    let mut store = TreasuryStore::new();
    init_for(&mut store, a);
    let first_bump = store.get_record(&a).unwrap().bump;
    let ctx = InitializeTreasury { authority: a, authority_is_signer: true };
    let r2 = initialize_treasury(&mut store, &ctx);
    assert_eq!(r2, Err(ErrorCode::AlreadyInitialized));
    assert_eq!(store.get_record(&a).unwrap().bump, first_bump);
}

#[test]
fn derivation_is_deterministic_and_idempotent() {
    let a = authority_a();
    let (vault, bump) = find_vault(&a).expect("derivation must find a canonical bump");
    let v1 = compute_vault(&a, bump).expect("the canonical bump must derive");
    let v2 = compute_vault(&a, bump).expect("the canonical bump must derive");
    assert_eq!(v1, v2);
    assert_eq!(v1, vault);
    assert!(recompute_vault_twice(&a, bump));
    assert!(recompute_vault_twice(&a, bump.wrapping_sub(1)));
}

#[test]
fn derived_vault_differs_from_its_inputs() {
    // the derivation is a hash, not the identity on any of its inputs
    let a = authority_a();
    let (vault, _bump) = find_vault(&a).expect("derivation must find a canonical bump");
    assert_ne!(vault, a);
    // and distinct authorities get distinct vaults
    let b = authority_b();
    let (vault_b, _bump_b) = find_vault(&b).expect("derivation must find a canonical bump");
    assert_ne!(vault, vault_b);
}

#[test]
fn verify_rejects_a_forged_address() {
    let a = authority_a();
    let (vault, bump) = find_vault(&a).unwrap();
    assert!(verify_vault_address(&a, bump, &vault));
    let mut forged = vault;
    forged[0] = forged[0].wrapping_add(1);
    assert!(!verify_vault_address(&a, bump, &forged));
}

#[test]
fn deposit_moves_exactly_the_amount() {
    let a = authority_a();
    let d = depositor_d();
    let mut store = TreasuryStore::new();
    init_for(&mut store, a);
    let rec = store.get_record(&a).unwrap();
    let (vault, _) = find_vault(&a).unwrap();

    let mut ledger = Ledger::new();
    assert!(ledger.fund(&d, 5000));
    let ctx = Deposit { depositor: d, depositor_is_signer: true, treasury: rec };
    assert_eq!(deposit(&mut ledger, &ctx, 1000), Ok(()));
    assert_eq!(ledger.balance(&vault), 1000);
    assert_eq!(ledger.balance(&d), 4000);
}

#[test]
fn deposit_with_insufficient_funds_changes_nothing() {
    let a = authority_a();
    let d = depositor_d();
    let mut store = TreasuryStore::new();
    init_for(&mut store, a);
    let rec = store.get_record(&a).unwrap();
    let (vault, _) = find_vault(&a).unwrap();

    let mut ledger = Ledger::new();
    assert!(ledger.fund(&d, 10));
    let ctx = Deposit { depositor: d, depositor_is_signer: true, treasury: rec };
    assert_eq!(deposit(&mut ledger, &ctx, 11), Err(ErrorCode::InsufficientFunds));
    assert_eq!(ledger.balance(&d), 10);
    assert_eq!(ledger.balance(&vault), 0);
}

#[test]
fn distribute_by_wrong_signer_is_unauthorized() {
    let a = authority_a();
    let b = authority_b();
    let r = recipient_r();
    let mut store = TreasuryStore::new();
    init_for(&mut store, a);
    let rec = store.get_record(&a).unwrap();
    let (vault, _) = find_vault(&a).unwrap();

    let mut ledger = Ledger::new();
    let ctx = Distribute { authority: b, authority_is_signer: true, treasury: rec, recipient: r };
    assert_eq!(distribute(&mut ledger, &ctx, 1), Err(ErrorCode::Unauthorized));
    assert_eq!(ledger.balance(&vault), 0);
    assert_eq!(ledger.balance(&r), 0);
}

#[test]
fn distribute_by_authority_moves_the_amount() {
    let a = authority_a();
    let d = depositor_d();
    let r = recipient_r();
    let mut store = TreasuryStore::new();
    init_for(&mut store, a);
    let rec = store.get_record(&a).unwrap();
    let (vault, _) = find_vault(&a).unwrap();

    let mut ledger = Ledger::new();
    assert!(ledger.fund(&d, 5000));
    let dep = Deposit { depositor: d, depositor_is_signer: true, treasury: rec };
    assert_eq!(deposit(&mut ledger, &dep, 1000), Ok(()));

    let ctx = Distribute { authority: a, authority_is_signer: true, treasury: rec, recipient: r };
    assert_eq!(distribute(&mut ledger, &ctx, 400), Ok(()));
    assert_eq!(ledger.balance(&vault), 600);
    assert_eq!(ledger.balance(&r), 400);
    assert_eq!(ledger.balance(&d), 4000);
}

#[test]
fn distribute_over_balance_is_insufficient_funds() {
    let a = authority_a();
    let d = depositor_d();
    let r = recipient_r();
    let mut store = TreasuryStore::new();
    init_for(&mut store, a);
    let rec = store.get_record(&a).unwrap();
    let (vault, _) = find_vault(&a).unwrap();

    let mut ledger = Ledger::new();
    assert!(ledger.fund(&d, 5000));
    let dep = Deposit { depositor: d, depositor_is_signer: true, treasury: rec };
    assert_eq!(deposit(&mut ledger, &dep, 300), Ok(()));

    let ctx = Distribute { authority: a, authority_is_signer: true, treasury: rec, recipient: r };
    assert_eq!(distribute(&mut ledger, &ctx, 301), Err(ErrorCode::InsufficientFunds));
    assert_eq!(ledger.balance(&vault), 300);
    assert_eq!(ledger.balance(&r), 0);
}

#[test]
fn distribute_with_a_forged_bump_is_a_derivation_mismatch() {
    let a = authority_a();
    let r = recipient_r();
    let mut store = TreasuryStore::new();
    init_for(&mut store, a);
    let mut rec = store.get_record(&a).unwrap();
    // find a bump whose derivation is rejected (the hash lands on the curve)
    let mut bad_bump = None;
    for b in 0..=255u8 {
        if compute_vault(&a, b).is_none() {
            bad_bump = Some(b);
            break;
        }
    }
    let bad = bad_bump.expect("some bump must be rejected for this authority");
    rec.bump = bad;
    let mut ledger = Ledger::new();
    let ctx = Distribute { authority: a, authority_is_signer: true, treasury: rec, recipient: r };
    assert_eq!(distribute(&mut ledger, &ctx, 0), Err(ErrorCode::DerivationMismatch));
    let dep = Deposit { depositor: r, depositor_is_signer: true, treasury: rec };
    assert_eq!(deposit(&mut ledger, &dep, 0), Err(ErrorCode::DerivationMismatch));
}

#[test]
fn zero_amount_transfers_succeed_and_move_nothing() {
    let s = depositor_d();
    let r = recipient_r();
    let mut ledger = Ledger::new();
    assert_eq!(transfer(&mut ledger, &s, true, &r, 0), Ok(()));
    assert_eq!(ledger.balance(&s), 0);
    assert_eq!(ledger.balance(&r), 0);
}

#[test]
fn direct_transfer_moves_the_amount() {
    let s = depositor_d();
    let r = recipient_r();
    let mut ledger = Ledger::new();
    assert!(ledger.fund(&s, 250));
    assert_eq!(transfer(&mut ledger, &s, true, &r, 100), Ok(()));
    assert_eq!(ledger.balance(&s), 150);
    assert_eq!(ledger.balance(&r), 100);
    // and to oneself, nothing changes
    assert_eq!(transfer(&mut ledger, &s, true, &s, 50), Ok(()));
    assert_eq!(ledger.balance(&s), 150);
}

#[test]
fn funding_past_the_word_limit_is_refused() {
    let s = depositor_d();
    let r = recipient_r();
    let mut ledger = Ledger::new();
    assert!(ledger.fund(&s, u64::MAX));
    assert!(!ledger.fund(&r, 1));
    assert_eq!(ledger.balance(&s), u64::MAX);
    assert_eq!(ledger.balance(&r), 0);
}

#[test]
fn error_descriptions_are_distinct() {
    let msgs = [
        ErrorCode::Unauthorized.describe(),
        ErrorCode::AlreadyInitialized.describe(),
        ErrorCode::InsufficientFunds.describe(),
        ErrorCode::DerivationMismatch.describe(),
        ErrorCode::DerivationExhausted.describe(),
    ];
    for (i, m) in msgs.iter().enumerate() {
        for (j, n) in msgs.iter().enumerate() {
            if i != j {
                assert_ne!(m, n);
            }
        }
    }
    assert_eq!(ErrorCode::Unauthorized.describe(), "you are not authorized to perform this action");
}

#[test]
fn derivation_matches_the_host_platform() {
    // the vault address is exactly what the host derivation produces for
    // the seeds (tag, authority, bump) under this program's id
    let a = authority_a();
    let (vault, bump) = find_vault(&a).unwrap();
    let pid = anchor_lang::solana_program::pubkey::Pubkey::new_from_array(
        distribution_program::derivation::PROGRAM_ID,
    );
    let tag = distribution_program::derivation::TREASURY_TAG;
    let (expected, expected_bump) =
        anchor_lang::solana_program::pubkey::Pubkey::find_program_address(&[&tag, &a], &pid);
    assert_eq!(bump, expected_bump);
    assert_eq!(vault, expected.to_bytes());
}

#[test]
fn signed_transfer_mode_moves_funds() {
    let s = depositor_d();
    let r = recipient_r();
    let mut ledger = Ledger::new();
    assert!(ledger.fund(&s, 80));
    assert_eq!(transfer_signed(&mut ledger, &s, true, &r, 30), Ok(()));
    assert_eq!(ledger.balance(&s), 50);
    assert_eq!(ledger.balance(&r), 30);
    assert_eq!(transfer_signed(&mut ledger, &s, true, &r, 51), Err(ErrorCode::InsufficientFunds));
    assert_eq!(ledger.balance(&s), 50);
}

#[test]
fn proof_transfer_mode_demands_a_matching_derivation() {
    let a = authority_a();
    let r = recipient_r();
    let (vault, bump) = find_vault(&a).unwrap();
    let mut ledger = Ledger::new();
    assert!(ledger.fund(&vault, 100));
    // a proof that derives some other address than the source is refused
    assert_eq!(
        transfer_with_proof(&mut ledger, &r, &a, 10, &a, bump),
        Err(ErrorCode::DerivationMismatch)
    );
    // the genuine proof moves the funds out of the vault
    assert_eq!(transfer_with_proof(&mut ledger, &vault, &r, 10, &a, bump), Ok(()));
    assert_eq!(ledger.balance(&vault), 90);
    assert_eq!(ledger.balance(&r), 10);
}
