//! The error taxonomy: every failure a handler or the transfer executor
//! can surface, kept distinct so callers can tell a wrong caller from a
//! corrupted or forged derivation.

use vstd::prelude::*;

verus! {

/// Distinct failure identifiers for the treasury operations.
#[derive(Clone, Copy, Debug, PartialEq, Eq, Structural)]
pub enum ErrorCode {
    /// The caller's identity does not match the treasury record's stored
    /// authority.
    Unauthorized,
    /// A treasury record already exists for this authority.
    AlreadyInitialized,
    /// The source account's balance is less than the requested amount.
    InsufficientFunds,
    /// A presented or recomputed derivation does not reproduce the expected
    /// vault address: tampering or a wrong bump.
    DerivationMismatch,
    /// No canonical proof value exists in the probed range; fatal, the
    /// operation must not proceed.
    DerivationExhausted,
}

impl ErrorCode {
    /// A human-readable description, for logs and diagnostics.
    pub fn describe(&self) -> (r: &'static str)
    {
        match self {
            ErrorCode::Unauthorized => "you are not authorized to perform this action",
            ErrorCode::AlreadyInitialized => "a treasury already exists for this authority",
            ErrorCode::InsufficientFunds => "insufficient funds for the requested transfer",
            ErrorCode::DerivationMismatch => "the derivation does not match the vault address",
            ErrorCode::DerivationExhausted => "no canonical derivation proof exists",
        }
    }
}

} // verus!
