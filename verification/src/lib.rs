//! A custodial treasury: a program-controlled vault that accepts deposits
//! from anyone and disburses funds only on the order of its designated
//! authority. The vault has no private key; it is controlled through a
//! deterministic address derivation whose canonical proof value ("bump")
//! is stored alongside the authority in a treasury record.

pub mod derivation;
pub mod errors;
pub mod handlers;
pub mod ledger;
pub mod transfer;
pub mod treasury;
