//! In-memory bank ledger: fixed-point amounts, per-client transaction state
//! machines and the bank that routes transactions to them.

pub mod amount;
pub mod balance;
pub mod bank;
pub mod client;
pub mod decimal;
pub mod error;
pub mod records;
pub mod transaction;

use vstd::prelude::*;

verus! {

/// Uniquely identifies a client.
pub type ClientId = u16;

/// Uniquely identifies a transaction.
pub type TransactionId = u32;

} // verus!
