//! What can stop the processing of a batch of records.

pub use crate::transaction::TransactionParseError;
use vstd::prelude::*;

verus! {

/// Why a batch of records was given up.
#[derive(Debug, PartialEq)]
pub enum TransactionError {
    /// The records could not be read at all; the message says why.
    FileUnreadable(String),
    /// The record at this position, counted from zero, is no transaction.
    FileTransaction(usize, TransactionParseError),
}

impl Clone for TransactionError {
    fn clone(&self) -> (copy: Self)
        ensures
            copy == *self,
    {
        match self {
            TransactionError::FileUnreadable(message) => TransactionError::FileUnreadable(
                message.clone(),
            ),
            TransactionError::FileTransaction(line, error) => TransactionError::FileTransaction(
                *line,
                error.clone(),
            ),
        }
    }
}

} // verus!
