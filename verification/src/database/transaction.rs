//! How a transaction run by a closure ends.

use vstd::prelude::*;
use crate::error::Result;

verus! {

/// How a transaction ends.
#[derive(Debug, Clone, Copy, PartialEq, Eq)]
pub enum TxEnd {
    Commit,
    Rollback,
}

/// A transaction is committed when its work succeeded and rolled back when
/// it failed.
pub fn transaction_end<T>(outcome: &Result<T>) -> (r: TxEnd)
    ensures
        r == (if outcome is Ok {
            TxEnd::Commit
        } else {
            TxEnd::Rollback
        }),
{
    match outcome {
        Ok(_) => TxEnd::Commit,
        Err(_) => TxEnd::Rollback,
    }
}

} // verus!
