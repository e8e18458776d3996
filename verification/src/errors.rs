//! Failure taxonomy of the ledger.

use vstd::prelude::*;

verus! {

/// Why a mint, burn, grant or revoke was refused. Every failure leaves the
/// ledger unchanged.
#[derive(Clone, Copy, PartialEq, Eq, Structural, Debug)]
pub enum Error {
    /// The caller lacks the role the operation requires.
    NotAuthorized,
    /// A mint would push the total supply or a balance past 2^256 - 1.
    NumericOverflow,
    /// A burn would drive the total supply negative.
    Underflow,
    /// A burn would drive the debited account's balance negative, even though
    /// the aggregate supply would not underflow.
    InsufficientBalance,
}

/// A programming-contract violation around initialization; fatal at the
/// boundary, never part of the recoverable taxonomy.
#[derive(Clone, Copy, PartialEq, Eq, Structural, Debug)]
pub enum StateError {
    /// An accessor ran before the one-shot initialization.
    Uninitialized,
    /// The one-shot initialization ran a second time.
    AlreadyInitialized,
}

} // verus!
