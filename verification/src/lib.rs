//! A role-gated fungible-token ledger.
//!
//! The ledger pairs an account-to-balance map with a total-supply counter
//! and lets only privileged callers mint or burn. Every mutation preserves
//! the conservation invariant: the total supply equals the sum of all
//! balances. Amounts are 256-bit unsigned integers with checked arithmetic;
//! an operation that would overflow or underflow fails and changes nothing.

pub mod actor;
pub mod balances;
pub mod cell;
pub mod errors;
pub mod ledger;
pub mod roles;
pub mod u256;
