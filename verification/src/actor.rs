//! Account identities.

use vstd::prelude::*;

verus! {

/// A fixed-width (256-bit) account identifier, already authenticated by the
/// environment; the ledger only compares identifiers, never interprets them.
#[derive(Clone, Copy, PartialEq, Eq, Structural, Debug)]
pub struct ActorId {
    pub hi: u128,
    pub lo: u128,
}

impl ActorId {
    pub fn new(hi: u128, lo: u128) -> (r: ActorId)
        ensures
            r == (ActorId { hi, lo }),
    {
        ActorId { hi, lo }
    }

    pub fn from_u128(v: u128) -> (r: ActorId)
        ensures
            r == (ActorId { hi: 0, lo: v }),
    {
        ActorId { hi: 0, lo: v }
    }
}

} // verus!
