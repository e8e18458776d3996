//! The one-shot guard around the ledger singleton.
//!
//! The surrounding environment owns exactly one cell per deployed ledger,
//! initializes it once, and threads it through every call. Accessing an
//! uninitialized cell, or initializing it twice, is a programming-contract
//! violation: it surfaces here as a typed `StateError`, which the outermost
//! boundary turns into a fatal abort.

use vstd::prelude::*;
use crate::actor::ActorId;
use crate::errors::Error;
use crate::errors::StateError;
use crate::ledger::Event;
use crate::ledger::Ledger;
use crate::ledger::burn_transition;
use crate::ledger::grant_transition;
use crate::ledger::mint_transition;
use crate::ledger::revoke_transition;
use crate::roles::Role;
use crate::u256::U256;

verus! {

/// A slot that is set exactly once and holds the ledger thereafter.
pub struct LedgerCell {
    pub inner: Option<Ledger>,
}

impl LedgerCell {
    /// Whether the one-shot initialization has run.
    pub open spec fn is_init(self) -> bool {
        self.inner is Some
    }

    /// The held ledger (meaningful only once initialized).
    pub open spec fn state(self) -> Ledger {
        self.inner->Some_0
    }

    /// Well-formedness: once initialized, the held ledger is well-formed.
    pub open spec fn wf(self) -> bool {
        self.is_init() ==> self.state().wf()
    }

    /// A cell that has not been initialized yet.
    pub fn empty() -> (r: LedgerCell)
        ensures
            !r.is_init(),
            r.wf(),
    {
        LedgerCell { inner: None }
    }

    /// One-shot initialization: seed the ledger with `admin` in all three
    /// role sets. Running it a second time fails and changes nothing.
    pub fn init(&mut self, admin: ActorId) -> (r: Result<(), StateError>)
        requires
            old(self).wf(),
        ensures
            final(self).wf(),
            match r {
                Ok(_) => !old(self).is_init() && final(self).is_init()
                    && final(self).state().total() == 0
                    && (forall|a: ActorId| final(self).state().bal(a) == 0)
                    && (forall|role: Role, b: ActorId|
                        final(self).state().has_role(role, b) <==> b == admin),
                Err(e) => e == StateError::AlreadyInitialized && old(self).is_init()
                    && *final(self) == *old(self),
            },
    {
        if self.inner.is_some() {
            return Err(StateError::AlreadyInitialized);
        }
        self.inner = Some(Ledger::seed(admin));
        Ok(())
    }

    /// Whether the cell has been initialized; no side effects.
    pub fn is_initialized(&self) -> (r: bool)
        ensures
            r == self.is_init(),
    {
        self.inner.is_some()
    }

    /// Forward a mint to the held ledger; `Uninitialized` before `init`.
    pub fn mint(&mut self, caller: ActorId, to: ActorId, value: U256, sink: &mut Vec<Event>) -> (r:
        Result<Result<bool, Error>, StateError>)
        requires
            old(self).wf(),
        ensures
            final(self).wf(),
            match r {
                Ok(out) => old(self).is_init() && final(self).is_init() && mint_transition(
                    old(self).state(),
                    final(self).state(),
                    caller,
                    to,
                    value,
                    out,
                    old(sink)@,
                    final(sink)@,
                ),
                Err(e) => e == StateError::Uninitialized && !old(self).is_init() && *final(self)
                    == *old(self) && final(sink)@ == old(sink)@,
            },
    {
        match &mut self.inner {
            Some(l) => Ok(l.mint(caller, to, value, sink)),
            None => Err(StateError::Uninitialized),
        }
    }

    /// Forward a burn to the held ledger; `Uninitialized` before `init`.
    pub fn burn(
        &mut self,
        caller: ActorId,
        from: ActorId,
        value: U256,
        sink: &mut Vec<Event>,
    ) -> (r: Result<Result<bool, Error>, StateError>)
        requires
            old(self).wf(),
        ensures
            final(self).wf(),
            match r {
                Ok(out) => old(self).is_init() && final(self).is_init() && burn_transition(
                    old(self).state(),
                    final(self).state(),
                    caller,
                    from,
                    value,
                    out,
                    old(sink)@,
                    final(sink)@,
                ),
                Err(e) => e == StateError::Uninitialized && !old(self).is_init() && *final(self)
                    == *old(self) && final(sink)@ == old(sink)@,
            },
    {
        match &mut self.inner {
            Some(l) => Ok(l.burn(caller, from, value, sink)),
            None => Err(StateError::Uninitialized),
        }
    }

    /// Forward a grant to the held ledger; `Uninitialized` before `init`.
    pub fn grant_role(&mut self, caller: ActorId, role: Role, account: ActorId) -> (r: Result<
        Result<(), Error>,
        StateError,
    >)
        requires
            old(self).wf(),
        ensures
            final(self).wf(),
            match r {
                Ok(out) => old(self).is_init() && final(self).is_init() && grant_transition(
                    old(self).state(),
                    final(self).state(),
                    caller,
                    role,
                    account,
                    out,
                ),
                Err(e) => e == StateError::Uninitialized && !old(self).is_init() && *final(self)
                    == *old(self),
            },
    {
        match &mut self.inner {
            Some(l) => Ok(l.grant_role(caller, role, account)),
            None => Err(StateError::Uninitialized),
        }
    }

    /// Forward a revoke to the held ledger; `Uninitialized` before `init`.
    pub fn revoke_role(&mut self, caller: ActorId, role: Role, account: ActorId) -> (r: Result<
        Result<(), Error>,
        StateError,
    >)
        requires
            old(self).wf(),
        ensures
            final(self).wf(),
            match r {
                Ok(out) => old(self).is_init() && final(self).is_init() && revoke_transition(
                    old(self).state(),
                    final(self).state(),
                    caller,
                    role,
                    account,
                    out,
                ),
                Err(e) => e == StateError::Uninitialized && !old(self).is_init() && *final(self)
                    == *old(self),
            },
    {
        match &mut self.inner {
            Some(l) => Ok(l.revoke_role(caller, role, account)),
            None => Err(StateError::Uninitialized),
        }
    }

    /// Read the total supply; fails only before initialization.
    pub fn total_supply(&self) -> (r: Result<U256, StateError>)
        ensures
            match r {
                Ok(v) => self.is_init() && v.as_nat() == self.state().total(),
                Err(e) => e == StateError::Uninitialized && !self.is_init(),
            },
    {
        match &self.inner {
            Some(l) => Ok(l.total_supply()),
            None => Err(StateError::Uninitialized),
        }
    }

    /// Read a balance; fails only before initialization.
    pub fn balance_of(&self, account: ActorId) -> (r: Result<U256, StateError>)
        requires
            self.wf(),
        ensures
            match r {
                Ok(v) => self.is_init() && v.as_nat() == self.state().bal(account),
                Err(e) => e == StateError::Uninitialized && !self.is_init(),
            },
    {
        match &self.inner {
            Some(l) => Ok(l.balance_of(account)),
            None => Err(StateError::Uninitialized),
        }
    }

    /// Snapshot the members of `role`; fails only before initialization.
    pub fn members(&self, role: Role) -> (r: Result<Vec<ActorId>, StateError>)
        requires
            self.wf(),
        ensures
            match r {
                Ok(v) => self.is_init() && crate::roles::distinct(v@) && (forall|b: ActorId|
                    v@.contains(b) <==> self.state().has_role(role, b)),
                Err(e) => e == StateError::Uninitialized && !self.is_init(),
            },
    {
        match &self.inner {
            Some(l) => Ok(l.members(role)),
            None => Err(StateError::Uninitialized),
        }
    }
}

} // verus!
