//! The ledger service: role-gated mint and burn over the balance store,
//! admin-gated grant and revoke over the role registry, and the read-only
//! query surface.
//!
//! Authorization is checked strictly before any store read or mutation: an
//! unauthorized call is fully side-effect-free, including event emission.
//! Every successful mutation hands exactly one event to the caller-supplied
//! sink; the environment delivers the sink's contents to observers.

use vstd::prelude::*;
use crate::actor::ActorId;
use crate::balances::BalanceStore;
use crate::errors::Error;
use crate::roles::Role;
use crate::roles::RoleRegistry;
use crate::u256::U256;
use crate::u256::value_bound;

verus! {

/// A domain event, emitted once per successful mutation.
#[derive(Clone, Copy, PartialEq, Eq, Structural, Debug)]
pub enum Event {
    Minted { to: ActorId, value: U256 },
    Burned { from: ActorId, value: U256 },
}

/// The composed state: balances plus roles.
pub struct Ledger {
    pub balances: BalanceStore,
    pub roles: RoleRegistry,
}

/// How a mint call relates the state, the sink and the outcome: minted
/// amounts land on `to` and on the total supply, events fire exactly on
/// `Ok(true)`, and every failure leaves everything unchanged.
pub open spec fn mint_transition(
    pre: Ledger,
    post: Ledger,
    caller: ActorId,
    to: ActorId,
    value: U256,
    r: Result<bool, Error>,
    sink_pre: Seq<Event>,
    sink_post: Seq<Event>,
) -> bool {
    &&& post.roles == pre.roles
    &&& match r {
        Ok(true) => pre.has_role(Role::Minter, caller) && 0 < value.as_nat() && pre.total()
            + value.as_nat() < value_bound() && post.total() == pre.total() + value.as_nat()
            && post.bal(to) == pre.bal(to) + value.as_nat() && (forall|b: ActorId|
            b != to ==> post.bal(b) == pre.bal(b)) && sink_post == sink_pre.push(
            Event::Minted { to, value },
        ),
        Ok(false) => pre.has_role(Role::Minter, caller) && value.as_nat() == 0 && post == pre
            && sink_post == sink_pre,
        Err(e) => post == pre && sink_post == sink_pre && ((e == Error::NotAuthorized
            && !pre.has_role(Role::Minter, caller)) || (e == Error::NumericOverflow
            && pre.has_role(Role::Minter, caller) && 0 < value.as_nat() && pre.total()
            + value.as_nat() >= value_bound())),
    }
}

/// How a burn call relates the state, the sink and the outcome.
pub open spec fn burn_transition(
    pre: Ledger,
    post: Ledger,
    caller: ActorId,
    from: ActorId,
    value: U256,
    r: Result<bool, Error>,
    sink_pre: Seq<Event>,
    sink_post: Seq<Event>,
) -> bool {
    &&& post.roles == pre.roles
    &&& match r {
        Ok(true) => pre.has_role(Role::Burner, caller) && 0 < value.as_nat() && value.as_nat()
            <= pre.total() && value.as_nat() <= pre.bal(from) && post.total() == pre.total()
            - value.as_nat() && post.bal(from) == pre.bal(from) - value.as_nat() && (
        forall|b: ActorId| b != from ==> post.bal(b) == pre.bal(b)) && sink_post
            == sink_pre.push(Event::Burned { from, value }),
        Ok(false) => pre.has_role(Role::Burner, caller) && value.as_nat() == 0 && post == pre
            && sink_post == sink_pre,
        Err(e) => post == pre && sink_post == sink_pre && ((e == Error::NotAuthorized
            && !pre.has_role(Role::Burner, caller)) || (pre.has_role(Role::Burner, caller) && 0
            < value.as_nat() && ((e == Error::Underflow && value.as_nat() > pre.total()) || (e
            == Error::InsufficientBalance && value.as_nat() <= pre.total() && value.as_nat()
            > pre.bal(from))))),
    }
}

/// How a grant call relates the states and the outcome: only an admin may
/// grant, and on success exactly the named membership is added.
pub open spec fn grant_transition(
    pre: Ledger,
    post: Ledger,
    caller: ActorId,
    role: Role,
    account: ActorId,
    r: Result<(), Error>,
) -> bool {
    match r {
        Ok(_) => pre.has_role(Role::Admin, caller) && post.balances == pre.balances
            && post.has_role(role, account) && (forall|b: ActorId|
            b != account ==> post.has_role(role, b) == pre.has_role(role, b)) && (
        forall|r2: Role| r2 != role ==> post.roles.list(r2) == pre.roles.list(r2)),
        Err(e) => e == Error::NotAuthorized && !pre.has_role(Role::Admin, caller) && post
            == pre,
    }
}

/// How a revoke call relates the states and the outcome: only an admin may
/// revoke, and on success exactly the named membership is removed.
pub open spec fn revoke_transition(
    pre: Ledger,
    post: Ledger,
    caller: ActorId,
    role: Role,
    account: ActorId,
    r: Result<(), Error>,
) -> bool {
    match r {
        Ok(_) => pre.has_role(Role::Admin, caller) && post.balances == pre.balances
            && !post.has_role(role, account) && (forall|b: ActorId|
            b != account ==> post.has_role(role, b) == pre.has_role(role, b)) && (
        forall|r2: Role| r2 != role ==> post.roles.list(r2) == pre.roles.list(r2)),
        Err(e) => e == Error::NotAuthorized && !pre.has_role(Role::Admin, caller) && post
            == pre,
    }
}

/// Authorization gating: a caller who is not a minter gets `NotAuthorized`
/// from mint, and neither the ledger nor the event sink changes.
pub proof fn lemma_unauthorized_mint(
    pre: Ledger,
    post: Ledger,
    caller: ActorId,
    to: ActorId,
    value: U256,
    r: Result<bool, Error>,
    sink_pre: Seq<Event>,
    sink_post: Seq<Event>,
)
    requires
        !pre.has_role(Role::Minter, caller),
        mint_transition(pre, post, caller, to, value, r, sink_pre, sink_post),
    ensures
        r == Err::<bool, Error>(Error::NotAuthorized),
        post == pre,
        sink_post == sink_pre,
{
}

/// Authorization gating: a caller who is not a burner gets `NotAuthorized`
/// from burn, and neither the ledger nor the event sink changes.
pub proof fn lemma_unauthorized_burn(
    pre: Ledger,
    post: Ledger,
    caller: ActorId,
    from: ActorId,
    value: U256,
    r: Result<bool, Error>,
    sink_pre: Seq<Event>,
    sink_post: Seq<Event>,
)
    requires
        !pre.has_role(Role::Burner, caller),
        burn_transition(pre, post, caller, from, value, r, sink_pre, sink_post),
    ensures
        r == Err::<bool, Error>(Error::NotAuthorized),
        post == pre,
        sink_post == sink_pre,
{
}

/// Authorization gating: a caller who is not an admin gets `NotAuthorized`
/// from grant, and the ledger is unchanged.
pub proof fn lemma_unauthorized_grant(
    pre: Ledger,
    post: Ledger,
    caller: ActorId,
    role: Role,
    account: ActorId,
    r: Result<(), Error>,
)
    requires
        !pre.has_role(Role::Admin, caller),
        grant_transition(pre, post, caller, role, account, r),
    ensures
        r == Err::<(), Error>(Error::NotAuthorized),
        post == pre,
{
}

/// Authorization gating: a caller who is not an admin gets `NotAuthorized`
/// from revoke, and the ledger is unchanged.
pub proof fn lemma_unauthorized_revoke(
    pre: Ledger,
    post: Ledger,
    caller: ActorId,
    role: Role,
    account: ActorId,
    r: Result<(), Error>,
)
    requires
        !pre.has_role(Role::Admin, caller),
        revoke_transition(pre, post, caller, role, account, r),
    ensures
        r == Err::<(), Error>(Error::NotAuthorized),
        post == pre,
{
}

/// A zero-amount mint is a recognized no-op: it never mutates and never
/// emits an event, and authorization is still checked first.
pub proof fn lemma_zero_amount_mint(
    pre: Ledger,
    post: Ledger,
    caller: ActorId,
    to: ActorId,
    value: U256,
    r: Result<bool, Error>,
    sink_pre: Seq<Event>,
    sink_post: Seq<Event>,
)
    requires
        value.as_nat() == 0,
        mint_transition(pre, post, caller, to, value, r, sink_pre, sink_post),
    ensures
        post == pre,
        sink_post == sink_pre,
        r == if pre.has_role(Role::Minter, caller) {
            Ok::<bool, Error>(false)
        } else {
            Err::<bool, Error>(Error::NotAuthorized)
        },
{
}

/// A zero-amount burn is a recognized no-op: it never mutates and never
/// emits an event, and authorization is still checked first.
pub proof fn lemma_zero_amount_burn(
    pre: Ledger,
    post: Ledger,
    caller: ActorId,
    from: ActorId,
    value: U256,
    r: Result<bool, Error>,
    sink_pre: Seq<Event>,
    sink_post: Seq<Event>,
)
    requires
        value.as_nat() == 0,
        burn_transition(pre, post, caller, from, value, r, sink_pre, sink_post),
    ensures
        post == pre,
        sink_post == sink_pre,
        r == if pre.has_role(Role::Burner, caller) {
            Ok::<bool, Error>(false)
        } else {
            Err::<bool, Error>(Error::NotAuthorized)
        },
{
}

/// No balance goes negative: a burn that asks for more than the debited
/// account holds fails, and the ledger and sink are unchanged.
pub proof fn lemma_overdraft_rejected(
    pre: Ledger,
    post: Ledger,
    caller: ActorId,
    from: ActorId,
    value: U256,
    r: Result<bool, Error>,
    sink_pre: Seq<Event>,
    sink_post: Seq<Event>,
)
    requires
        value.as_nat() > pre.bal(from),
        burn_transition(pre, post, caller, from, value, r, sink_pre, sink_post),
    ensures
        r is Err,
        post == pre,
        sink_post == sink_pre,
{
}

impl Ledger {
    /// Well-formedness of both components; every operation preserves it.
    pub open spec fn wf(self) -> bool {
        self.balances.wf() && self.roles.wf()
    }

    /// The total supply as a mathematical integer.
    pub open spec fn total(self) -> nat {
        self.balances.total_nat()
    }

    /// The balance of `a` as a mathematical integer.
    pub open spec fn bal(self, a: ActorId) -> nat {
        self.balances.bal(a)
    }

    /// Membership of `a` in `role`.
    pub open spec fn has_role(self, role: Role, a: ActorId) -> bool {
        self.roles.is_member_spec(role, a)
    }

    /// A fresh ledger: empty balances, zero supply, and the initial admin
    /// seeded into all three role sets.
    pub fn seed(admin: ActorId) -> (r: Ledger)
        ensures
            r.wf(),
            r.total() == 0,
            forall|a: ActorId| r.bal(a) == 0,
            forall|role: Role, b: ActorId| r.has_role(role, b) <==> b == admin,
    {
        Ledger { balances: BalanceStore::empty(), roles: RoleRegistry::seed(admin) }
    }

    /// Mint `value` new tokens onto `to`. The caller must be a minter.
    pub fn mint(&mut self, caller: ActorId, to: ActorId, value: U256, sink: &mut Vec<Event>) -> (r:
        Result<bool, Error>)
        requires
            old(self).wf(),
        ensures
            final(self).wf(),
            mint_transition(
                *old(self),
                *final(self),
                caller,
                to,
                value,
                r,
                old(sink)@,
                final(sink)@,
            ),
    {
        if !self.roles.is_member(Role::Minter, caller) {
            return Err(Error::NotAuthorized);
        }
        match self.balances.credit(to, value) {
            Ok(true) => {
                sink.push(Event::Minted { to, value });
                Ok(true)
            },
            Ok(false) => Ok(false),
            Err(e) => Err(e),
        }
    }

    /// Burn `value` tokens from `from`. The caller must be a burner.
    pub fn burn(
        &mut self,
        caller: ActorId,
        from: ActorId,
        value: U256,
        sink: &mut Vec<Event>,
    ) -> (r: Result<bool, Error>)
        requires
            old(self).wf(),
        ensures
            final(self).wf(),
            burn_transition(
                *old(self),
                *final(self),
                caller,
                from,
                value,
                r,
                old(sink)@,
                final(sink)@,
            ),
    {
        if !self.roles.is_member(Role::Burner, caller) {
            return Err(Error::NotAuthorized);
        }
        match self.balances.debit(from, value) {
            Ok(true) => {
                sink.push(Event::Burned { from, value });
                Ok(true)
            },
            Ok(false) => Ok(false),
            Err(e) => Err(e),
        }
    }

    /// Make `account` a member of `role`. The caller must be an admin.
    pub fn grant_role(&mut self, caller: ActorId, role: Role, account: ActorId) -> (r: Result<
        (),
        Error,
    >)
        requires
            old(self).wf(),
        ensures
            final(self).wf(),
            grant_transition(*old(self), *final(self), caller, role, account, r),
    {
        if !self.roles.is_member(Role::Admin, caller) {
            return Err(Error::NotAuthorized);
        }
        self.roles.grant(role, account);
        Ok(())
    }

    /// Strip `account` of `role`. The caller must be an admin.
    pub fn revoke_role(&mut self, caller: ActorId, role: Role, account: ActorId) -> (r: Result<
        (),
        Error,
    >)
        requires
            old(self).wf(),
        ensures
            final(self).wf(),
            revoke_transition(*old(self), *final(self), caller, role, account, r),
    {
        if !self.roles.is_member(Role::Admin, caller) {
            return Err(Error::NotAuthorized);
        }
        self.roles.revoke(role, account);
        Ok(())
    }

    /// Read the total supply. Public, never fails.
    pub fn total_supply(&self) -> (r: U256)
        ensures
            r.as_nat() == self.total(),
    {
        self.balances.total_supply()
    }

    /// Read the balance of `account`. Public, never fails.
    pub fn balance_of(&self, account: ActorId) -> (r: U256)
        requires
            self.wf(),
        ensures
            r.as_nat() == self.bal(account),
    {
        self.balances.balance_of(account)
    }

    /// Snapshot the members of `role`: unordered, no duplicates.
    pub fn members(&self, role: Role) -> (r: Vec<ActorId>)
        requires
            self.wf(),
        ensures
            crate::roles::distinct(r@),
            forall|b: ActorId| r@.contains(b) <==> self.has_role(role, b),
    {
        self.roles.members(role)
    }

    /// Enumerate the accounts with a non-zero balance, without duplicates.
    pub fn holders(&self) -> (r: Vec<ActorId>)
        requires
            self.wf(),
        ensures
            forall|i: int, j: int| 0 <= i < j < r@.len() ==> r@[i] != r@[j],
            forall|b: ActorId| r@.contains(b) <==> self.bal(b) != 0,
    {
        self.balances.holders()
    }
}

} // verus!
