//! The role registry: three independent sets of account identities.
//!
//! The registry is a plain set container; the permission check that gates
//! grant and revoke lives one layer up, in the ledger service.

use vstd::prelude::*;
use crate::actor::ActorId;

verus! {

/// The three privileges the ledger distinguishes. An account may hold any
/// combination of them.
#[derive(Clone, Copy, PartialEq, Eq, Structural, Debug)]
pub enum Role {
    Admin,
    Minter,
    Burner,
}

/// No account appears twice.
pub open spec fn distinct(s: Seq<ActorId>) -> bool {
    forall|i: int, j: int| 0 <= i < j < s.len() ==> s[i] != s[j]
}

/// What holds of a member list after the entry at `i` is removed by swapping
/// the last entry into its place and shortening the sequence.
proof fn lemma_remove_member(s: Seq<ActorId>, i: int)
    requires
        distinct(s),
        0 <= i < s.len(),
    ensures
        distinct(s.update(i, s.last()).drop_last()),
        !s.update(i, s.last()).drop_last().contains(s[i]),
        forall|b: ActorId|
            b != s[i] ==> s.update(i, s.last()).drop_last().contains(b) == s.contains(b),
{
    let a = s[i];
    let t = s.update(i, s.last()).drop_last();
    assert(forall|k: int| 0 <= k < t.len() ==> t[k] == (if k == i { s.last() } else { s[k] }));
    assert(distinct(t));
    assert forall|k: int| 0 <= k < t.len() implies t[k] != a by {
        if k == i {
            assert(s.last() == s[s.len() - 1]);
        }
    }
    if t.contains(a) {
        let k = choose|k: int| 0 <= k < t.len() && t[k] == a;
    }
    assert forall|b: ActorId| b != a implies (t.contains(b) == s.contains(b)) by {
        if t.contains(b) {
            let k = choose|k: int| 0 <= k < t.len() && t[k] == b;
            if k == i {
                assert(s[s.len() - 1] == b);
            } else {
                assert(s[k] == b);
            }
        } else if s.contains(b) {
            let j = choose|j: int| 0 <= j < s.len() && s[j] == b;
            if j == s.len() - 1 {
                assert(t[i] == b);
            } else {
                assert(t[j] == b);
            }
        }
    }
}

/// The members of the admin, minter and burner roles.
pub struct RoleRegistry {
    pub admins: Vec<ActorId>,
    pub minters: Vec<ActorId>,
    pub burners: Vec<ActorId>,
}

impl RoleRegistry {
    /// The stored member list of `role`.
    pub open spec fn list(self, role: Role) -> Seq<ActorId> {
        match role {
            Role::Admin => self.admins@,
            Role::Minter => self.minters@,
            Role::Burner => self.burners@,
        }
    }

    /// Membership of `a` in `role`.
    pub open spec fn is_member_spec(self, role: Role, a: ActorId) -> bool {
        self.list(role).contains(a)
    }

    /// Well-formedness: each member list is free of duplicates.
    pub open spec fn wf(self) -> bool {
        distinct(self.admins@) && distinct(self.minters@) && distinct(self.burners@)
    }

    /// A registry whose three roles hold exactly the one initial member.
    pub fn seed(admin: ActorId) -> (r: RoleRegistry)
        ensures
            r.wf(),
            forall|role: Role, b: ActorId| r.is_member_spec(role, b) <==> b == admin,
    {
        let mut admins: Vec<ActorId> = Vec::new();
        admins.push(admin);
        let mut minters: Vec<ActorId> = Vec::new();
        minters.push(admin);
        let mut burners: Vec<ActorId> = Vec::new();
        burners.push(admin);
        let r = RoleRegistry { admins, minters, burners };
        proof {
            assert forall|role: Role, b: ActorId| r.is_member_spec(role, b) <==> b
                == admin by {
                if b == admin {
                    assert(r.list(role)[0] == admin);
                }
                if r.is_member_spec(role, b) {
                    let k = choose|k: int| 0 <= k < r.list(role).len() && r.list(role)[k] == b;
                }
            }
        }
        r
    }

    /// The index of `a` in the member list of `role`, if present.
    fn find_in(&self, role: Role, a: ActorId) -> (r: Option<usize>)
        ensures
            match r {
                Some(i) => i < self.list(role).len() && self.list(role)[i as int] == a,
                None => forall|k: int| 0 <= k < self.list(role).len() ==> self.list(role)[k] != a,
            },
    {
        let members = match role {
            Role::Admin => &self.admins,
            Role::Minter => &self.minters,
            Role::Burner => &self.burners,
        };
        let mut i: usize = 0;
        while i < members.len()
            invariant
                i <= members@.len(),
                members@ == self.list(role),
                forall|k: int| 0 <= k < i ==> self.list(role)[k] != a,
            decreases members@.len() - i,
        {
            if members[i] == a {
                return Some(i);
            }
            i = i + 1;
        }
        None
    }

    /// Membership test; no side effects.
    pub fn is_member(&self, role: Role, a: ActorId) -> (r: bool)
        ensures
            r == self.is_member_spec(role, a),
    {
        match self.find_in(role, a) {
            Some(i) => {
                proof {
                    assert(self.list(role)[i as int] == a);
                    assert(self.list(role).contains(a));
                }
                true
            },
            None => {
                proof {
                    if self.list(role).contains(a) {
                        let k = choose|k: int|
                            0 <= k < self.list(role).len() && self.list(role)[k] == a;
                    }
                }
                false
            },
        }
    }

    /// Idempotent insert: make `a` a member of `role`; the other roles and
    /// all other members are untouched.
    pub fn grant(&mut self, role: Role, a: ActorId)
        requires
            old(self).wf(),
        ensures
            final(self).wf(),
            final(self).is_member_spec(role, a),
            forall|b: ActorId|
                b != a ==> final(self).is_member_spec(role, b) == old(self).is_member_spec(
                    role,
                    b,
                ),
            forall|r2: Role| r2 != role ==> final(self).list(r2) == old(self).list(r2),
    {
        if self.is_member(role, a) {
            return ;
        }
        let ghost s = self.list(role);
        match role {
            Role::Admin => self.admins.push(a),
            Role::Minter => self.minters.push(a),
            Role::Burner => self.burners.push(a),
        }
        proof {
            let t = self.list(role);
            assert(t =~= s.push(a));
            assert forall|k: int| 0 <= k < s.len() implies s[k] != a by {
                if s[k] == a {
                    assert(s.contains(a));
                }
            }
            assert(distinct(t));
            assert(t[s.len() as int] == a);
            assert(t.contains(a));
            assert forall|b: ActorId| b != a implies (t.contains(b) == s.contains(b)) by {
                if t.contains(b) {
                    let k = choose|k: int| 0 <= k < t.len() && t[k] == b;
                    assert(s[k] == b);
                }
                if s.contains(b) {
                    let k = choose|k: int| 0 <= k < s.len() && s[k] == b;
                    assert(t[k] == b);
                }
            }
        }
    }

    /// Idempotent remove: strip `a` of `role`; the other roles and all other
    /// members are untouched.
    pub fn revoke(&mut self, role: Role, a: ActorId)
        requires
            old(self).wf(),
        ensures
            final(self).wf(),
            !final(self).is_member_spec(role, a),
            forall|b: ActorId|
                b != a ==> final(self).is_member_spec(role, b) == old(self).is_member_spec(
                    role,
                    b,
                ),
            forall|r2: Role| r2 != role ==> final(self).list(r2) == old(self).list(r2),
    {
        let ghost s = self.list(role);
        match self.find_in(role, a) {
            Some(i) => {
                proof {
                    lemma_remove_member(s, i as int);
                }
                let _removed = match role {
                    Role::Admin => self.admins.swap_remove(i),
                    Role::Minter => self.minters.swap_remove(i),
                    Role::Burner => self.burners.swap_remove(i),
                };
                proof {
                    assert(self.list(role) =~= s.update(i as int, s.last()).drop_last());
                }
            },
            None => {
                proof {
                    if s.contains(a) {
                        let k = choose|k: int| 0 <= k < s.len() && s[k] == a;
                    }
                }
            },
        }
    }

    /// Snapshot the members of `role`: unordered, no duplicates.
    pub fn members(&self, role: Role) -> (r: Vec<ActorId>)
        requires
            self.wf(),
        ensures
            r@ == self.list(role),
            distinct(r@),
            forall|b: ActorId| r@.contains(b) <==> self.is_member_spec(role, b),
    {
        let members = match role {
            Role::Admin => &self.admins,
            Role::Minter => &self.minters,
            Role::Burner => &self.burners,
        };
        let mut r: Vec<ActorId> = Vec::new();
        let mut i: usize = 0;
        while i < members.len()
            invariant
                i <= members@.len(),
                members@ == self.list(role),
                r@ =~= members@.subrange(0, i as int),
            decreases members@.len() - i,
        {
            r.push(members[i]);
            proof {
                assert(r@ =~= members@.subrange(0, i as int + 1));
            }
            i = i + 1;
        }
        proof {
            assert(r@ =~= self.list(role));
        }
        r
    }
}

} // verus!
