//! The balance store: the account-to-balance map and the total-supply
//! counter, mutated only through checked credit and debit.
//!
//! Well-formedness ties the two together: keys are unique, no entry holds a
//! zero balance, and the total supply equals the sum of all stored balances.

use vstd::prelude::*;
use crate::actor::ActorId;
use crate::errors::Error;
use crate::u256::U256;
use crate::u256::value_bound;

verus! {

/// The sum of the balances stored in `s`.
pub open spec fn sum_of(s: Seq<(ActorId, U256)>) -> nat
    decreases s.len(),
{
    if s.len() == 0 {
        0
    } else {
        sum_of(s.drop_last()) + s.last().1.as_nat()
    }
}

/// The balance that `s` stores for `a`, or zero when `a` is absent.
pub open spec fn bal_in(s: Seq<(ActorId, U256)>, a: ActorId) -> nat
    decreases s.len(),
{
    if s.len() == 0 {
        0
    } else if s.last().0 == a {
        s.last().1.as_nat()
    } else {
        bal_in(s.drop_last(), a)
    }
}

/// No account appears twice.
pub open spec fn keys_unique(s: Seq<(ActorId, U256)>) -> bool {
    forall|i: int, j: int| 0 <= i < j < s.len() ==> s[i].0 != s[j].0
}

/// No entry stores a zero balance.
pub open spec fn no_zero_entries(s: Seq<(ActorId, U256)>) -> bool {
    forall|i: int| 0 <= i < s.len() ==> s[i].1.as_nat() != 0
}

/// An absent account has balance zero.
proof fn lemma_bal_absent(s: Seq<(ActorId, U256)>, a: ActorId)
    requires
        forall|i: int| 0 <= i < s.len() ==> s[i].0 != a,
    ensures
        bal_in(s, a) == 0,
    decreases s.len(),
{
    if s.len() > 0 {
        assert(s.last().0 != a);
        lemma_bal_absent(s.drop_last(), a);
    }
}

/// A present account's balance is the value stored beside it.
proof fn lemma_bal_found(s: Seq<(ActorId, U256)>, i: int, a: ActorId)
    requires
        keys_unique(s),
        0 <= i < s.len(),
        s[i].0 == a,
    ensures
        bal_in(s, a) == s[i].1.as_nat(),
    decreases s.len(),
{
    if i == s.len() - 1 {
    } else {
        assert(s.last().0 != a);
        assert(keys_unique(s.drop_last()));
        lemma_bal_found(s.drop_last(), i, a);
    }
}

/// No single balance exceeds the sum of all balances.
proof fn lemma_bal_le_sum(s: Seq<(ActorId, U256)>, a: ActorId)
    ensures
        bal_in(s, a) <= sum_of(s),
    decreases s.len(),
{
    if s.len() > 0 {
        lemma_bal_le_sum(s.drop_last(), a);
    }
}

/// Replacing the entry at `i` shifts the sum by the difference of the values.
proof fn lemma_sum_update(s: Seq<(ActorId, U256)>, i: int, x: (ActorId, U256))
    requires
        0 <= i < s.len(),
    ensures
        sum_of(s.update(i, x)) == sum_of(s) - s[i].1.as_nat() + x.1.as_nat(),
    decreases s.len(),
{
    if i == s.len() - 1 {
        assert(s.update(i, x).drop_last() =~= s.drop_last());
    } else {
        assert(s.update(i, x).drop_last() =~= s.drop_last().update(i, x));
        lemma_sum_update(s.drop_last(), i, x);
    }
}

/// What holds of the map after the value beside an existing key is replaced.
proof fn lemma_set_value(s: Seq<(ActorId, U256)>, i: int, v: U256)
    requires
        keys_unique(s),
        0 <= i < s.len(),
    ensures
        keys_unique(s.update(i, (s[i].0, v))),
        sum_of(s.update(i, (s[i].0, v))) == sum_of(s) - s[i].1.as_nat() + v.as_nat(),
        bal_in(s.update(i, (s[i].0, v)), s[i].0) == v.as_nat(),
        forall|b: ActorId| b != s[i].0 ==> bal_in(s.update(i, (s[i].0, v)), b) == bal_in(s, b),
        no_zero_entries(s) && v.as_nat() != 0 ==> no_zero_entries(s.update(i, (s[i].0, v))),
{
    let a = s[i].0;
    let t = s.update(i, (a, v));
    assert(keys_unique(t));
    lemma_sum_update(s, i, (a, v));
    lemma_bal_found(t, i, a);
    assert forall|b: ActorId| b != a implies bal_in(t, b) == bal_in(s, b) by {
        if exists|j: int| 0 <= j < s.len() && s[j].0 == b {
            let j = choose|j: int| 0 <= j < s.len() && s[j].0 == b;
            lemma_bal_found(s, j, b);
            lemma_bal_found(t, j, b);
        } else {
            lemma_bal_absent(s, b);
            lemma_bal_absent(t, b);
        }
    }
}

/// What holds of the map after a new key is appended.
proof fn lemma_push(s: Seq<(ActorId, U256)>, a: ActorId, v: U256)
    requires
        keys_unique(s),
        forall|i: int| 0 <= i < s.len() ==> s[i].0 != a,
    ensures
        keys_unique(s.push((a, v))),
        sum_of(s.push((a, v))) == sum_of(s) + v.as_nat(),
        bal_in(s.push((a, v)), a) == v.as_nat(),
        forall|b: ActorId| b != a ==> bal_in(s.push((a, v)), b) == bal_in(s, b),
        no_zero_entries(s) && v.as_nat() != 0 ==> no_zero_entries(s.push((a, v))),
{
    let t = s.push((a, v));
    assert(t.drop_last() =~= s);
    assert(t.last() == (a, v));
    assert forall|b: ActorId| b != a implies bal_in(t, b) == bal_in(s, b) by {
        assert(bal_in(t, b) == bal_in(t.drop_last(), b));
    }
}

/// What holds of the map after the entry at `i` is removed by swapping the
/// last entry into its place and shortening the sequence.
proof fn lemma_swap_remove(s: Seq<(ActorId, U256)>, i: int)
    requires
        keys_unique(s),
        0 <= i < s.len(),
    ensures
        keys_unique(s.update(i, s.last()).drop_last()),
        sum_of(s.update(i, s.last()).drop_last()) == sum_of(s) - s[i].1.as_nat(),
        bal_in(s.update(i, s.last()).drop_last(), s[i].0) == 0,
        forall|b: ActorId|
            b != s[i].0 ==> bal_in(s.update(i, s.last()).drop_last(), b) == bal_in(s, b),
        no_zero_entries(s) ==> no_zero_entries(s.update(i, s.last()).drop_last()),
{
    let a = s[i].0;
    let u = s.update(i, s.last());
    let t = u.drop_last();
    lemma_sum_update(s, i, s.last());
    assert(sum_of(u) == sum_of(t) + u.last().1.as_nat());
    assert(forall|k: int| 0 <= k < t.len() ==> t[k] == (if k == i { s.last() } else { s[k] }));
    assert(keys_unique(t));
    assert forall|k: int| 0 <= k < t.len() implies t[k].0 != a by {
        if k == i {
            assert(s.last() == s[s.len() - 1]);
        }
    }
    lemma_bal_absent(t, a);
    assert forall|b: ActorId| b != a implies bal_in(t, b) == bal_in(s, b) by {
        if exists|j: int| 0 <= j < s.len() && s[j].0 == b {
            let j = choose|j: int| 0 <= j < s.len() && s[j].0 == b;
            lemma_bal_found(s, j, b);
            if j == s.len() - 1 {
                assert(t[i].0 == b);
                lemma_bal_found(t, i, b);
            } else {
                assert(t[j].0 == b);
                lemma_bal_found(t, j, b);
            }
        } else {
            lemma_bal_absent(s, b);
            lemma_bal_absent(t, b);
        }
    }
}

/// The account-to-balance map and the total-supply counter.
pub struct BalanceStore {
    pub entries: Vec<(ActorId, U256)>,
    pub total: U256,
}

impl BalanceStore {
    /// Well-formedness: unique keys, no zero entries, and conservation —
    /// the total supply equals the sum of all stored balances.
    pub open spec fn wf(self) -> bool {
        &&& keys_unique(self.entries@)
        &&& no_zero_entries(self.entries@)
        &&& self.total.as_nat() == sum_of(self.entries@)
    }

    /// The balance of `a`: zero when absent, else the stored value.
    pub open spec fn bal(self, a: ActorId) -> nat {
        bal_in(self.entries@, a)
    }

    /// The total supply as a mathematical integer.
    pub open spec fn total_nat(self) -> nat {
        self.total.as_nat()
    }

    /// Whether the map holds an entry for `a`.
    pub open spec fn holds(self, a: ActorId) -> bool {
        exists|i: int| 0 <= i < self.entries@.len() && self.entries@[i].0 == a
    }

    /// A store with no balances and zero total supply.
    pub fn empty() -> (r: BalanceStore)
        ensures
            r.wf(),
            r.total_nat() == 0,
            forall|a: ActorId| r.bal(a) == 0,
            r.entries@.len() == 0,
    {
        BalanceStore { entries: Vec::new(), total: U256::zero() }
    }

    /// The index of the entry for `a`, if one exists.
    fn find(&self, a: ActorId) -> (r: Option<usize>)
        ensures
            match r {
                Some(i) => i < self.entries@.len() && self.entries@[i as int].0 == a,
                None => forall|k: int| 0 <= k < self.entries@.len() ==> self.entries@[k].0 != a,
            },
    {
        let mut i: usize = 0;
        while i < self.entries.len()
            invariant
                i <= self.entries@.len(),
                forall|k: int| 0 <= k < i ==> self.entries@[k].0 != a,
            decreases self.entries@.len() - i,
        {
            if self.entries[i].0 == a {
                return Some(i);
            }
            i = i + 1;
        }
        None
    }

    /// Read the balance of `a`. No side effects, never fails.
    pub fn balance_of(&self, a: ActorId) -> (r: U256)
        requires
            self.wf(),
        ensures
            r.as_nat() == self.bal(a),
    {
        match self.find(a) {
            Some(i) => {
                proof {
                    lemma_bal_found(self.entries@, i as int, a);
                }
                self.entries[i].1
            },
            None => {
                proof {
                    lemma_bal_absent(self.entries@, a);
                }
                U256::zero()
            },
        }
    }

    /// Read the total supply. No side effects, never fails.
    pub fn total_supply(&self) -> (r: U256)
        ensures
            r.as_nat() == self.total_nat(),
    {
        self.total
    }

    /// Add `v` to `a`'s balance and to the total supply.
    ///
    /// Zero amounts are a recognized no-op (`Ok(false)`); an amount that
    /// would push the total supply past 2^256 - 1 fails with
    /// `NumericOverflow` and mutates nothing.
    pub fn credit(&mut self, a: ActorId, v: U256) -> (r: Result<bool, Error>)
        requires
            old(self).wf(),
        ensures
            final(self).wf(),
            match r {
                Ok(true) => 0 < v.as_nat() && old(self).total_nat() + v.as_nat() < value_bound()
                    && final(self).total_nat() == old(self).total_nat() + v.as_nat()
                    && final(self).bal(a) == old(self).bal(a) + v.as_nat()
                    && (forall|b: ActorId| b != a ==> final(self).bal(b) == old(self).bal(b)),
                Ok(false) => v.as_nat() == 0 && *final(self) == *old(self),
                Err(e) => e == Error::NumericOverflow && 0 < v.as_nat()
                    && old(self).total_nat() + v.as_nat() >= value_bound()
                    && *final(self) == *old(self),
            },
    {
        if v.is_zero() {
            return Ok(false);
        }
        let new_total = match self.total.checked_add(v) {
            Some(t) => t,
            None => {
                return Err(Error::NumericOverflow);
            },
        };
        proof {
            lemma_bal_le_sum(self.entries@, a);
        }
        match self.find(a) {
            Some(i) => {
                proof {
                    lemma_bal_found(self.entries@, i as int, a);
                }
                let cur = self.entries[i].1;
                // The balance never exceeds the total supply, so this
                // addition fits whenever the supply-level one did.
                let new_bal = match cur.checked_add(v) {
                    Some(b) => b,
                    None => {
                        return Err(Error::NumericOverflow);
                    },
                };
                proof {
                    lemma_set_value(self.entries@, i as int, new_bal);
                }
                self.entries[i] = (a, new_bal);
                self.total = new_total;
                Ok(true)
            },
            None => {
                proof {
                    lemma_bal_absent(self.entries@, a);
                    lemma_push(self.entries@, a, v);
                }
                self.entries.push((a, v));
                self.total = new_total;
                Ok(true)
            },
        }
    }

    /// Subtract `v` from `a`'s balance and from the total supply.
    ///
    /// Zero amounts are a recognized no-op (`Ok(false)`). A supply-level
    /// underflow fails with `Underflow`, an account-level one with
    /// `InsufficientBalance`; either failure mutates nothing. A balance
    /// that reaches exactly zero has its entry removed.
    pub fn debit(&mut self, a: ActorId, v: U256) -> (r: Result<bool, Error>)
        requires
            old(self).wf(),
        ensures
            final(self).wf(),
            match r {
                Ok(true) => 0 < v.as_nat() && v.as_nat() <= old(self).total_nat()
                    && v.as_nat() <= old(self).bal(a)
                    && final(self).total_nat() == old(self).total_nat() - v.as_nat()
                    && final(self).bal(a) == old(self).bal(a) - v.as_nat()
                    && (forall|b: ActorId| b != a ==> final(self).bal(b) == old(self).bal(b)),
                Ok(false) => v.as_nat() == 0 && *final(self) == *old(self),
                Err(e) => *final(self) == *old(self) && 0 < v.as_nat()
                    && ((e == Error::Underflow && v.as_nat() > old(self).total_nat())
                        || (e == Error::InsufficientBalance
                            && v.as_nat() <= old(self).total_nat()
                            && v.as_nat() > old(self).bal(a))),
            },
    {
        if v.is_zero() {
            return Ok(false);
        }
        let new_total = match self.total.checked_sub(v) {
            Some(t) => t,
            None => {
                return Err(Error::Underflow);
            },
        };
        match self.find(a) {
            Some(i) => {
                proof {
                    lemma_bal_found(self.entries@, i as int, a);
                }
                let cur = self.entries[i].1;
                let new_bal = match cur.checked_sub(v) {
                    Some(b) => b,
                    None => {
                        return Err(Error::InsufficientBalance);
                    },
                };
                if new_bal.is_zero() {
                    proof {
                        lemma_swap_remove(self.entries@, i as int);
                    }
                    let _removed = self.entries.swap_remove(i);
                } else {
                    proof {
                        lemma_set_value(self.entries@, i as int, new_bal);
                    }
                    self.entries[i] = (a, new_bal);
                }
                self.total = new_total;
                Ok(true)
            },
            None => {
                proof {
                    lemma_bal_absent(self.entries@, a);
                }
                Err(Error::InsufficientBalance)
            },
        }
    }

    /// Enumerate the accounts with a non-zero balance, without duplicates.
    pub fn holders(&self) -> (r: Vec<ActorId>)
        requires
            self.wf(),
        ensures
            r@.len() == self.entries@.len(),
            forall|k: int| 0 <= k < r@.len() ==> r@[k] == self.entries@[k].0,
            forall|i: int, j: int| 0 <= i < j < r@.len() ==> r@[i] != r@[j],
            forall|b: ActorId| r@.contains(b) <==> self.bal(b) != 0,
    {
        let mut r: Vec<ActorId> = Vec::new();
        let mut i: usize = 0;
        while i < self.entries.len()
            invariant
                i <= self.entries@.len(),
                r@.len() == i,
                forall|k: int| 0 <= k < i ==> r@[k] == self.entries@[k].0,
            decreases self.entries@.len() - i,
        {
            r.push(self.entries[i].0);
            i = i + 1;
        }
        proof {
            assert forall|b: ActorId| r@.contains(b) <==> self.bal(b) != 0 by {
                if r@.contains(b) {
                    let k = choose|k: int| 0 <= k < r@.len() && r@[k] == b;
                    lemma_bal_found(self.entries@, k, b);
                } else {
                    assert forall|k: int| 0 <= k < self.entries@.len()
                        implies self.entries@[k].0 != b by {
                        if self.entries@[k].0 == b {
                            assert(r@[k] == b);
                            assert(r@.contains(b));
                        }
                    }
                    lemma_bal_absent(self.entries@, b);
                }
            }
        }
        r
    }
}

/// Conservation: in every well-formed store the total supply equals the sum
/// of all stored balances.
pub proof fn lemma_conservation(s: BalanceStore)
    requires
        s.wf(),
    ensures
        s.total_nat() == sum_of(s.entries@),
{
}

/// No balance exceeds the total supply.
pub proof fn lemma_balance_le_total(s: BalanceStore, a: ActorId)
    requires
        s.wf(),
    ensures
        s.bal(a) <= s.total_nat(),
{
    lemma_bal_le_sum(s.entries@, a);
}

/// Zero-entry pruning: a well-formed store holds no entry for an account
/// whose balance is zero, so such an account is absent from enumeration.
pub proof fn lemma_zero_balance_absent(s: BalanceStore, a: ActorId)
    requires
        s.wf(),
        s.bal(a) == 0,
    ensures
        !s.holds(a),
{
    if s.holds(a) {
        let i = choose|i: int| 0 <= i < s.entries@.len() && s.entries@[i].0 == a;
        lemma_bal_found(s.entries@, i, a);
    }
}

} // verus!
