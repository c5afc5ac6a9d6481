//! The balance store: account identity to non-negative balance, together
//! with the running total of all balances. The total never exceeds
//! `u128::MAX`, which is what makes every credit free of overflow.

use vstd::prelude::*;

use crate::error::ContractError;
use crate::store::{keys_unique, lemma_map_of_absent, lemma_map_of_domain, lemma_map_of_index,
    lemma_map_of_push, lemma_map_of_update, map_of};

verus! {

/// The balance stored under a key, or zero when the key was never written.
pub open spec fn balance_or_zero(m: Map<Seq<char>, u128>, k: Seq<char>) -> u128 {
    if m.contains_key(k) {
        m[k]
    } else {
        0u128
    }
}

/// The sum of all stored balances.
pub open spec fn sum_of(s: Seq<(String, u128)>) -> int
    decreases s.len(),
{
    if s.len() == 0 {
        0
    } else {
        sum_of(s.drop_last()) + s.last().1
    }
}

proof fn lemma_sum_take_step(s: Seq<(String, u128)>, i: int)
    requires
        0 <= i < s.len(),
    ensures
        sum_of(s.take(i + 1)) == sum_of(s.take(i)) + s[i].1,
{
    assert(s.take(i + 1).drop_last() =~= s.take(i));
    assert(s.take(i + 1).last() == s[i]);
}

proof fn lemma_sum_take_le(s: Seq<(String, u128)>, i: int)
    requires
        0 <= i <= s.len(),
    ensures
        sum_of(s.take(i)) <= sum_of(s),
    decreases s.len() - i,
{
    if i == s.len() {
        assert(s.take(i) =~= s);
    } else {
        lemma_sum_take_step(s, i);
        lemma_sum_take_le(s, i + 1);
    }
}

proof fn lemma_sum_nonneg(s: Seq<(String, u128)>)
    ensures
        0 <= sum_of(s),
    decreases s.len(),
{
    if s.len() > 0 {
        lemma_sum_nonneg(s.drop_last());
    }
}

proof fn lemma_sum_update(s: Seq<(String, u128)>, i: int, kv: (String, u128))
    requires
        0 <= i < s.len(),
    ensures
        sum_of(s.update(i, kv)) == sum_of(s) - s[i].1 + kv.1,
    decreases s.len(),
{
    let s2 = s.update(i, kv);
    if i == s.len() - 1 {
        assert(s2.drop_last() =~= s.drop_last());
    } else {
        assert(s2.drop_last() =~= s.drop_last().update(i, kv));
        lemma_sum_update(s.drop_last(), i, kv);
        assert(s2.last() == s.last());
    }
}

proof fn lemma_entry_le_sum(s: Seq<(String, u128)>, i: int)
    requires
        0 <= i < s.len(),
    ensures
        s[i].1 <= sum_of(s),
    decreases s.len(),
{
    if i == s.len() - 1 {
        lemma_sum_nonneg(s.drop_last());
    } else {
        lemma_entry_le_sum(s.drop_last(), i);
        assert(s.drop_last()[i] == s[i]);
    }
}

/// The account-to-balance store.
pub struct Ledger {
    entries: Vec<(String, u128)>,
}

impl View for Ledger {
    type V = Map<Seq<char>, u128>;

    closed spec fn view(&self) -> Map<Seq<char>, u128> {
        map_of(self.entries@)
    }
}

impl Ledger {
    /// The sum of every account's balance, the till included.
    pub closed spec fn total(&self) -> int {
        sum_of(self.entries@)
    }

    /// Well-formed: one entry per account, and the total fits the balance width.
    pub closed spec fn wf(&self) -> bool {
        keys_unique(self.entries@) && sum_of(self.entries@) <= u128::MAX
    }

    /// The total is never negative and never exceeds the balance width.
    pub proof fn lemma_total_bounds(&self)
        requires
            self.wf(),
        ensures
            0 <= self.total() <= u128::MAX,
    {
        lemma_sum_nonneg(self.entries@);
    }

    /// No single balance exceeds the total of all balances.
    pub proof fn lemma_balance_le_total(&self, k: Seq<char>)
        requires
            self.wf(),
        ensures
            balance_or_zero(self@, k) <= self.total(),
    {
        lemma_sum_nonneg(self.entries@);
        if self@.contains_key(k) {
            lemma_map_of_domain(self.entries@, k);
            let i = choose|i: int| 0 <= i < self.entries@.len() && self.entries@[i].0@ == k;
            lemma_map_of_index(self.entries@, i);
            lemma_entry_le_sum(self.entries@, i);
        }
    }

    /// The stored entries, for handing the state out to a host that
    /// persists it; `try_from_entries` accepts them back.
    pub fn entries(&self) -> (r: &Vec<(String, u128)>)
        requires
            self.wf(),
        ensures
            keys_unique(r@),
            map_of(r@) == self@,
            sum_of(r@) == self.total(),
    {
        &self.entries
    }

    /// Rebuilds a store from persisted entries, accepting them exactly when
    /// no account repeats and the balances sum within the balance width.
    pub fn try_from_entries(entries: Vec<(String, u128)>) -> (r: Option<Ledger>)
        ensures
            r is Some <==> keys_unique(entries@) && sum_of(entries@) <= u128::MAX,
            r matches Some(l) ==> l.wf() && l@ == map_of(entries@) && l.total() == sum_of(
                entries@,
            ),
    {
        let n = entries.len();
        let mut i: usize = 0;
        while i < n
            invariant
                n == entries@.len(),
                i <= n,
                forall|a: int, b: int| 0 <= a < i && a < b < n ==> entries@[a].0@ != entries@[b].0@,
            decreases n - i,
        {
            let mut j: usize = i + 1;
            while j < n
                invariant
                    n == entries@.len(),
                    i < j <= n,
                    forall|b: int| i < b < j ==> entries@[i as int].0@ != entries@[b].0@,
                decreases n - j,
            {
                if entries[i].0 == entries[j].0 {
                    return None;
                }
                j += 1;
            }
            i += 1;
        }
        assert(keys_unique(entries@));
        let mut sum: u128 = 0;
        let mut i: usize = 0;
        proof {
            assert(entries@.take(0) =~= Seq::<(String, u128)>::empty());
        }
        while i < n
            invariant
                n == entries@.len(),
                i <= n,
                sum == sum_of(entries@.take(i as int)),
            decreases n - i,
        {
            proof {
                lemma_sum_take_step(entries@, i as int);
            }
            sum = match sum.checked_add(entries[i].1) {
                Some(s) => s,
                None => {
                    proof {
                        lemma_sum_take_le(entries@, i as int + 1);
                    }
                    return None;
                },
            };
            i += 1;
        }
        proof {
            assert(entries@.take(n as int) =~= entries@);
        }
        Some(Ledger { entries })
    }

    /// An empty store: no accounts, total zero.
    pub fn new() -> (r: Ledger)
        ensures
            r.wf(),
            r@ == Map::<Seq<char>, u128>::empty(),
            r.total() == 0,
    {
        Ledger { entries: Vec::new() }
    }

    fn find(&self, key: &String) -> (r: Option<usize>)
        ensures
            match r {
                Some(i) => i < self.entries@.len() && self.entries@[i as int].0@ == key@,
                None => forall|j: int| 0 <= j < self.entries@.len() ==> self.entries@[j].0@ != key@,
            },
    {
        let n = self.entries.len();
        let mut i: usize = 0;
        while i < n
            invariant
                n == self.entries@.len(),
                i <= n,
                forall|j: int| 0 <= j < i ==> self.entries@[j].0@ != key@,
            decreases n - i,
        {
            if self.entries[i].0 == *key {
                return Some(i);
            }
            i += 1;
        }
        None
    }

    /// The current balance of an account, zero when it was never written.
    pub fn read(&self, key: &String) -> (r: u128)
        requires
            self.wf(),
        ensures
            r == balance_or_zero(self@, key@),
    {
        match self.find(key) {
            Some(i) => {
                proof {
                    lemma_map_of_index(self.entries@, i as int);
                }
                self.entries[i].1
            },
            None => {
                proof {
                    lemma_map_of_absent(self.entries@, key@);
                }
                0
            },
        }
    }

    /// Writes an account's balance verbatim.
    pub fn set(&mut self, key: &String, value: u128)
        requires
            old(self).wf(),
            old(self).total() - balance_or_zero(old(self)@, key@) + value <= u128::MAX,
        ensures
            final(self).wf(),
            final(self)@ == old(self)@.insert(key@, value),
            final(self).total() == old(self).total() - balance_or_zero(old(self)@, key@) + value,
    {
        proof {
            lemma_sum_nonneg(old(self).entries@);
        }
        match self.find(key) {
            Some(i) => {
                proof {
                    lemma_map_of_index(self.entries@, i as int);
                }
                self.entries[i].1 = value;
                proof {
                    let s = old(self).entries@;
                    let i = i as int;
                    assert(self.entries@ == s.update(i, (s[i].0, value)));
                    lemma_map_of_update(s, i, (s[i].0, value));
                    lemma_sum_update(s, i, (s[i].0, value));
                }
            },
            None => {
                proof {
                    lemma_map_of_absent(self.entries@, key@);
                }
                self.entries.push((key.clone(), value));
                proof {
                    let s = old(self).entries@;
                    let kv = self.entries@.last();
                    assert(kv.0@ == key@);
                    assert(self.entries@ == s.push(kv));
                    lemma_map_of_push(s, kv);
                    assert(self.entries@.drop_last() =~= s);
                }
            },
        }
    }

    /// Increases an account's balance by `amount`; the total grows by the same.
    pub fn credit(&mut self, key: &String, amount: u128)
        requires
            old(self).wf(),
            old(self).total() + amount <= u128::MAX,
        ensures
            final(self).wf(),
            final(self)@ == old(self)@.insert(
                key@,
                (balance_or_zero(old(self)@, key@) + amount) as u128,
            ),
            final(self).total() == old(self).total() + amount,
    {
        proof {
            self.lemma_balance_le_total(key@);
            self.lemma_total_bounds();
        }
        let cur = self.read(key);
        self.set(key, cur + amount);
    }

    /// Decreases an account's balance by `amount`, rejecting the debit
    /// (and touching nothing) when the balance is too low.
    pub fn debit(&mut self, key: &String, amount: u128) -> (r: Result<(), ContractError>)
        requires
            old(self).wf(),
        ensures
            final(self).wf(),
            amount <= balance_or_zero(old(self)@, key@) ==> r == Ok::<(), ContractError>(())
                && final(self)@ == old(self)@.insert(
                    key@,
                    (balance_or_zero(old(self)@, key@) - amount) as u128,
                )
                && final(self).total() == old(self).total() - amount,
            amount > balance_or_zero(old(self)@, key@) ==> r == Err::<(), ContractError>(
                ContractError::NotEnoughCoins,
            ) && *final(self) == *old(self),
    {
        proof {
            self.lemma_balance_le_total(key@);
            self.lemma_total_bounds();
        }
        let cur = self.read(key);
        if amount > cur {
            return Err(ContractError::NotEnoughCoins);
        }
        self.set(key, cur - amount);
        Ok(())
    }
}

} // verus!
