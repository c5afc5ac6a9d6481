//! The item store: item identifier to price/stock record. The catalog owns
//! the capacity invariant: no record's stock ever exceeds `MAX_STOCK`.

use vstd::prelude::*;

use crate::state::{BeverageStat, MAX_STOCK};
use crate::store::{keys_unique, lemma_map_of_absent, lemma_map_of_domain, lemma_map_of_index,
    lemma_map_of_push, lemma_map_of_update, map_of};

verus! {

/// The item-to-record store.
pub struct Catalog {
    entries: Vec<(String, BeverageStat)>,
}

impl View for Catalog {
    type V = Map<Seq<char>, BeverageStat>;

    closed spec fn view(&self) -> Map<Seq<char>, BeverageStat> {
        map_of(self.entries@)
    }
}

impl Catalog {
    /// Well-formed: one record per item, and every stock within capacity.
    pub closed spec fn wf(&self) -> bool {
        keys_unique(self.entries@) && forall|i: int|
            0 <= i < self.entries@.len() ==> self.entries@[i].1.amount <= MAX_STOCK
    }

    /// Every known item's stock lies within the capacity.
    pub proof fn lemma_stock_capacity(&self)
        requires
            self.wf(),
        ensures
            forall|k: Seq<char>| #[trigger] self@.contains_key(k) ==> self@[k].amount <= MAX_STOCK,
    {
        assert forall|k: Seq<char>| #[trigger] self@.contains_key(k) implies self@[k].amount
            <= MAX_STOCK by {
            lemma_map_of_domain(self.entries@, k);
            let i = choose|i: int| 0 <= i < self.entries@.len() && self.entries@[i].0@ == k;
            lemma_map_of_index(self.entries@, i);
        }
    }

    /// The stored records, for handing the state out to a host that
    /// persists it; `try_from_entries` accepts them back.
    pub fn entries(&self) -> (r: &Vec<(String, BeverageStat)>)
        requires
            self.wf(),
        ensures
            keys_unique(r@),
            map_of(r@) == self@,
    {
        &self.entries
    }

    /// Rebuilds a catalog from persisted records, accepting them exactly
    /// when no item repeats and every stock lies within the capacity.
    pub fn try_from_entries(entries: Vec<(String, BeverageStat)>) -> (r: Option<Catalog>)
        ensures
            r is Some <==> keys_unique(entries@) && (forall|i: int|
                0 <= i < entries@.len() ==> entries@[i].1.amount <= MAX_STOCK),
            r matches Some(c) ==> c.wf() && c@ == map_of(entries@),
    {
        let n = entries.len();
        let mut i: usize = 0;
        while i < n
            invariant
                n == entries@.len(),
                i <= n,
                forall|a: int, b: int| 0 <= a < i && a < b < n ==> entries@[a].0@ != entries@[b].0@,
                forall|a: int| 0 <= a < i ==> entries@[a].1.amount <= MAX_STOCK,
            decreases n - i,
        {
            if entries[i].1.amount > MAX_STOCK {
                return None;
            }
            let mut j: usize = i + 1;
            while j < n
                invariant
                    n == entries@.len(),
                    i < j <= n,
                    forall|b: int| i < b < j ==> entries@[i as int].0@ != entries@[b].0@,
                decreases n - j,
            {
                if entries[i].0 == entries[j].0 {
                    return None;
                }
                j += 1;
            }
            i += 1;
        }
        Some(Catalog { entries })
    }

    /// An empty catalog: no items.
    pub fn new() -> (r: Catalog)
        ensures
            r.wf(),
            r@ == Map::<Seq<char>, BeverageStat>::empty(),
    {
        Catalog { entries: Vec::new() }
    }

    fn find(&self, key: &String) -> (r: Option<usize>)
        ensures
            match r {
                Some(i) => i < self.entries@.len() && self.entries@[i as int].0@ == key@,
                None => forall|j: int| 0 <= j < self.entries@.len() ==> self.entries@[j].0@ != key@,
            },
    {
        let n = self.entries.len();
        let mut i: usize = 0;
        while i < n
            invariant
                n == self.entries@.len(),
                i <= n,
                forall|j: int| 0 <= j < i ==> self.entries@[j].0@ != key@,
            decreases n - i,
        {
            if self.entries[i].0 == *key {
                return Some(i);
            }
            i += 1;
        }
        None
    }

    /// The record of an item, or nothing when the item was never created.
    pub fn get(&self, key: &String) -> (r: Option<BeverageStat>)
        requires
            self.wf(),
        ensures
            match r {
                Some(stat) => self@.contains_key(key@) && stat == self@[key@],
                None => !self@.contains_key(key@),
            },
    {
        match self.find(key) {
            Some(i) => {
                proof {
                    lemma_map_of_index(self.entries@, i as int);
                }
                Some(self.entries[i].1)
            },
            None => {
                proof {
                    lemma_map_of_absent(self.entries@, key@);
                }
                None
            },
        }
    }

    /// Writes an item's record verbatim, creating the item when absent.
    pub fn set(&mut self, key: &String, stat: BeverageStat)
        requires
            old(self).wf(),
            stat.amount <= MAX_STOCK,
        ensures
            final(self).wf(),
            final(self)@ == old(self)@.insert(key@, stat),
    {
        match self.find(key) {
            Some(i) => {
                self.entries[i].1 = stat;
                proof {
                    let s = old(self).entries@;
                    let i = i as int;
                    assert(self.entries@ == s.update(i, (s[i].0, stat)));
                    lemma_map_of_update(s, i, (s[i].0, stat));
                }
            },
            None => {
                self.entries.push((key.clone(), stat));
                proof {
                    let s = old(self).entries@;
                    let kv = self.entries@.last();
                    assert(kv.0@ == key@);
                    assert(self.entries@ == s.push(kv));
                    lemma_map_of_push(s, kv);
                    assert(self.entries@.drop_last() =~= s);
                }
            },
        }
    }
}

} // verus!
