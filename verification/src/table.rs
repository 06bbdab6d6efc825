//! A table of amounts indexed by key, in which a key without an entry holds
//! the amount zero.

use crate::sum::amount_of;
use vstd::prelude::*;

verus! {

/// A value that can index a table: it can be compared for equality.
pub(crate) trait Key: Sized {
    /// Whether `self` and `other` are the same key.
    fn same(&self, other: &Self) -> (same: bool)
        ensures
            same == (*self == *other),
    ;
}

/// A finite table from keys to amounts.
///
/// The table is viewed as a `Map` from each key that has an entry to the
/// amount stored for it.
pub(crate) struct Table<K: Key> {
    entries: Vec<(K, u128)>,
}

/// Whether some entry of `entries` is stored under `k`.
pub open spec fn has_entry<K>(entries: Seq<(K, u128)>, k: K) -> bool {
    exists|i: int| 0 <= i < entries.len() && (#[trigger] entries[i]).0 == k
}

/// The position of an entry of `entries` that is stored under `k`.
pub open spec fn entry_index<K>(entries: Seq<(K, u128)>, k: K) -> int {
    choose|i: int| 0 <= i < entries.len() && (#[trigger] entries[i]).0 == k
}

/// Whether no two entries of `entries` are stored under the same key.
pub open spec fn distinct_keys<K>(entries: Seq<(K, u128)>) -> bool {
    forall|i: int, j: int|
        0 <= i < j < entries.len() ==> (#[trigger] entries[i]).0 != (#[trigger] entries[j]).0
}

/// The map that `entries` stands for.
pub open spec fn entries_map<K>(entries: Seq<(K, u128)>) -> Map<K, nat> {
    Map::new(
        |k: K| has_entry(entries, k),
        |k: K| entries[entry_index(entries, k)].1 as nat,
    )
}

/// The map of a list of entries has a finite domain.
proof fn lemma_entries_map_finite<K>(entries: Seq<(K, u128)>)
    ensures
        entries_map(entries).dom().finite(),
    decreases entries.len(),
{
    if entries.len() == 0 {
        assert(entries_map(entries).dom() =~= Set::empty());
    } else {
        let front = entries.drop_last();
        let last = entries.last();
        lemma_entries_map_finite(front);
        assert forall|k: K|
            entries_map(entries).dom().contains(k) <==> entries_map(front).dom().insert(
                last.0,
            ).contains(k) by {
            if has_entry(entries, k) {
                let i = entry_index(entries, k);
                if i < front.len() {
                    assert(front[i].0 == k);
                }
            }
            if has_entry(front, k) {
                let i = entry_index(front, k);
                assert(entries[i].0 == k);
            }
            if k == last.0 {
                assert(entries[entries.len() - 1].0 == k);
            }
        }
        assert(entries_map(entries).dom() =~= entries_map(front).dom().insert(last.0));
    }
}

impl<K: Key> View for Table<K> {
    type V = Map<K, nat>;

    closed spec fn view(&self) -> Map<K, nat> {
        entries_map(self.entries@)
    }
}

impl<K: Key> Table<K> {
    /// The table's invariant: every key has at most one entry.
    pub closed spec fn wf(&self) -> bool {
        distinct_keys(self.entries@)
    }

    /// A well-formed table has finitely many entries, each within `u128`.
    pub proof fn lemma_view_bounded(&self)
        requires
            self.wf(),
        ensures
            self@.dom().finite(),
            forall|k: K| self@.dom().contains(k) ==> #[trigger] self@[k] <= u128::MAX,
    {
        lemma_entries_map_finite(self.entries@);
    }

    /// An empty table: every key holds zero.
    pub fn new() -> (table: Self)
        ensures
            table.wf(),
            table@ == Map::<K, nat>::empty(),
    {
        let table = Table { entries: Vec::new() };
        assert(table@ =~= Map::<K, nat>::empty());
        table
    }

    /// The position of the entry stored under `key`, if there is one.
    fn find(&self, key: &K) -> (found: Option<usize>)
        requires
            self.wf(),
        ensures
            match found {
                Some(i) => i < self.entries@.len() && self.entries@[i as int].0 == *key,
                None => !has_entry(self.entries@, *key),
            },
    {
        let mut i: usize = 0;
        while i < self.entries.len()
            invariant
                i <= self.entries@.len(),
                forall|j: int| 0 <= j < i ==> (#[trigger] self.entries@[j]).0 != *key,
            decreases self.entries@.len() - i,
        {
            if self.entries[i].0.same(key) {
                return Some(i);
            }
            i += 1;
        }
        None
    }

    /// The amount stored under `key`, or zero where the table has no entry
    /// for it.
    pub fn get(&self, key: &K) -> (amount: u128)
        requires
            self.wf(),
        ensures
            amount == amount_of(self@, *key),
    {
        match self.find(key) {
            Some(i) => {
                assert(has_entry(self.entries@, *key));
                self.entries[i].1
            },
            None => 0,
        }
    }

    /// Stores `amount` under `key`, replacing what was stored there.
    pub fn set(&mut self, key: K, amount: u128)
        requires
            old(self).wf(),
        ensures
            final(self).wf(),
            final(self)@ == old(self)@.insert(key, amount as nat),
    {
        let ghost before = self.entries@;
        match self.find(&key) {
            Some(i) => {
                self.entries[i].1 = amount;
                proof {
                    let after = self.entries@;
                    assert forall|j: int| 0 <= j < after.len() implies (#[trigger] after[j]).0
                        == before[j].0 by {}
                    assert(distinct_keys(after));
                    assert forall|k: K| has_entry(after, k) <==> has_entry(before, k) || k
                        == key by {
                        if has_entry(after, k) {
                            let j = entry_index(after, k);
                            assert(before[j].0 == k);
                        }
                        if has_entry(before, k) {
                            let j = entry_index(before, k);
                            assert(after[j].0 == k);
                        }
                        if k == key {
                            assert(after[i as int].0 == k);
                        }
                    }
                    assert forall|k: K| has_entry(after, k) implies entries_map(after)[k]
                        == entries_map(before).insert(key, amount as nat)[k] by {
                        let j = entry_index(after, k);
                        if k == key {
                            assert(j == i);
                        } else {
                            let b = entry_index(before, k);
                            assert(after[b].0 == k);
                            assert(j == b);
                        }
                    }
                    assert(entries_map(after) =~= entries_map(before).insert(key, amount as nat));
                }
            },
            None => {
                self.entries.push((key, amount));
                proof {
                    let after = self.entries@;
                    let last = after.len() - 1;
                    assert forall|j: int| 0 <= j < before.len() implies (#[trigger] after[j])
                        == before[j] by {}
                    assert(distinct_keys(after)) by {
                        assert forall|a: int, b: int| 0 <= a < b < after.len() implies (
                        #[trigger] after[a]).0 != (#[trigger] after[b]).0 by {
                            assert(before[a].0 == after[a].0);
                            if b < before.len() {
                                assert(before[b].0 == after[b].0);
                            }
                        }
                    }
                    assert forall|k: K| has_entry(after, k) <==> has_entry(before, k) || k
                        == key by {
                        if has_entry(after, k) {
                            let j = entry_index(after, k);
                            if j < before.len() {
                                assert(before[j].0 == k);
                            }
                        }
                        if has_entry(before, k) {
                            let j = entry_index(before, k);
                            assert(after[j].0 == k);
                        }
                        if k == key {
                            assert(after[last].0 == k);
                        }
                    }
                    assert forall|k: K| has_entry(after, k) implies entries_map(after)[k]
                        == entries_map(before).insert(key, amount as nat)[k] by {
                        let j = entry_index(after, k);
                        if k == key {
                            assert(after[last].0 == k);
                            assert(j == last);
                        } else {
                            let b = entry_index(before, k);
                            assert(after[b].0 == k);
                            assert(j == b);
                        }
                    }
                    assert(entries_map(after) =~= entries_map(before).insert(key, amount as nat));
                }
            },
        }
    }
}

} // verus!
