//! An ordered table from integer ids to records.
//!
//! Both registries of the crate are tables: the records sit in a vector that
//! is kept sorted by id, and the contracts speak of the table as a
//! mathematical map from id to record.

use vstd::prelude::*;

verus! {

/// Each element of `s` is below the next.
pub open spec fn ascending(s: Seq<u64>) -> bool {
    forall|i: int, j: int| 0 <= i < j < s.len() ==> #[trigger] s[i] < #[trigger] s[j]
}

/// `s` lists the elements of `d` exactly once, in ascending order.
pub open spec fn lists(s: Seq<u64>, d: Set<u64>) -> bool {
    ascending(s) && forall|k: u64| s.contains(k) <==> d.contains(k)
}

/// The elements of `d` in ascending order.
pub open spec fn sorted_keys(d: Set<u64>) -> Seq<u64> {
    choose|s: Seq<u64>| lists(s, d)
}

/// A set has at most one ascending list of its elements.
pub proof fn lemma_lists_unique(a: Seq<u64>, b: Seq<u64>, d: Set<u64>)
    requires
        lists(a, d),
        lists(b, d),
    ensures
        a == b,
    decreases a.len(),
{
    if a.len() == 0 {
        if b.len() > 0 {
            assert(b.contains(b[0]));
            assert(a.contains(b[0]));
        }
        assert(a =~= b);
    } else {
        let m = a.last();
        assert(a.contains(m));
        assert(b.contains(m));
        let j = choose|j: int| 0 <= j < b.len() && b[j] == m;
        if j < b.len() - 1 {
            let above = b[b.len() - 1];
            assert(b.contains(above));
            assert(a.contains(above));
            let i = choose|i: int| 0 <= i < a.len() && a[i] == above;
            assert(a[i] <= a[a.len() - 1]);
        }
        let rest = d.remove(m);
        assert forall|k: u64| a.drop_last().contains(k) <==> rest.contains(k) by {
            if a.drop_last().contains(k) {
                let i = choose|i: int| 0 <= i < a.drop_last().len() && a.drop_last()[i] == k;
                assert(a[i] == k);
                assert(a[i] < a[a.len() - 1]);
                assert(a.contains(k));
            }
            if rest.contains(k) {
                assert(a.contains(k));
                let i = choose|i: int| 0 <= i < a.len() && a[i] == k;
                assert(a.drop_last()[i] == k);
            }
        }
        assert forall|k: u64| b.drop_last().contains(k) <==> rest.contains(k) by {
            if b.drop_last().contains(k) {
                let i = choose|i: int| 0 <= i < b.drop_last().len() && b.drop_last()[i] == k;
                assert(b[i] == k);
                assert(b[i] < b[b.len() - 1]);
                assert(b.contains(k));
            }
            if rest.contains(k) {
                assert(b.contains(k));
                let i = choose|i: int| 0 <= i < b.len() && b[i] == k;
                assert(b.drop_last()[i] == k);
            }
        }
        assert(ascending(a.drop_last())) by {
            assert forall|i: int, j: int| 0 <= i < j < a.drop_last().len() implies #[trigger] a.drop_last()[i]
                < #[trigger] a.drop_last()[j] by {
                assert(a[i] < a[j]);
            }
        }
        assert(ascending(b.drop_last())) by {
            assert forall|i: int, j: int| 0 <= i < j < b.drop_last().len() implies #[trigger] b.drop_last()[i]
                < #[trigger] b.drop_last()[j] by {
                assert(b[i] < b[j]);
            }
        }
        lemma_lists_unique(a.drop_last(), b.drop_last(), rest);
        assert(a =~= a.drop_last().push(m));
        assert(b =~= b.drop_last().push(m));
    }
}

/// Whatever lists a set in ascending order is its `sorted_keys`.
pub proof fn lemma_sorted_keys(s: Seq<u64>, d: Set<u64>)
    requires
        lists(s, d),
    ensures
        sorted_keys(d) == s,
{
    lemma_lists_unique(sorted_keys(d), s, d);
}

/// One slot of a table.
pub struct Entry<V> {
    key: u64,
    value: V,
}

/// A finite map from `u64` ids to records, stored in ascending id order.
pub struct Table<V> {
    entries: Vec<Entry<V>>,
}

impl<V> Table<V> {
    /// The slot that holds `key`, where there is one.
    spec fn slot(&self, key: u64) -> int {
        choose|i: int| 0 <= i < self.entries@.len() && (#[trigger] self.entries@[i]).key == key
    }

    /// The table as a map from id to record.
    pub closed spec fn view(&self) -> Map<u64, V> {
        Map::new(
            |k: u64|
                exists|i: int|
                    0 <= i < self.entries@.len() && (#[trigger] self.entries@[i]).key == k,
            |k: u64| self.entries@[self.slot(k)].value,
        )
    }

    /// The ids of the table in storage order.
    pub closed spec fn keys(&self) -> Seq<u64> {
        Seq::new(self.entries@.len(), |i: int| self.entries@[i].key)
    }

    /// Ids are stored in strictly ascending order.
    pub closed spec fn wf(&self) -> bool {
        forall|i: int, j: int|
            0 <= i < j < self.entries@.len() ==> (#[trigger] self.entries@[i]).key < (
            #[trigger] self.entries@[j]).key
    }

    /// In a well-formed table the slot of a stored id is the slot it was found in.
    proof fn lemma_slot(&self, i: int)
        requires
            self.wf(),
            0 <= i < self.entries@.len(),
        ensures
            self.slot(self.entries@[i].key) == i,
            self@.dom().contains(self.entries@[i].key),
            self@[self.entries@[i].key] == self.entries@[i].value,
    {
        let k = self.entries@[i].key;
        let j = self.slot(k);
        assert(0 <= j < self.entries@.len() && self.entries@[j].key == k);
        if j < i {
            assert(self.entries@[j].key < self.entries@[i].key);
        } else if i < j {
            assert(self.entries@[i].key < self.entries@[j].key);
        }
    }

    /// `keys()` lists the domain of the map exactly once, in ascending order.
    pub proof fn lemma_keys(&self)
        requires
            self.wf(),
        ensures
            forall|i: int, j: int|
                0 <= i < j < self.keys().len() ==> #[trigger] self.keys()[i] < #[trigger] self.keys()[j],
            forall|i: int|
                0 <= i < self.keys().len() ==> self@.dom().contains(#[trigger] self.keys()[i]),
            forall|k: u64| #[trigger] self@.dom().contains(k) ==> self.keys().contains(k),
            self.keys() == sorted_keys(self@.dom()),
    {
        assert forall|i: int, j: int| 0 <= i < j < self.keys().len() implies #[trigger] self.keys()[i]
            < #[trigger] self.keys()[j] by {
            assert(self.entries@[i].key < self.entries@[j].key);
        }
        assert forall|i: int| 0 <= i < self.keys().len() implies self@.dom().contains(
            #[trigger] self.keys()[i],
        ) by {
            self.lemma_slot(i);
        }
        assert forall|k: u64| #[trigger] self@.dom().contains(k) implies self.keys().contains(k) by {
            let i = self.slot(k);
            assert(self.keys()[i] == k);
        }
        assert forall|k: u64| self.keys().contains(k) implies self@.dom().contains(k) by {
            let i = choose|i: int| 0 <= i < self.keys().len() && self.keys()[i] == k;
            assert(self@.dom().contains(self.keys()[i]));
        }
        lemma_sorted_keys(self.keys(), self@.dom());
    }

    /// An empty table.
    pub fn new() -> (t: Self)
        ensures
            t.wf(),
            t@ == Map::<u64, V>::empty(),
            t.keys() == Seq::<u64>::empty(),
    {
        let t = Table { entries: Vec::new() };
        assert(t@ =~= Map::<u64, V>::empty());
        assert(t.keys() =~= Seq::<u64>::empty());
        t
    }

    /// Number of records.
    pub fn len(&self) -> (n: usize)
        ensures
            n == self.keys().len(),
    {
        self.entries.len()
    }

    /// The id stored at position `i` of the ascending order.
    pub fn key_at(&self, i: usize) -> (k: u64)
        requires
            i < self.keys().len(),
        ensures
            k == self.keys()[i as int],
    {
        self.entries[i].key
    }

    /// The record stored at position `i` of the ascending order.
    pub fn value_at(&self, i: usize) -> (v: &V)
        requires
            self.wf(),
            i < self.keys().len(),
        ensures
            self@.dom().contains(self.keys()[i as int]),
            *v == self@[self.keys()[i as int]],
    {
        proof {
            self.lemma_slot(i as int);
        }
        &self.entries[i].value
    }

    /// First position whose id is not below `key`.
    fn lower_bound(&self, key: u64) -> (i: usize)
        requires
            self.wf(),
        ensures
            i <= self.entries@.len(),
            forall|j: int| 0 <= j < i ==> (#[trigger] self.entries@[j]).key < key,
            forall|j: int| i <= j < self.entries@.len() ==> (#[trigger] self.entries@[j]).key >= key,
    {
        let mut i: usize = 0;
        while i < self.entries.len() && self.entries[i].key < key
            invariant
                self.wf(),
                i <= self.entries@.len(),
                forall|j: int| 0 <= j < i ==> (#[trigger] self.entries@[j]).key < key,
            decreases self.entries@.len() - i,
        {
            i = i + 1;
        }
        assert forall|j: int| i <= j < self.entries@.len() implies (#[trigger] self.entries@[j]).key
            >= key by {
            if i < j {
                assert(self.entries@[i as int].key < self.entries@[j].key);
            }
        }
        i
    }

    /// Whether `key` has a record.
    pub fn contains_key(&self, key: u64) -> (r: bool)
        requires
            self.wf(),
        ensures
            r == self@.dom().contains(key),
    {
        let i = self.lower_bound(key);
        if i < self.entries.len() && self.entries[i].key == key {
            proof {
                self.lemma_slot(i as int);
            }
            true
        } else {
            false
        }
    }

    /// The record of `key`, where there is one.
    pub fn get(&self, key: u64) -> (r: Option<&V>)
        requires
            self.wf(),
        ensures
            match r {
                Some(v) => self@.dom().contains(key) && *v == self@[key],
                None => !self@.dom().contains(key),
            },
    {
        let i = self.lower_bound(key);
        if i < self.entries.len() && self.entries[i].key == key {
            proof {
                self.lemma_slot(i as int);
            }
            Some(&self.entries[i].value)
        } else {
            None
        }
    }

    /// Stores `value` under `key`, replacing the record that was there.
    pub fn insert(&mut self, key: u64, value: V)
        requires
            old(self).wf(),
        ensures
            final(self).wf(),
            final(self)@ == old(self)@.insert(key, value),
            old(self)@.dom().contains(key) ==> final(self).keys() == old(self).keys(),
    {
        let i = self.lower_bound(key);
        let ghost before = self.entries@;
        if i < self.entries.len() && self.entries[i].key == key {
            self.entries[i] = Entry { key, value };
            assert(self.entries@ == before.update(i as int, Entry { key, value }));
            assert(self.keys() =~= old(self).keys());
            assert(self.wf()) by {
                assert forall|a: int, b: int| 0 <= a < b < self.entries@.len() implies (
                #[trigger] self.entries@[a]).key < (#[trigger] self.entries@[b]).key by {
                    assert(before[a].key < before[b].key);
                }
            }
        } else {
            assert(!old(self)@.dom().contains(key)) by {
                if old(self)@.dom().contains(key) {
                    let p = old(self).slot(key);
                    assert(before[p].key == key);
                    if p < i {
                        assert(before[p].key < key);
                    } else if i < before.len() {
                        if p > i {
                            assert(before[i as int].key < before[p].key);
                        }
                    }
                }
            }
            self.entries.insert(i, Entry { key, value });
            assert(self.wf()) by {
                assert forall|a: int, b: int| 0 <= a < b < self.entries@.len() implies (
                #[trigger] self.entries@[a]).key < (#[trigger] self.entries@[b]).key by {
                    let pa = if a < i { a } else { a - 1 };
                    let pb = if b < i { b } else { b - 1 };
                    if a != i && b != i {
                        assert(before[pa].key < before[pb].key);
                    } else if a == i {
                        assert(before[pb].key >= key);
                    } else {
                        assert(before[pa].key < key);
                    }
                }
            }
        }
        proof {
            let after = *self;
            let goal = old(self)@.insert(key, value);
            assert forall|k: u64| after@.dom().contains(k) <==> goal.dom().contains(k) by {
                if after@.dom().contains(k) {
                    let a = after.slot(k);
                    assert(after.entries@[a].key == k);
                    if k != key {
                        let pa = if a < i { a } else if before.len() == after.entries@.len() { a } else { a - 1 };
                        assert(before[pa].key == k);
                    }
                }
                if goal.dom().contains(k) {
                    if k == key {
                        assert(after.entries@[i as int].key == k);
                    } else {
                        let p = old(self).slot(k);
                        assert(before[p].key == k);
                        let a = if before.len() == after.entries@.len() || p < i { p } else { p + 1 };
                        assert(after.entries@[a].key == k);
                    }
                }
            }
            assert forall|k: u64| after@.dom().contains(k) implies after@[k] == goal[k] by {
                let a = after.slot(k);
                assert(after.entries@[a].key == k);
                after.lemma_slot(a);
                if k != key {
                    let pa = if a < i { a } else if before.len() == after.entries@.len() { a } else { a - 1 };
                    assert(before[pa].key == k);
                    old(self).lemma_slot(pa);
                } else {
                    after.lemma_slot(i as int);
                }
            }
            assert(after@ =~= goal);
        }
    }

    /// Takes the record of `key` out of the table, where there is one.
    pub fn remove(&mut self, key: u64) -> (r: Option<V>)
        requires
            old(self).wf(),
        ensures
            final(self).wf(),
            final(self)@ == old(self)@.remove(key),
            match r {
                Some(v) => old(self)@.dom().contains(key) && v == old(self)@[key],
                None => !old(self)@.dom().contains(key),
            },
    {
        let i = self.lower_bound(key);
        let ghost before = self.entries@;
        if i < self.entries.len() && self.entries[i].key == key {
            proof {
                self.lemma_slot(i as int);
            }
            let e = self.entries.remove(i);
            assert(self.wf()) by {
                assert forall|a: int, b: int| 0 <= a < b < self.entries@.len() implies (
                #[trigger] self.entries@[a]).key < (#[trigger] self.entries@[b]).key by {
                    let pa = if a < i { a } else { a + 1 };
                    let pb = if b < i { b } else { b + 1 };
                    assert(before[pa].key < before[pb].key);
                }
            }
            proof {
                let after = *self;
                let goal = old(self)@.remove(key);
                assert forall|k: u64| after@.dom().contains(k) <==> goal.dom().contains(k) by {
                    if after@.dom().contains(k) {
                        let a = after.slot(k);
                        assert(after.entries@[a].key == k);
                        let pa = if a < i { a } else { a + 1 };
                        assert(before[pa].key == k);
                        if pa < i {
                            assert(before[pa].key < before[i as int].key);
                        } else {
                            assert(before[i as int].key < before[pa].key);
                        }
                    }
                    if goal.dom().contains(k) {
                        let p = old(self).slot(k);
                        assert(before[p].key == k);
                        let a = if p < i { p } else { p - 1 };
                        assert(after.entries@[a].key == k);
                    }
                }
                assert forall|k: u64| after@.dom().contains(k) implies after@[k] == goal[k] by {
                    let a = after.slot(k);
                    assert(after.entries@[a].key == k);
                    after.lemma_slot(a);
                    let pa = if a < i { a } else { a + 1 };
                    assert(before[pa].key == k);
                    old(self).lemma_slot(pa);
                }
                assert(after@ =~= goal);
            }
            Some(e.value)
        } else {
            assert(self@ =~= old(self)@.remove(key));
            None
        }
    }
}

} // verus!
