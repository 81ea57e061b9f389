//! Association list with distinct keys, for keys that hashing has no model of.

use vstd::prelude::*;

verus! {

/// A key that can be compared by its view.
pub trait Key: View {
    /// Whether both keys stand for the same value.
    fn same(&self, other: &Self) -> (b: bool)
        ensures
            b == (self@ == other@),
    ;
}

/// A finite map kept as a vector of entries with pairwise distinct keys.
pub struct AssocMap<K: Key, V> {
    entries: Vec<(K, V)>,
}

impl<K: Key, V> AssocMap<K, V> {
    /// No key occurs twice.
    pub closed spec fn wf(self) -> bool {
        forall|i: int, j: int|
            0 <= i < j < self.entries@.len() ==> (#[trigger] self.entries@[i]).0@ != (
            #[trigger] self.entries@[j]).0@
    }

    /// Whether the entry at `i` holds `k`.
    pub closed spec fn holds_at(self, i: int, k: K::V) -> bool {
        0 <= i < self.entries@.len() && self.entries@[i].0@ == k
    }

    /// The entries in storage order.
    pub closed spec fn slots(self) -> Seq<(K::V, V)> {
        self.entries@.map_values(|e: (K, V)| (e.0@, e.1))
    }

    /// The finite map that the entries stand for.
    pub closed spec fn as_map(self) -> Map<K::V, V> {
        Map::new(
            |k: K::V| exists|i: int| self.holds_at(i, k),
            |k: K::V| self.entries@[choose|i: int| self.holds_at(i, k)].1,
        )
    }

    /// What the slots say about the map, and the reverse.
    pub proof fn lemma_slots(self)
        requires
            self.wf(),
        ensures
            self@.dom().finite(),
            self@.dom().len() == self.slots().len(),
            forall|i: int|
                0 <= i < self.slots().len() ==> #[trigger] self@.contains_key(self.slots()[i].0)
                    && self@[self.slots()[i].0] == self.slots()[i].1,
            forall|k: K::V| #[trigger]
                self@.contains_key(k) ==> exists|i: int|
                    0 <= i < self.slots().len() && (#[trigger] self.slots()[i]).0 == k,
            forall|i: int, j: int|
                0 <= i < self.slots().len() && 0 <= j < self.slots().len() && i != j ==> (
                #[trigger] self.slots()[i]).0 != (#[trigger] self.slots()[j]).0,
    {
        let slots = self.slots();
        let keys: Seq<K::V> = slots.map_values(|e: (K::V, V)| e.0);
        assert forall|i: int| 0 <= i < slots.len() implies #[trigger] self@.contains_key(slots[i].0)
            && self@[slots[i].0] == slots[i].1 by {
            assert(self.holds_at(i, slots[i].0));
            let j: int = choose|j: int| self.holds_at(j, slots[i].0);
            assert(self.holds_at(j, slots[i].0));
            if i < j {
                assert(self.entries@[i].0@ != self.entries@[j].0@);
            }
            if j < i {
                assert(self.entries@[j].0@ != self.entries@[i].0@);
            }
        }
        assert forall|k: K::V| #[trigger] self@.contains_key(k) implies exists|i: int|
            0 <= i < slots.len() && (#[trigger] slots[i]).0 == k by {
            let i: int = choose|i: int| self.holds_at(i, k);
            assert(slots[i].0 == k);
        }
        assert forall|i: int, j: int|
            0 <= i < slots.len() && 0 <= j < slots.len() && i != j implies (#[trigger] slots[i]).0
            != (#[trigger] slots[j]).0 by {
            if i < j {
                assert(self.entries@[i].0@ != self.entries@[j].0@);
            } else {
                assert(self.entries@[j].0@ != self.entries@[i].0@);
            }
        }
        assert(keys.no_duplicates()) by {
            assert forall|i: int, j: int| 0 <= i < keys.len() && 0 <= j < keys.len() && i != j implies keys[i]
                != keys[j] by {
                assert(slots[i].0 != slots[j].0);
            }
        }
        keys.unique_seq_to_set();
        assert(self@.dom() =~= keys.to_set()) by {
            assert forall|k: K::V| self@.dom().contains(k) implies keys.to_set().contains(k) by {
                let i: int = choose|i: int| 0 <= i < slots.len() && (#[trigger] slots[i]).0 == k;
                assert(keys[i] == k);
            }
            assert forall|k: K::V| keys.to_set().contains(k) implies self@.dom().contains(k) by {
                let i: int = choose|i: int| 0 <= i < keys.len() && keys[i] == k;
                assert(self@.contains_key(slots[i].0));
            }
        }
    }

    /// The empty map.
    pub fn new() -> (r: Self)
        ensures
            r.wf(),
            r@ == Map::<K::V, V>::empty(),
    {
        let r = AssocMap { entries: Vec::new() };
        assert(r@ =~= Map::<K::V, V>::empty()) by {
            assert forall|k: K::V| !r@.dom().contains(k) by {
                assert forall|i: int| !r.holds_at(i, k) by {}
            }
        }
        r
    }

    /// Number of entries.
    pub fn len(&self) -> (n: usize)
        requires
            self.wf(),
        ensures
            n == self@.dom().len(),
            n == self.slots().len(),
            self@.dom().finite(),
    {
        proof {
            self.lemma_slots();
        }
        self.entries.len()
    }

    /// Position of `key` in storage order.
    pub fn index_of(&self, key: &K) -> (r: Option<usize>)
        requires
            self.wf(),
        ensures
            match r {
                Some(i) => i < self.slots().len() && self.slots()[i as int].0 == key@
                    && self@.contains_key(key@) && self@[key@] == self.slots()[i as int].1,
                None => !self@.contains_key(key@),
            },
    {
        proof {
            self.lemma_slots();
        }
        let mut i: usize = 0;
        while i < self.entries.len()
            invariant
                i <= self.entries@.len(),
                self.wf(),
                forall|j: int| 0 <= j < i ==> (#[trigger] self.slots()[j]).0 != key@,
            decreases self.entries@.len() - i,
        {
            if self.entries[i].0.same(key) {
                proof {
                    self.lemma_slots();
                    assert(self@.contains_key(self.slots()[i as int].0));
                }
                return Some(i);
            }
            i += 1;
        }
        None
    }

    /// Whether `key` has an entry.
    pub fn contains_key(&self, key: &K) -> (b: bool)
        requires
            self.wf(),
        ensures
            b == self@.contains_key(key@),
    {
        self.index_of(key).is_some()
    }

    /// The value stored under `key`.
    pub fn get(&self, key: &K) -> (r: Option<&V>)
        requires
            self.wf(),
        ensures
            match r {
                Some(v) => self@.contains_key(key@) && *v == self@[key@],
                None => !self@.contains_key(key@),
            },
    {
        match self.index_of(key) {
            Some(i) => Some(&self.entries[i].1),
            None => None,
        }
    }

    /// The key at position `i`.
    pub fn key_at(&self, i: usize) -> (k: &K)
        requires
            i < self.slots().len(),
        ensures
            k@ == self.slots()[i as int].0,
    {
        &self.entries[i].0
    }

    /// The value at position `i`.
    pub fn value_at(&self, i: usize) -> (v: &V)
        requires
            i < self.slots().len(),
        ensures
            *v == self.slots()[i as int].1,
    {
        &self.entries[i].1
    }

    /// Replaces the value at position `i`.
    pub fn set_at(&mut self, i: usize, v: V)
        requires
            old(self).wf(),
            i < old(self).slots().len(),
        ensures
            final(self).wf(),
            final(self).slots() == old(self).slots().update(
                i as int,
                (old(self).slots()[i as int].0, v),
            ),
            final(self)@ == old(self)@.insert(old(self).slots()[i as int].0, v),
    {
        let ghost before = *self;
        let e = &mut self.entries[i];
        e.1 = v;
        proof {
            let k = before.slots()[i as int].0;
            assert(self.slots() =~= before.slots().update(i as int, (k, v)));
            assert forall|a: int, b: int|
                0 <= a < b < self.entries@.len() implies (#[trigger] self.entries@[a]).0@ != (
            #[trigger] self.entries@[b]).0@ by {
                assert(before.entries@[a].0@ != before.entries@[b].0@);
            }
            before.lemma_slots();
            let m = before@.insert(k, v);
            assert forall|j: int| 0 <= j < self.slots().len() implies m.contains_key(
                (#[trigger] self.slots()[j]).0,
            ) && m[self.slots()[j].0] == self.slots()[j].1 by {
                assert(before@.contains_key(before.slots()[j].0));
            }
            assert forall|k2: K::V| #[trigger] m.contains_key(k2) implies exists|j: int|
                0 <= j < self.slots().len() && (#[trigger] self.slots()[j]).0 == k2 by {
                let j: int = choose|j: int|
                    0 <= j < before.slots().len() && (#[trigger] before.slots()[j]).0 == k2;
                assert(self.slots()[if k2 == k { i as int } else { j }].0 == k2);
            }
            Self::lemma_from_slots(*self, m);
        }
    }

    /// A map that agrees with the slots is the view.
    proof fn lemma_from_slots(s: Self, m: Map<K::V, V>)
        requires
            s.wf(),
            forall|i: int|
                0 <= i < s.slots().len() ==> m.contains_key((#[trigger] s.slots()[i]).0)
                    && m[s.slots()[i].0] == s.slots()[i].1,
            forall|k: K::V| #[trigger]
                m.contains_key(k) ==> exists|i: int|
                    0 <= i < s.slots().len() && (#[trigger] s.slots()[i]).0 == k,
        ensures
            s@ == m,
    {
        s.lemma_slots();
        assert forall|k: K::V| s@.contains_key(k) implies m.contains_key(k) && m[k] == s@[k] by {
            let i: int = choose|i: int| 0 <= i < s.slots().len() && (#[trigger] s.slots()[i]).0 == k;
            assert(s@.contains_key(s.slots()[i].0));
        }
        assert forall|k: K::V| m.contains_key(k) implies s@.contains_key(k) by {
            let i: int = choose|i: int| 0 <= i < s.slots().len() && (#[trigger] s.slots()[i]).0 == k;
            assert(s@.contains_key(s.slots()[i].0));
        }
        assert(s@ =~= m);
    }

    /// Stores `v` under `key`, replacing what was there.
    pub fn insert(&mut self, key: K, v: V)
        requires
            old(self).wf(),
        ensures
            final(self).wf(),
            final(self)@ == old(self)@.insert(key@, v),
    {
        match self.index_of(&key) {
            Some(i) => {
                self.set_at(i, v);
            },
            None => {
                let ghost before = *self;
                self.entries.push((key, v));
                proof {
                    before.lemma_slots();
                    let n: int = before.slots().len() as int;
                    assert(self.slots() =~= before.slots().push((key@, v)));
                    assert forall|a: int, b: int|
                        0 <= a < b < self.entries@.len() implies (#[trigger] self.entries@[a]).0@ != (
                    #[trigger] self.entries@[b]).0@ by {
                        if b < n {
                            assert(before.entries@[a].0@ != before.entries@[b].0@);
                        } else {
                            assert(before@.contains_key(before.slots()[a].0));
                        }
                    }
                    let m = before@.insert(key@, v);
                    assert forall|i: int| 0 <= i < self.slots().len() implies m.contains_key(
                        (#[trigger] self.slots()[i]).0,
                    ) && m[self.slots()[i].0] == self.slots()[i].1 by {
                        if i < n {
                            assert(before@.contains_key(before.slots()[i].0));
                        }
                    }
                    assert forall|k: K::V| #[trigger] m.contains_key(k) implies exists|i: int|
                        0 <= i < self.slots().len() && (#[trigger] self.slots()[i]).0 == k by {
                        if k == key@ {
                            assert(self.slots()[n].0 == k);
                        } else {
                            assert(before@.contains_key(k));
                            let i: int = choose|i: int|
                                0 <= i < before.slots().len() && (#[trigger] before.slots()[i]).0
                                    == k;
                            assert(self.slots()[i].0 == k);
                        }
                    }
                    Self::lemma_from_slots(*self, m);
                }
            },
        }
    }

    /// Takes the entry at position `i` out; the last entry moves into its place.
    pub fn remove_at(&mut self, i: usize) -> (r: (K, V))
        requires
            old(self).wf(),
            i < old(self).slots().len(),
        ensures
            final(self).wf(),
            r.0@ == old(self).slots()[i as int].0,
            r.1 == old(self).slots()[i as int].1,
            final(self).slots() == old(self).slots().update(
                i as int,
                old(self).slots().last(),
            ).drop_last(),
            final(self)@ == old(self)@.remove(old(self).slots()[i as int].0),
    {
        let ghost before = *self;
        let r = self.entries.swap_remove(i);
        proof {
            let k = before.slots()[i as int].0;
            let n: int = before.slots().len() as int;
            before.lemma_slots();
            assert(self.slots() =~= before.slots().update(i as int, before.slots().last()).drop_last());
            assert forall|a: int, b: int| 0 <= a < b < self.entries@.len() implies (
            #[trigger] self.entries@[a]).0@ != (#[trigger] self.entries@[b]).0@ by {
                let a2: int = if a == i { n - 1 } else { a };
                let b2: int = if b == i { n - 1 } else { b };
                assert(before.slots()[a2].0 != before.slots()[b2].0);
            }
            let m = before@.remove(k);
            assert forall|j: int| 0 <= j < self.slots().len() implies m.contains_key(
                (#[trigger] self.slots()[j]).0,
            ) && m[self.slots()[j].0] == self.slots()[j].1 by {
                let j2: int = if j == i { n - 1 } else { j };
                assert(before@.contains_key(before.slots()[j2].0));
                assert(before.slots()[j2].0 != before.slots()[i as int].0);
            }
            assert forall|k2: K::V| #[trigger] m.contains_key(k2) implies exists|j: int|
                0 <= j < self.slots().len() && (#[trigger] self.slots()[j]).0 == k2 by {
                assert(before@.contains_key(k2));
                let j: int = choose|j: int|
                    0 <= j < before.slots().len() && (#[trigger] before.slots()[j]).0 == k2;
                let j2: int = if j == n - 1 { i as int } else { j };
                assert(self.slots()[j2].0 == k2);
            }
            Self::lemma_from_slots(*self, m);
        }
        r
    }

    /// Removes the entry of `key`.
    pub fn remove(&mut self, key: &K) -> (r: Option<V>)
        requires
            old(self).wf(),
        ensures
            final(self).wf(),
            final(self)@ == old(self)@.remove(key@),
            match r {
                Some(v) => old(self)@.contains_key(key@) && v == old(self)@[key@],
                None => !old(self)@.contains_key(key@),
            },
    {
        match self.index_of(key) {
            Some(i) => {
                let e = self.remove_at(i);
                Some(e.1)
            },
            None => {
                assert(self@.remove(key@) =~= self@);
                None
            },
        }
    }
}

impl<K: Key, V> View for AssocMap<K, V> {
    type V = Map<K::V, V>;

    closed spec fn view(&self) -> Map<K::V, V> {
        self.as_map()
    }
}

} // verus!
