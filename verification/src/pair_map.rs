//! Hash map keyed by 32 bytes, held as two halves.

use crate::hash_keys::keys_of;
use std::collections::HashMap;
use vstd::prelude::*;

verus! {

broadcast use vstd::std_specs::hash::group_hash_axioms;

/// A finite map from pairs of numbers to numbers.
pub struct PairMap {
    rows: HashMap<u128, HashMap<u128, u128>>,
    count: usize,
}

impl View for PairMap {
    type V = Map<(u128, u128), u128>;

    closed spec fn view(&self) -> Map<(u128, u128), u128> {
        Map::new(
            |k: (u128, u128)| self.rows@.contains_key(k.0) && self.rows@[k.0]@.contains_key(k.1),
            |k: (u128, u128)| self.rows@[k.0]@[k.1],
        )
    }
}

impl PairMap {
    /// The count is the number of entries.
    pub closed spec fn wf(self) -> bool {
        self@.dom().finite() && self.count == self@.dom().len()
    }

    /// The empty map.
    pub fn new() -> (m: PairMap)
        ensures
            m.wf(),
            m@ == Map::<(u128, u128), u128>::empty(),
    {
        let m = PairMap { rows: HashMap::new(), count: 0 };
        assert(m@ =~= Map::<(u128, u128), u128>::empty());
        m
    }

    /// Number of entries.
    pub fn len(&self) -> (n: usize)
        requires
            self.wf(),
        ensures
            n == self@.dom().len(),
            self@.dom().finite(),
    {
        self.count
    }

    /// The value of a key.
    pub fn get(&self, k: &(u128, u128)) -> (r: Option<u128>)
        ensures
            r == (if self@.contains_key(*k) {
                Some(self@[*k])
            } else {
                None
            }),
    {
        match self.rows.get(&k.0) {
            Some(row) => match row.get(&k.1) {
                Some(v) => Some(*v),
                None => None,
            },
            None => None,
        }
    }

    /// Stores a value, replacing what was there.
    pub fn insert(&mut self, k: (u128, u128), v: u128)
        requires
            old(self).wf(),
            old(self)@.dom().len() < usize::MAX || old(self)@.contains_key(k),
        ensures
            final(self).wf(),
            final(self)@ == old(self)@.insert(k, v),
    {
        let known = self.get(&k).is_some();
        let ghost before = self@;
        let mut row = match self.rows.remove(&k.0) {
            Some(row) => row,
            None => HashMap::new(),
        };
        row.insert(k.1, v);
        self.rows.insert(k.0, row);
        if !known {
            self.count = self.count + 1;
        }
        proof {
            assert(self@ =~= before.insert(k, v));
        }
    }

    /// Removes a key.
    pub fn remove(&mut self, k: &(u128, u128))
        requires
            old(self).wf(),
        ensures
            final(self).wf(),
            final(self)@ == old(self)@.remove(*k),
    {
        let known = self.get(k).is_some();
        let ghost before = self@;
        if known {
            if let Some(mut row) = self.rows.remove(&k.0) {
                row.remove(&k.1);
                if row.len() > 0 {
                    self.rows.insert(k.0, row);
                } else {
                    proof {
                        assert(row@.dom() =~= Set::empty());
                    }
                }
            }
            proof {
                assert(before.dom().contains(*k));
                assert(self@ =~= before.remove(*k));
            }
            self.count = self.count - 1;
        }
        proof {
            assert(self@ =~= before.remove(*k));
        }
    }

    /// All keys, in no particular order.
    pub fn keys(&self) -> (ks: Vec<(u128, u128)>)
        ensures
            forall|k: (u128, u128)| self@.contains_key(k) <==> #[trigger] ks@.contains(k),
    {
        let hi = keys_of(&self.rows);
        let mut ks: Vec<(u128, u128)> = Vec::new();
        let mut i: usize = 0;
        while i < hi.len()
            invariant
                i <= hi@.len(),
                hi@.no_duplicates(),
                forall|a: u128| self.rows@.contains_key(a) <==> #[trigger] hi@.contains(a),
                forall|j: int| 0 <= j < hi@.len() ==> self.rows@.contains_key(#[trigger] hi@[j]),
                forall|k: (u128, u128)| #[trigger]
                    ks@.contains(k) ==> self@.contains_key(k),
                forall|j: int, b: u128|
                    0 <= j < i && self.rows@[hi@[j]]@.contains_key(b) ==> #[trigger] ks@.contains(
                        (hi@[j], b),
                    ),
            decreases hi@.len() - i,
        {
            let a: u128 = hi[i];
            if let Some(row) = self.rows.get(&a) {
                let lo = keys_of(row);
                let ghost done = ks@;
                let mut n: usize = 0;
                while n < lo.len()
                    invariant
                        n <= lo@.len(),
                        i < hi@.len(),
                        a == hi@[i as int],
                        self.rows@.contains_key(a),
                        *row == self.rows@[a],
                        forall|j: int| 0 <= j < lo@.len() ==> row@.contains_key(#[trigger] lo@[j]),
                        forall|k: (u128, u128)| #[trigger]
                            ks@.contains(k) ==> self@.contains_key(k),
                        forall|k: (u128, u128)| #[trigger]
                            done.contains(k) ==> ks@.contains(k),
                        forall|j: int| 0 <= j < n ==> ks@.contains((a, #[trigger] lo@[j])),
                    decreases lo@.len() - n,
                {
                    let ghost prior = ks@;
                    ks.push((a, lo[n]));
                    proof {
                        assert forall|k: (u128, u128)| prior.contains(k) implies #[trigger] ks@.contains(
                            k,
                        ) by {
                            let j: int = choose|j: int| 0 <= j < prior.len() && prior[j] == k;
                            assert(ks@[j] == k);
                        }
                        assert(ks@[ks@.len() - 1] == (a, lo@[n as int]));
                        assert(row@.contains_key(lo@[n as int]));
                        assert forall|k: (u128, u128)| #[trigger] ks@.contains(
                            k,
                        ) implies self@.contains_key(k) by {
                            let j: int = choose|j: int| 0 <= j < ks@.len() && ks@[j] == k;
                            if j < prior.len() {
                                assert(prior[j] == k);
                                assert(prior.contains(k));
                            }
                        }
                    }
                    n += 1;
                }
                proof {
                    assert forall|j: int, b: u128|
                        0 <= j < i + 1 && self.rows@[hi@[j]]@.contains_key(b) implies #[trigger] ks@.contains(
                    (hi@[j], b)) by {
                        if j < i {
                            assert(done.contains((hi@[j], b)));
                        } else {
                            assert(lo@.contains(b));
                            let m: int = choose|m: int| 0 <= m < lo@.len() && lo@[m] == b;
                            assert(ks@.contains((a, lo@[m])));
                        }
                    }
                }
            }
            i += 1;
        }
        proof {
            assert forall|k: (u128, u128)| self@.contains_key(k) implies #[trigger] ks@.contains(
                k,
            ) by {
                assert(hi@.contains(k.0));
                let j: int = choose|j: int| 0 <= j < hi@.len() && hi@[j] == k.0;
                assert(ks@.contains((hi@[j], k.1)));
            }
        }
        ks
    }
}

} // verus!
