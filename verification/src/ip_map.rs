//! Hash map keyed by IP address.

use crate::hash_keys::keys_of;
use crate::net::IpAddr;
use std::collections::HashMap;
use vstd::prelude::*;

verus! {

broadcast use vstd::std_specs::hash::group_hash_axioms;

/// A finite map from IP addresses, one table for each family.
pub struct IpMap<V> {
    v4: HashMap<u32, V>,
    v6: HashMap<u128, V>,
}

impl<V> View for IpMap<V> {
    type V = Map<IpAddr, V>;

    closed spec fn view(&self) -> Map<IpAddr, V> {
        Map::new(
            |ip: IpAddr|
                match ip {
                    IpAddr::V4(a) => self.v4@.contains_key(a),
                    IpAddr::V6(a) => self.v6@.contains_key(a),
                },
            |ip: IpAddr|
                match ip {
                    IpAddr::V4(a) => self.v4@[a],
                    IpAddr::V6(a) => self.v6@[a],
                },
        )
    }
}

impl<V> IpMap<V> {
    /// The size is that of both tables together.
    pub proof fn lemma_len(self)
        ensures
            self@.dom().finite(),
            self@.dom().len() == self.sizes().0 + self.sizes().1,
    {
        let f4 = |a: u32| IpAddr::V4(a);
        let f6 = |a: u128| IpAddr::V6(a);
        let s4 = self.v4@.dom().map(f4);
        let s6 = self.v6@.dom().map(f6);
        self.v4@.dom().lemma_map_finite(f4);
        self.v6@.dom().lemma_map_finite(f6);
        assert forall|a: u32| #[trigger] self.v4@.dom().contains(a) implies s4.contains(f4(a)) by {}
        assert forall|b: IpAddr| #[trigger] s4.contains(b) implies exists|a: u32|
            self.v4@.dom().contains(a) && f4(a) == b by {}
        vstd::set_lib::lemma_map_size(self.v4@.dom(), s4, f4);
        vstd::set_lib::lemma_map_size(self.v6@.dom(), s6, f6);
        assert forall|ip: IpAddr| self@.dom().contains(ip) <==> s4.union(s6).contains(ip) by {
            match ip {
                IpAddr::V4(a) => {
                    if self.v4@.dom().contains(a) {
                        assert(f4(a) == ip);
                    }
                },
                IpAddr::V6(a) => {
                    if self.v6@.dom().contains(a) {
                        assert(f6(a) == ip);
                    }
                },
            }
        }
        assert(self@.dom() =~= s4.union(s6));
        vstd::set_lib::lemma_set_disjoint_lens(s4, s6);
    }

    /// Number of entries of each family.
    pub closed spec fn sizes(self) -> (nat, nat) {
        (self.v4@.dom().len(), self.v6@.dom().len())
    }

    /// The empty map.
    pub fn new() -> (m: IpMap<V>)
        ensures
            m@ == Map::<IpAddr, V>::empty(),
    {
        let m = IpMap { v4: HashMap::new(), v6: HashMap::new() };
        assert(m@ =~= Map::<IpAddr, V>::empty());
        m
    }

    /// Number of entries.
    pub fn len(&self) -> (n: u128)
        ensures
            n == self@.dom().len(),
            self@.dom().finite(),
    {
        proof {
            self.lemma_len();
        }
        self.v4.len() as u128 + self.v6.len() as u128
    }

    /// Whether there are at least `n` entries.
    pub fn has_at_least(&self, n: usize) -> (b: bool)
        ensures
            b == (self@.dom().len() >= n),
            self@.dom().finite(),
    {
        self.len() >= n as u128
    }

    /// The value of `ip`.
    pub fn get(&self, ip: &IpAddr) -> (r: Option<&V>)
        ensures
            match r {
                Some(v) => self@.contains_key(*ip) && *v == self@[*ip],
                None => !self@.contains_key(*ip),
            },
    {
        match ip {
            IpAddr::V4(a) => self.v4.get(a),
            IpAddr::V6(a) => self.v6.get(a),
        }
    }

    /// Whether `ip` has a value.
    pub fn contains_key(&self, ip: &IpAddr) -> (b: bool)
        ensures
            b == self@.contains_key(*ip),
    {
        match ip {
            IpAddr::V4(a) => self.v4.contains_key(a),
            IpAddr::V6(a) => self.v6.contains_key(a),
        }
    }

    /// Stores a value, replacing what was there.
    pub fn insert(&mut self, ip: IpAddr, v: V)
        ensures
            final(self)@ == old(self)@.insert(ip, v),
    {
        match ip {
            IpAddr::V4(a) => {
                self.v4.insert(a, v);
            },
            IpAddr::V6(a) => {
                self.v6.insert(a, v);
            },
        }
        assert(self@ =~= old(self)@.insert(ip, v));
    }

    /// Removes the value of `ip`.
    pub fn remove(&mut self, ip: &IpAddr) -> (r: Option<V>)
        ensures
            final(self)@ == old(self)@.remove(*ip),
            match r {
                Some(v) => old(self)@.contains_key(*ip) && v == old(self)@[*ip],
                None => !old(self)@.contains_key(*ip),
            },
    {
        let r = match ip {
            IpAddr::V4(a) => self.v4.remove(a),
            IpAddr::V6(a) => self.v6.remove(a),
        };
        assert(self@ =~= old(self)@.remove(*ip));
        r
    }

    /// The addresses with a value, in no particular order.
    pub fn keys(&self) -> (ks: Vec<IpAddr>)
        ensures
            ks@.no_duplicates(),
            forall|ip: IpAddr| self@.contains_key(ip) <==> #[trigger] ks@.contains(ip),
    {
        let k4 = keys_of(&self.v4);
        let k6 = keys_of(&self.v6);
        let mut ks: Vec<IpAddr> = Vec::new();
        let mut i: usize = 0;
        while i < k4.len()
            invariant
                i <= k4@.len(),
                ks@.len() == i,
                forall|j: int| 0 <= j < i ==> #[trigger] ks@[j] == IpAddr::V4(k4@[j]),
            decreases k4@.len() - i,
        {
            ks.push(IpAddr::V4(k4[i]));
            i += 1;
        }
        let ghost n: int = i as int;
        i = 0;
        while i < k6.len()
            invariant
                i <= k6@.len(),
                n == k4@.len(),
                ks@.len() == n + i,
                forall|j: int| 0 <= j < n ==> #[trigger] ks@[j] == IpAddr::V4(k4@[j]),
                forall|j: int| n <= j < n + i ==> #[trigger] ks@[j] == IpAddr::V6(k6@[j - n]),
            decreases k6@.len() - i,
        {
            ks.push(IpAddr::V6(k6[i]));
            i += 1;
        }
        proof {
            assert forall|ip: IpAddr| self@.contains_key(ip) implies #[trigger] ks@.contains(ip) by {
                match ip {
                    IpAddr::V4(a) => {
                        assert(k4@.contains(a));
                        let j: int = choose|j: int| 0 <= j < k4@.len() && k4@[j] == a;
                        assert(ks@[j] == ip);
                    },
                    IpAddr::V6(a) => {
                        assert(k6@.contains(a));
                        let j: int = choose|j: int| 0 <= j < k6@.len() && k6@[j] == a;
                        assert(ks@[n + j] == ip);
                    },
                }
            }
            assert forall|ip: IpAddr| #[trigger] ks@.contains(ip) implies self@.contains_key(ip) by {
                let j: int = choose|j: int| 0 <= j < ks@.len() && ks@[j] == ip;
                if j < n {
                    assert(k4@.contains(k4@[j]));
                } else {
                    assert(k6@.contains(k6@[j - n]));
                }
            }
        }
        ks
    }
}

/// A value that is worth keeping only for some time.
pub trait Expiring {
    /// Whether the value is no longer worth keeping at `now`.
    spec fn stale(&self, now: u128) -> bool;

    /// Whether the value is no longer worth keeping at `now`.
    fn is_stale(&self, now: u128) -> (b: bool)
        ensures
            b == self.stale(now),
    ;
}

/// The entries that are worth keeping at `now`.
pub open spec fn fresh<V: Expiring>(m: Map<IpAddr, V>, now: u128) -> Map<IpAddr, V> {
    Map::new(|ip: IpAddr| m.contains_key(ip) && !m[ip].stale(now), |ip: IpAddr| m[ip])
}

impl<V: Expiring> IpMap<V> {
    /// Removes what is no longer worth keeping at `now`.
    pub fn sweep(&mut self, now: u128)
        ensures
            final(self)@ == fresh(old(self)@, now),
    {
        let ghost m0 = self@;
        let ks = self.keys();
        let mut i: usize = 0;
        while i < ks.len()
            invariant
                i <= ks@.len(),
                m0 == old(self)@,
                ks@.no_duplicates(),
                forall|ip: IpAddr| m0.contains_key(ip) <==> #[trigger] ks@.contains(ip),
                forall|ip: IpAddr| #[trigger]
                    self@.contains_key(ip) ==> m0.contains_key(ip) && self@[ip] == m0[ip],
                forall|j: int|
                    i <= j < ks@.len() && m0.contains_key(#[trigger] ks@[j]) ==> self@.contains_key(
                        ks@[j],
                    ),
                forall|j: int|
                    0 <= j < i ==> (self@.contains_key(#[trigger] ks@[j])
                        <==> !m0[ks@[j]].stale(now)),
            decreases ks@.len() - i,
        {
            let ip = ks[i];
            assert(ks@.contains(ip));
            let stale = match self.get(&ip) {
                Some(e) => e.is_stale(now),
                None => false,
            };
            if stale {
                self.remove(&ip);
            }
            i += 1;
        }
        proof {
            let r = fresh(m0, now);
            assert forall|ip: IpAddr| self@.dom().contains(ip) <==> r.dom().contains(ip) by {
                if m0.contains_key(ip) {
                    assert(ks@.contains(ip));
                    let j: int = choose|j: int| 0 <= j < ks@.len() && ks@[j] == ip;
                    assert(self@.contains_key(ks@[j]) <==> !m0[ks@[j]].stale(now));
                } else {
                    assert(!self@.contains_key(ip));
                }
            }
            assert forall|ip: IpAddr| #[trigger] self@.contains_key(ip) implies self@[ip]
                == r[ip] by {
                assert(r.dom().contains(ip));
            }
            assert(self@ =~= r);
        }
    }
}

} // verus!
