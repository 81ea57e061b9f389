//! Sums over finite maps.

use vstd::prelude::*;

verus! {

/// Sum of `f` over the values of a finite map.
pub open spec fn map_sum<K, V>(m: Map<K, V>, f: spec_fn(V) -> int) -> int
    decreases m.dom().len(),
    when m.dom().finite()
{
    if m.dom().len() == 0 {
        0
    } else {
        let k = m.dom().choose();
        f(m[k]) + map_sum(m.remove(k), f)
    }
}

/// Any key can be split off the sum.
pub proof fn lemma_map_sum_remove<K, V>(m: Map<K, V>, k: K, f: spec_fn(V) -> int)
    requires
        m.dom().finite(),
        m.contains_key(k),
    ensures
        map_sum(m, f) == f(m[k]) + map_sum(m.remove(k), f),
    decreases m.dom().len(),
{
    let c = m.dom().choose();
    assert(m.dom().contains(c));
    if c != k {
        lemma_map_sum_remove(m.remove(c), k, f);
        lemma_map_sum_remove(m.remove(k), c, f);
        assert(m.remove(c).remove(k) =~= m.remove(k).remove(c));
    }
}

/// A new key adds its value to the sum.
pub proof fn lemma_map_sum_insert<K, V>(m: Map<K, V>, k: K, v: V, f: spec_fn(V) -> int)
    requires
        m.dom().finite(),
        !m.contains_key(k),
    ensures
        map_sum(m.insert(k, v), f) == f(v) + map_sum(m, f),
{
    lemma_map_sum_remove(m.insert(k, v), k, f);
    assert(m.insert(k, v).remove(k) =~= m);
}

/// Replacing a value changes the sum by the difference.
pub proof fn lemma_map_sum_update<K, V>(m: Map<K, V>, k: K, v: V, f: spec_fn(V) -> int)
    requires
        m.dom().finite(),
        m.contains_key(k),
    ensures
        map_sum(m.insert(k, v), f) == map_sum(m, f) - f(m[k]) + f(v),
{
    lemma_map_sum_remove(m, k, f);
    lemma_map_sum_remove(m.insert(k, v), k, f);
    assert(m.insert(k, v).remove(k) =~= m.remove(k));
}

/// The sum of values that are not negative is not negative, and at least each of them.
pub proof fn lemma_map_sum_bound<K, V>(m: Map<K, V>, f: spec_fn(V) -> int)
    requires
        m.dom().finite(),
        forall|v: V| 0 <= #[trigger] f(v),
    ensures
        0 <= map_sum(m, f),
        forall|k: K| #[trigger] m.contains_key(k) ==> f(m[k]) <= map_sum(m, f),
    decreases m.dom().len(),
{
    if m.dom().len() != 0 {
        let c = m.dom().choose();
        assert(m.dom().contains(c));
        lemma_map_sum_bound(m.remove(c), f);
        assert forall|k: K| #[trigger] m.contains_key(k) implies f(m[k]) <= map_sum(m, f) by {
            if k != c {
                assert(m.remove(c).contains_key(k));
            }
        }
    }
}

/// A sum of zeros and ones is zero exactly when no value counts.
pub proof fn lemma_map_sum_zero<K, V>(m: Map<K, V>, f: spec_fn(V) -> int)
    requires
        m.dom().finite(),
        forall|v: V| 0 <= #[trigger] f(v),
        forall|k: K| #[trigger] m.contains_key(k) ==> f(m[k]) == 0,
    ensures
        map_sum(m, f) == 0,
    decreases m.dom().len(),
{
    if m.dom().len() != 0 {
        let c = m.dom().choose();
        assert(m.dom().contains(c));
        assert(m.contains_key(c));
        assert forall|k: K| #[trigger] m.remove(c).contains_key(k) implies f(m.remove(c)[k])
            == 0 by {
            assert(m.contains_key(k));
        }
        lemma_map_sum_zero(m.remove(c), f);
    }
}

/// A positive sum has a key whose value counts.
pub proof fn lemma_map_sum_positive<K, V>(m: Map<K, V>, f: spec_fn(V) -> int) -> (k: K)
    requires
        m.dom().finite(),
        forall|v: V| 0 <= #[trigger] f(v),
        map_sum(m, f) > 0,
    ensures
        m.contains_key(k),
        f(m[k]) > 0,
{
    if forall|k: K| #[trigger] m.contains_key(k) ==> f(m[k]) == 0 {
        lemma_map_sum_zero(m, f);
    }
    choose|k: K| #[trigger] m.contains_key(k) && f(m[k]) > 0
}

} // verus!
