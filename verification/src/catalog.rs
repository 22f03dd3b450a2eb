//! Ordering of the material catalog.
//!
//! Stratified materials are kept non-decreasing by start depth and eroded
//! materials non-increasing by weight. The order is re-established every
//! time a catalog is built, whatever the input order.

use vstd::prelude::*;
use crate::material::Material;

verus! {

/// Which key a catalog list is ordered by.
#[derive(Clone, Copy)]
pub enum SortKey {
    /// Non-decreasing start depth (stratified materials).
    ByDepth,
    /// Non-increasing weight (eroded materials).
    ByWeightDesc,
}

/// The ordering key of a material: comparing keys with `<=` yields
/// non-decreasing depth, or non-increasing weight.
pub open spec fn key_of(k: SortKey, m: Material) -> int {
    match k {
        SortKey::ByDepth => m.depth_spec(),
        SortKey::ByWeightDesc => -m.weight_spec(),
    }
}

/// The sequence is ordered by the given key.
pub open spec fn sorted_by_key(k: SortKey, s: Seq<Material>) -> bool {
    forall|i: int, j: int| 0 <= i < j < s.len() ==> key_of(k, s[i]) <= key_of(k, s[j])
}

/// Compare two materials by the given key.
fn key_le(k: SortKey, a: &Material, b: &Material) -> (r: bool)
    ensures
        r == (key_of(k, *a) <= key_of(k, *b)),
{
    match k {
        SortKey::ByDepth => {
            let da = match a {
                Material::Stratified { depth, .. } => *depth,
                Material::Eroded { .. } => 0,
            };
            let db = match b {
                Material::Stratified { depth, .. } => *depth,
                Material::Eroded { .. } => 0,
            };
            da <= db
        },
        SortKey::ByWeightDesc => {
            let wa = match a {
                Material::Stratified { .. } => 0,
                Material::Eroded { weight, .. } => *weight,
            };
            let wb = match b {
                Material::Stratified { .. } => 0,
                Material::Eroded { weight, .. } => *weight,
            };
            wb <= wa
        },
    }
}

/// A sorted permutation is unique when the keys are pairwise distinct:
/// any ordered sequence with the same multiset as `a` is `a` itself.
pub proof fn lemma_sorted_distinct_perm(k: SortKey, a: Seq<Material>, b: Seq<Material>)
    requires
        sorted_by_key(k, a),
        sorted_by_key(k, b),
        a.to_multiset() == b.to_multiset(),
        forall|i: int, j: int| 0 <= i < j < a.len() ==> key_of(k, a[i]) != key_of(k, a[j]),
    ensures
        a == b,
    decreases a.len(),
{
    broadcast use vstd::seq_lib::group_to_multiset_ensures;

    if a.len() == 0 {
        assert(b.len() == b.to_multiset().len());
        assert(a =~= b);
    } else {
        assert(a.len() == a.to_multiset().len());
        assert(b.len() == b.to_multiset().len());
        assert(b.contains(b[0]));
        assert(a.to_multiset().count(b[0]) > 0);
        assert(a.contains(b[0]));
        let i = choose|i: int| 0 <= i < a.len() && a[i] == b[0];
        assert(a.contains(a[0]));
        assert(b.to_multiset().count(a[0]) > 0);
        assert(b.contains(a[0]));
        let j = choose|j: int| 0 <= j < b.len() && b[j] == a[0];
        assert(key_of(k, a[0]) <= key_of(k, a[i]));
        assert(key_of(k, b[0]) <= key_of(k, b[j]));
        assert(key_of(k, a[0]) == key_of(k, b[0]));
        assert(i == 0);
        let a2 = a.skip(1);
        let b2 = b.skip(1);
        vstd::seq_lib::to_multiset_remove(a, 0);
        vstd::seq_lib::to_multiset_remove(b, 0);
        assert(a.remove(0) =~= a2);
        assert(b.remove(0) =~= b2);
        assert(a2.to_multiset() == b2.to_multiset());
        assert forall|p: int, q: int| 0 <= p < q < a2.len() implies key_of(k, a2[p]) <= key_of(
            k,
            a2[q],
        ) && key_of(k, a2[p]) != key_of(k, a2[q]) by {
            assert(a2[p] == a[p + 1] && a2[q] == a[q + 1]);
        }
        assert forall|p: int, q: int| 0 <= p < q < b2.len() implies key_of(k, b2[p]) <= key_of(
            k,
            b2[q],
        ) by {
            assert(b2[p] == b[p + 1] && b2[q] == b[q + 1]);
        }
        lemma_sorted_distinct_perm(k, a2, b2);
        assert(a[0] == b[0]);
        assert forall|t: int| 0 <= t < a.len() implies a[t] == b[t] by {
            if t > 0 {
                assert(a2[t - 1] == a[t]);
                assert(b2[t - 1] == b[t]);
            }
        }
        assert(a =~= b);
    }
}

/// When every element satisfies the predicate, filtering keeps the
/// sequence unchanged.
pub proof fn lemma_filter_all(s: Seq<Material>, pred: spec_fn(Material) -> bool)
    requires
        forall|i: int| 0 <= i < s.len() ==> pred(#[trigger] s[i]),
    ensures
        s.filter(pred) == s,
    decreases s.len(),
{
    reveal(Seq::filter);
    if s.len() > 0 {
        assert(pred(s.last()));
        lemma_filter_all(s.drop_last(), pred);
        assert(s.drop_last().push(s.last()) =~= s);
    }
}

/// Sort the materials by the given key (insertion sort).
///
/// The result is ordered and is a permutation of the input: no material
/// is lost, duplicated or altered.
pub fn sort_materials(v: &mut Vec<Material>, k: SortKey)
    ensures
        sorted_by_key(k, final(v)@),
        final(v)@.to_multiset() == old(v)@.to_multiset(),
        final(v)@.len() == old(v)@.len(),
        forall|m: Material| final(v)@.contains(m) ==> old(v)@.contains(m),
{
    broadcast use vstd::seq_lib::to_multiset_insert;
    broadcast use vstd::seq_lib::group_to_multiset_ensures;

    let ghost orig = v@;
    let mut out: Vec<Material> = Vec::new();
    let mut i: usize = 0;
    while i < v.len()
        invariant
            0 <= i <= v@.len(),
            v@ == orig,
            sorted_by_key(k, out@),
            out@.to_multiset() == orig.take(i as int).to_multiset(),
            out@.len() == i,
        decreases v@.len() - i,
    {
        let m = v[i];
        let mut j: usize = 0;
        while j < out.len() && key_le(k, &out[j], &m)
            invariant
                0 <= j <= out@.len(),
                forall|t: int| 0 <= t < j ==> key_of(k, out@[t]) <= key_of(k, m),
                sorted_by_key(k, out@),
            decreases out@.len() - j,
        {
            j = j + 1;
        }
        proof {
            out@.insert_ensures(j as int, m);
            assert forall|p: int, q: int|
                0 <= p < q < out@.insert(j as int, m).len() implies key_of(
                k,
                out@.insert(j as int, m)[p],
            ) <= key_of(k, out@.insert(j as int, m)[q]) by {
                let s2 = out@.insert(j as int, m);
                if q < j {
                    assert(s2[p] == out@[p] && s2[q] == out@[q]);
                } else if p > j {
                    assert(s2[p] == out@[p - 1] && s2[q] == out@[q - 1]);
                } else if p == j {
                    assert(s2[p] == m && s2[q] == out@[q - 1]);
                    assert(key_of(k, out@[j as int]) > key_of(k, m));
                } else if q == j {
                    assert(s2[p] == out@[p] && s2[q] == m);
                } else {
                    // p < j < q
                    assert(s2[p] == out@[p] && s2[q] == out@[q - 1]);
                    if j < out@.len() {
                        assert(key_of(k, out@[j as int]) > key_of(k, m));
                    }
                }
            }
        }
        let ghost out_before = out@;
        out.insert(j, m);
        proof {
            vstd::seq_lib::to_multiset_insert(out_before, j as int, m);
            vstd::seq_lib::to_multiset_build(orig.take(i as int), orig[i as int]);
            assert(orig.take(i as int + 1) =~= orig.take(i as int).push(orig[i as int]));
        }
        i = i + 1;
    }
    proof {
        assert(orig.take(orig.len() as int) =~= orig);
    }
    *v = out;
    proof {
        assert forall|m: Material| v@.contains(m) implies orig.contains(m) by {
            assert(v@.to_multiset().count(m) > 0);
            assert(orig.to_multiset().count(m) > 0);
        }
    }
}

} // verus!
