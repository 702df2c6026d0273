//! The union of a sequence of maps whose domains do not overlap. Each level
//! of the tree holds what its children hold, so this is how a level's
//! contents are stated over those of its children.

use vstd::prelude::*;

verus! {

/// No key lies in two of the maps.
pub open spec fn disjoint<K, V>(ms: Seq<Map<K, V>>) -> bool {
    forall|i: int, j: int, k: K|
        0 <= i < ms.len() && 0 <= j < ms.len() && i != j && #[trigger] ms[i].contains_key(k)
            ==> !#[trigger] ms[j].contains_key(k)
}

/// Some map of the sequence holds `k`.
pub open spec fn held<K, V>(ms: Seq<Map<K, V>>, k: K) -> bool {
    exists|i: int| 0 <= i < ms.len() && #[trigger] ms[i].contains_key(k)
}

/// An index of a map that holds `k`.
pub open spec fn holder<K, V>(ms: Seq<Map<K, V>>, k: K) -> int {
    choose|i: int| 0 <= i < ms.len() && #[trigger] ms[i].contains_key(k)
}

/// Every key that some map of the sequence holds, with its value there.
pub open spec fn union_of<K, V>(ms: Seq<Map<K, V>>) -> Map<K, V> {
    Map::new(|k: K| held(ms, k), |k: K| ms[holder(ms, k)][k])
}

/// What one of the maps holds, the union holds too.
pub proof fn lemma_union_member<K, V>(ms: Seq<Map<K, V>>, i: int, k: K)
    requires
        disjoint(ms),
        0 <= i < ms.len(),
        ms[i].contains_key(k),
    ensures
        union_of(ms).contains_key(k),
        union_of(ms)[k] == ms[i][k],
        holder(ms, k) == i,
{
    assert(held(ms, k));
    let h = holder(ms, k);
    assert(ms[h].contains_key(k));
    if h != i {
        assert(!ms[i].contains_key(k));
    }
}

/// The union of a single map is that map.
pub proof fn lemma_union_single<K, V>(m: Map<K, V>)
    ensures
        union_of(seq![m]) == m,
        disjoint(seq![m]),
{
    let ms = seq![m];
    assert forall|k: K| union_of(ms).contains_key(k) <==> m.contains_key(k) by {
        if m.contains_key(k) {
            assert(ms[0].contains_key(k));
        }
    }
    assert forall|k: K| union_of(ms).contains_key(k) implies union_of(ms)[k] == m[k] by {
        assert(holder(ms, k) == 0);
    }
    assert(union_of(ms) =~= m);
}

/// Where one map of the sequence gains a key that no other map holds, the
/// union gains that key.
pub proof fn lemma_union_grow<K, V>(ms: Seq<Map<K, V>>, i: int, k: K, v: V)
    requires
        disjoint(ms),
        0 <= i < ms.len(),
        forall|j: int| 0 <= j < ms.len() ==> !#[trigger] ms[j].contains_key(k),
    ensures
        disjoint(ms.update(i, ms[i].insert(k, v))),
        union_of(ms.update(i, ms[i].insert(k, v))) == union_of(ms).insert(k, v),
{
    let ns = ms.update(i, ms[i].insert(k, v));
    assert forall|a: int, b: int, x: K|
        0 <= a < ns.len() && 0 <= b < ns.len() && a != b && #[trigger] ns[a].contains_key(
            x,
        ) implies !#[trigger] ns[b].contains_key(x) by {
        if x == k {
            assert(!ms[b].contains_key(k));
            assert(!ms[a].contains_key(k));
        } else {
            assert(ms[a].contains_key(x));
        }
    }
    let goal = union_of(ms).insert(k, v);
    assert forall|x: K| union_of(ns).contains_key(x) <==> goal.contains_key(x) by {
        if union_of(ns).contains_key(x) {
            let h = holder(ns, x);
            assert(ns[h].contains_key(x));
            if x != k {
                assert(ms[h].contains_key(x));
            }
        }
        if goal.contains_key(x) {
            if x == k {
                assert(ns[i].contains_key(x));
            } else {
                let h = holder(ms, x);
                assert(ms[h].contains_key(x));
                assert(ns[h].contains_key(x));
            }
        }
    }
    assert forall|x: K| union_of(ns).contains_key(x) implies union_of(ns)[x] == goal[x] by {
        if x == k {
            assert(ns[i].contains_key(x));
            lemma_union_member(ns, i, x);
        } else {
            let h = holder(ms, x);
            assert(ms[h].contains_key(x));
            assert(ns[h].contains_key(x));
            lemma_union_member(ns, h, x);
        }
    }
    assert(union_of(ns) =~= goal);
}

/// Where a map that holds one key, which no map of the sequence holds, joins
/// the sequence, the union gains that key.
pub proof fn lemma_union_add<K, V>(ms: Seq<Map<K, V>>, pos: int, m: Map<K, V>, k: K, v: V)
    requires
        disjoint(ms),
        0 <= pos <= ms.len(),
        m == Map::<K, V>::empty().insert(k, v),
        forall|j: int| 0 <= j < ms.len() ==> !#[trigger] ms[j].contains_key(k),
    ensures
        disjoint(ms.insert(pos, m)),
        union_of(ms.insert(pos, m)) == union_of(ms).insert(k, v),
{
    let ns = ms.insert(pos, m);
    let back = |a: int| if a < pos { a } else { a - 1 };
    let forth = |a: int| if a < pos { a } else { a + 1 };
    assert forall|a: int| 0 <= a < ns.len() && a != pos implies #[trigger] ns[a] == ms[back(a)] by {}
    assert forall|a: int| 0 <= a < ms.len() implies #[trigger] ms[a] == ns[forth(a)] by {}
    assert forall|a: int, b: int, x: K|
        0 <= a < ns.len() && 0 <= b < ns.len() && a != b && #[trigger] ns[a].contains_key(
            x,
        ) implies !#[trigger] ns[b].contains_key(x) by {
        if a == pos {
            assert(x == k);
            assert(ns[b] == ms[back(b)]);
            assert(!ms[back(b)].contains_key(k));
        } else if b == pos {
            assert(ns[a] == ms[back(a)]);
            assert(ms[back(a)].contains_key(x));
        } else {
            assert(ns[a] == ms[back(a)]);
            assert(ns[b] == ms[back(b)]);
            assert(ms[back(a)].contains_key(x));
        }
    }
    let goal = union_of(ms).insert(k, v);
    assert forall|x: K| union_of(ns).contains_key(x) <==> goal.contains_key(x) by {
        if union_of(ns).contains_key(x) {
            let h = holder(ns, x);
            assert(ns[h].contains_key(x));
            if h != pos {
                assert(ns[h] == ms[back(h)]);
                assert(ms[back(h)].contains_key(x));
            }
        }
        if goal.contains_key(x) {
            if x == k {
                assert(ns[pos].contains_key(x));
            } else {
                let h = holder(ms, x);
                assert(ms[h].contains_key(x));
                assert(ms[h] == ns[forth(h)]);
                assert(ns[forth(h)].contains_key(x));
            }
        }
    }
    assert forall|x: K| union_of(ns).contains_key(x) implies union_of(ns)[x] == goal[x] by {
        if x == k {
            assert(ns[pos].contains_key(x));
            lemma_union_member(ns, pos, x);
        } else {
            let h = holder(ms, x);
            assert(ms[h].contains_key(x));
            assert(ms[h] == ns[forth(h)]);
            assert(ns[forth(h)].contains_key(x));
            lemma_union_member(ns, forth(h), x);
        }
    }
    assert(union_of(ns) =~= goal);
}

} // verus!
