//! Keyed first-match lookup over plain vectors.
//!
//! The runtime caches key their entries by program counter, operation
//! or property name.  Each keeps its entries in a vector and is
//! specified through first-match lookup under a key projection; these
//! lemmas say how lookup reacts to updating the first matching entry
//! and to appending a new one.

use vstd::prelude::*;

verus! {

/// The first entry whose key is `k`, under the key projection `clave`.
pub open spec fn busca_k_s<V, K>(l: Seq<V>, clave: spec_fn(V) -> K, k: K) -> Option<V>
    decreases l.len(),
{
    if l.len() == 0 {
        None
    } else if clave(l[0]) == k {
        Some(l[0])
    } else {
        busca_k_s(l.drop_first(), clave, k)
    }
}

/// Replacing the first entry that holds a key (by one with the same
/// key) changes exactly that key's lookup.
pub proof fn lema_k_actualiza<V, K>(l: Seq<V>, clave: spec_fn(V) -> K, i: int, v: V, k2: K)
    requires
        0 <= i < l.len(),
        clave(v) == clave(l[i]),
        forall|j: int| 0 <= j < i ==> clave(l[j]) != clave(l[i]),
    ensures
        busca_k_s(l.update(i, v), clave, k2) == if k2 == clave(l[i]) {
            Some(v)
        } else {
            busca_k_s(l, clave, k2)
        },
    decreases i,
{
    let lu = l.update(i, v);
    if i == 0 {
        assert(lu.drop_first() =~= l.drop_first());
    } else {
        assert(lu[0] == l[0]);
        assert(lu.drop_first() =~= l.drop_first().update(i - 1, v));
        assert(l.drop_first()[i - 1] == l[i]);
        lema_k_actualiza(l.drop_first(), clave, i - 1, v, k2);
    }
}

/// Appending an entry changes only the lookup of its key, and only if
/// that key was absent.
pub proof fn lema_k_agrega<V, K>(l: Seq<V>, clave: spec_fn(V) -> K, v: V, k2: K)
    ensures
        busca_k_s(l.push(v), clave, k2) == if busca_k_s(l, clave, k2) is Some {
            busca_k_s(l, clave, k2)
        } else if k2 == clave(v) {
            Some(v)
        } else {
            None::<V>
        },
    decreases l.len(),
{
    if l.len() == 0 {
        assert(l.push(v)[0] == v);
        assert(l.push(v).drop_first() =~= Seq::<V>::empty());
        assert(busca_k_s(Seq::<V>::empty(), clave, k2) is None);
    } else {
        assert(l.push(v)[0] == l[0]);
        assert(l.push(v).drop_first() =~= l.drop_first().push(v));
        lema_k_agrega(l.drop_first(), clave, v, k2);
    }
}

/// A key held by no entry reads as absent.
pub proof fn lema_k_ausente<V, K>(l: Seq<V>, clave: spec_fn(V) -> K, k: K)
    requires
        forall|j: int| 0 <= j < l.len() ==> clave(l[j]) != k,
    ensures
        busca_k_s(l, clave, k) is None,
    decreases l.len(),
{
    if l.len() > 0 {
        lema_k_ausente(l.drop_first(), clave, k);
    }
}

/// The first entry holding a key is what lookup under that key finds.
pub proof fn lema_k_en<V, K>(l: Seq<V>, clave: spec_fn(V) -> K, i: int)
    requires
        0 <= i < l.len(),
        forall|j: int| 0 <= j < i ==> clave(l[j]) != clave(l[i]),
    ensures
        busca_k_s(l, clave, clave(l[i])) == Some(l[i]),
    decreases i,
{
    if i > 0 {
        assert(l.drop_first()[i - 1] == l[i]);
        lema_k_en(l.drop_first(), clave, i - 1);
    }
}

/// An absent key is held by no entry.
pub proof fn lema_k_ninguno<V, K>(l: Seq<V>, clave: spec_fn(V) -> K, k: K)
    requires
        busca_k_s(l, clave, k) is None,
    ensures
        forall|j: int| 0 <= j < l.len() ==> clave(l[j]) != k,
    decreases l.len(),
{
    if l.len() > 0 {
        lema_k_ninguno(l.drop_first(), clave, k);
        assert forall|j: int| 0 <= j < l.len() implies clave(l[j]) != k by {
            if j > 0 {
                assert(l.drop_first()[j - 1] == l[j]);
            }
        }
    }
}

/// Removing the first entry that holds a key makes exactly that key
/// read as absent.
pub proof fn lema_k_quita<V, K>(l: Seq<V>, clave: spec_fn(V) -> K, i: int, k2: K)
    requires
        0 <= i < l.len(),
        forall|j: int| 0 <= j < i ==> clave(l[j]) != clave(l[i]),
    ensures
        busca_k_s(l.remove(i), clave, k2) == if k2 == clave(l[i]) {
            busca_k_s(l.subrange(i + 1, l.len() as int), clave, k2)
        } else {
            busca_k_s(l, clave, k2)
        },
    decreases i,
{
    let lr = l.remove(i);
    if i == 0 {
        assert(lr =~= l.drop_first());
        assert(l.subrange(1, l.len() as int) =~= l.drop_first());
    } else {
        assert(lr[0] == l[0]);
        assert(lr.drop_first() =~= l.drop_first().remove(i - 1));
        assert(l.drop_first()[i - 1] == l[i]);
        assert(l.drop_first().subrange(i, l.drop_first().len() as int) =~= l.subrange(
            i + 1,
            l.len() as int,
        ));
        lema_k_quita(l.drop_first(), clave, i - 1, k2);
    }
}


/// Removing an entry keeps the keys pairwise distinct.
pub proof fn lema_unicidad_quita<V, K>(l: Seq<V>, clave: spec_fn(V) -> K, i: int)
    requires
        0 <= i < l.len(),
        forall|a: int, b: int| 0 <= a < b < l.len() ==> clave(l[a]) != clave(l[b]),
    ensures
        forall|a: int, b: int|
            0 <= a < b < l.remove(i).len() ==> clave(l.remove(i)[a]) != clave(l.remove(i)[b]),
        l.remove(i).len() == l.len() - 1,
        forall|a: int| 0 <= a < i ==> #[trigger] l.remove(i)[a] == l[a],
        forall|a: int| i <= a < l.remove(i).len() ==> #[trigger] l.remove(i)[a] == l[a + 1],
{
    let lr = l.remove(i);
    assert forall|a: int, b: int|
        0 <= a < b < lr.len() implies clave(lr[a]) != clave(lr[b]) by {
        if a < i {
            assert(lr[a] == l[a]);
        } else {
            assert(lr[a] == l[a + 1]);
        }
        if b < i {
            assert(lr[b] == l[b]);
        } else {
            assert(lr[b] == l[b + 1]);
        }
    }
}

} // verus!
