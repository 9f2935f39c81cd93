//! Association lists.
//!
//! The JSON object model, the category mapping and the store's catalog table
//! are ordered lists of key/value pairs where a later binding of a key
//! replaces the earlier value in place. These spec functions and lemmas
//! define lookup and update once for any key and value type.

use vstd::prelude::*;

verus! {

/// The value bound to `key`: the first binding wins.
pub open spec fn assoc_lookup<K, V>(l: Seq<(K, V)>, key: K) -> Option<V>
    decreases l.len(),
{
    if l.len() == 0 {
        None
    } else if l[0].0 == key {
        Some(l[0].1)
    } else {
        assoc_lookup(l.drop_first(), key)
    }
}

/// The list with `key` bound to `val`: the first binding of `key` is
/// replaced in place, or the binding is appended when `key` is absent.
pub open spec fn assoc_set<K, V>(l: Seq<(K, V)>, key: K, val: V) -> Seq<(K, V)>
    decreases l.len(),
{
    if l.len() == 0 {
        seq![(key, val)]
    } else if l[0].0 == key {
        seq![(key, val)] + l.drop_first()
    } else {
        seq![l[0]] + assoc_set(l.drop_first(), key, val)
    }
}

pub proof fn lemma_assoc_set_found<K, V>(l: Seq<(K, V)>, key: K, val: V, m: int)
    requires
        0 <= m < l.len(),
        l[m].0 == key,
        forall|j: int| 0 <= j < m ==> l[j].0 != key,
    ensures
        assoc_set(l, key, val) =~= l.update(m, (key, val)),
    decreases m,
{
    if m == 0 {
    } else {
        lemma_assoc_set_found(l.drop_first(), key, val, m - 1);
        assert(l.drop_first().update(m - 1, (key, val)) =~= l.update(m, (key, val)).drop_first());
    }
}

pub proof fn lemma_assoc_set_absent<K, V>(l: Seq<(K, V)>, key: K, val: V)
    requires
        forall|j: int| 0 <= j < l.len() ==> l[j].0 != key,
    ensures
        assoc_set(l, key, val) =~= l.push((key, val)),
    decreases l.len(),
{
    if l.len() == 0 {
    } else {
        lemma_assoc_set_absent(l.drop_first(), key, val);
        assert(l.drop_first().push((key, val)) =~= l.push((key, val)).drop_first());
    }
}

pub proof fn lemma_assoc_lookup_found<K, V>(l: Seq<(K, V)>, key: K, m: int)
    requires
        0 <= m < l.len(),
        l[m].0 == key,
        forall|j: int| 0 <= j < m ==> l[j].0 != key,
    ensures
        assoc_lookup(l, key) == Some(l[m].1),
    decreases m,
{
    if m == 0 {
    } else {
        lemma_assoc_lookup_found(l.drop_first(), key, m - 1);
    }
}

pub proof fn lemma_assoc_lookup_absent<K, V>(l: Seq<(K, V)>, key: K)
    requires
        forall|j: int| 0 <= j < l.len() ==> l[j].0 != key,
    ensures
        assoc_lookup(l, key) is None,
    decreases l.len(),
{
    if l.len() == 0 {
    } else {
        lemma_assoc_lookup_absent(l.drop_first(), key);
    }
}

/// Looking a key up right after setting it yields the new value.
pub proof fn lemma_assoc_set_same<K, V>(l: Seq<(K, V)>, key: K, val: V)
    ensures
        assoc_lookup(assoc_set(l, key, val), key) == Some(val),
    decreases l.len(),
{
    if l.len() == 0 {
        assert(assoc_set(l, key, val) =~= seq![(key, val)]);
    } else if l[0].0 == key {
    } else {
        lemma_assoc_set_same(l.drop_first(), key, val);
        assert((seq![l[0]] + assoc_set(l.drop_first(), key, val)).drop_first() =~= assoc_set(
            l.drop_first(),
            key,
            val,
        ));
    }
}

/// Setting one key leaves every other key's binding unchanged.
pub proof fn lemma_assoc_set_other<K, V>(l: Seq<(K, V)>, key: K, val: V, other: K)
    requires
        other != key,
    ensures
        assoc_lookup(assoc_set(l, key, val), other) == assoc_lookup(l, other),
    decreases l.len(),
{
    if l.len() == 0 {
        assert(assoc_set(l, key, val) =~= seq![(key, val)]);
        assert(assoc_lookup(seq![(key, val)], other) == assoc_lookup(
            seq![(key, val)].drop_first(),
            other,
        ));
        assert(seq![(key, val)].drop_first() =~= Seq::<(K, V)>::empty());
    } else if l[0].0 == key {
        assert((seq![(key, val)] + l.drop_first()).drop_first() =~= l.drop_first());
    } else {
        lemma_assoc_set_other(l.drop_first(), key, val, other);
        assert((seq![l[0]] + assoc_set(l.drop_first(), key, val)).drop_first() =~= assoc_set(
            l.drop_first(),
            key,
            val,
        ));
    }
}

} // verus!
