//! Vectors of records with distinct keys, read as maps from key to record.
use vstd::prelude::*;

verus! {

/// The map from each record's key to the record (a later record with the
/// same key would replace an earlier one).
pub open spec fn keyed_map<K, V>(s: Seq<V>, key: spec_fn(V) -> K) -> Map<K, V>
    decreases s.len(),
{
    if s.len() == 0 {
        Map::empty()
    } else {
        keyed_map(s.drop_last(), key).insert(key(s.last()), s.last())
    }
}

/// No two records share a key.
pub open spec fn keys_distinct<K, V>(s: Seq<V>, key: spec_fn(V) -> K) -> bool {
    forall|i: int, j: int| 0 <= i < j < s.len() ==> key(s[i]) != key(s[j])
}

/// The map holds exactly the keys of the records.
pub proof fn lemma_keyed_map_dom<K, V>(s: Seq<V>, key: spec_fn(V) -> K, k: K)
    ensures
        keyed_map(s, key).contains_key(k) <==> exists|i: int| 0 <= i < s.len() && key(s[i]) == k,
    decreases s.len(),
{
    if s.len() > 0 {
        lemma_keyed_map_dom(s.drop_last(), key, k);
        if exists|i: int| 0 <= i < s.len() && key(s[i]) == k {
            let i = choose|i: int| 0 <= i < s.len() && key(s[i]) == k;
            if i < s.len() - 1 {
                assert(s.drop_last()[i] == s[i]);
            }
        }
        if exists|i: int| 0 <= i < s.drop_last().len() && key(s.drop_last()[i]) == k {
            let i = choose|i: int| 0 <= i < s.drop_last().len() && key(s.drop_last()[i]) == k;
            assert(s[i] == s.drop_last()[i]);
        }
    }
}

/// With distinct keys, the record of a key is the one carrying it.
pub proof fn lemma_keyed_map_index<K, V>(s: Seq<V>, key: spec_fn(V) -> K, i: int)
    requires
        keys_distinct(s, key),
        0 <= i < s.len(),
    ensures
        keyed_map(s, key).contains_key(key(s[i])),
        keyed_map(s, key)[key(s[i])] == s[i],
    decreases s.len(),
{
    if i < s.len() - 1 {
        let t = s.drop_last();
        assert(keys_distinct(t, key)) by {
            assert forall|a: int, b: int| 0 <= a < b < t.len() implies key(t[a]) != key(t[b]) by {
                assert(t[a] == s[a] && t[b] == s[b]);
            }
        }
        assert(t[i] == s[i]);
        lemma_keyed_map_index(t, key, i);
        assert(key(s.last()) != key(s[i]));
    }
}

/// A key that no record carries is absent.
pub proof fn lemma_keyed_map_absent<K, V>(s: Seq<V>, key: spec_fn(V) -> K, k: K)
    requires
        forall|i: int| 0 <= i < s.len() ==> key(s[i]) != k,
    ensures
        !keyed_map(s, key).contains_key(k),
{
    lemma_keyed_map_dom(s, key, k);
}

/// Appending a record with a new key keeps the keys distinct.
pub proof fn lemma_keys_distinct_push<K, V>(s: Seq<V>, key: spec_fn(V) -> K, v: V)
    requires
        keys_distinct(s, key),
        !keyed_map(s, key).contains_key(key(v)),
    ensures
        keys_distinct(s.push(v), key),
{
    lemma_keyed_map_dom(s, key, key(v));
    assert forall|a: int, b: int| 0 <= a < b < s.push(v).len() implies key(s.push(v)[a]) != key(
        s.push(v)[b],
    ) by {
        assert(s.push(v)[a] == s[a]);
        if b < s.len() {
            assert(s.push(v)[b] == s[b]);
        }
    }
}

/// Replacing a record by one with the same key replaces it in the map.
pub proof fn lemma_keyed_map_update<K, V>(s: Seq<V>, key: spec_fn(V) -> K, i: int, v: V)
    requires
        keys_distinct(s, key),
        0 <= i < s.len(),
        key(v) == key(s[i]),
    ensures
        keys_distinct(s.update(i, v), key),
        keyed_map(s.update(i, v), key) == keyed_map(s, key).insert(key(v), v),
    decreases s.len(),
{
    let u = s.update(i, v);
    assert forall|a: int, b: int| 0 <= a < b < u.len() implies key(u[a]) != key(u[b]) by {}
    if i == s.len() - 1 {
        assert(u.drop_last() =~= s.drop_last());
        assert(keyed_map(u, key) =~= keyed_map(s, key).insert(key(v), v)) by {
            lemma_keyed_map_dom(s.drop_last(), key, key(v));
            assert forall|j: int| 0 <= j < s.drop_last().len() implies key(s.drop_last()[j]) != key(v) by {
                assert(s.drop_last()[j] == s[j]);
            }
        }
    } else {
        let t = s.drop_last();
        assert(keys_distinct(t, key)) by {
            assert forall|a: int, b: int| 0 <= a < b < t.len() implies key(t[a]) != key(t[b]) by {
                assert(t[a] == s[a] && t[b] == s[b]);
            }
        }
        assert(t[i] == s[i]);
        lemma_keyed_map_update(t, key, i, v);
        assert(u.drop_last() =~= t.update(i, v));
        assert(key(s.last()) != key(v));
        assert(keyed_map(u, key) =~= keyed_map(s, key).insert(key(v), v));
    }
}

/// Removing a record removes its key from the map.
pub proof fn lemma_keyed_map_remove<K, V>(s: Seq<V>, key: spec_fn(V) -> K, i: int)
    requires
        keys_distinct(s, key),
        0 <= i < s.len(),
    ensures
        keys_distinct(s.remove(i), key),
        keyed_map(s.remove(i), key) == keyed_map(s, key).remove(key(s[i])),
    decreases s.len(),
{
    let r = s.remove(i);
    assert forall|a: int, b: int| 0 <= a < b < r.len() implies key(r[a]) != key(r[b]) by {
        let a2 = if a < i { a } else { a + 1 };
        let b2 = if b < i { b } else { b + 1 };
        assert(r[a] == s[a2] && r[b] == s[b2]);
    }
    let t = s.drop_last();
    assert(keys_distinct(t, key)) by {
        assert forall|a: int, b: int| 0 <= a < b < t.len() implies key(t[a]) != key(t[b]) by {
            assert(t[a] == s[a] && t[b] == s[b]);
        }
    }
    if i == s.len() - 1 {
        assert(r =~= t);
        lemma_keyed_map_dom(t, key, key(s[i]));
        assert forall|j: int| 0 <= j < t.len() implies key(t[j]) != key(s[i]) by {
            assert(t[j] == s[j]);
        }
        assert(keyed_map(r, key) =~= keyed_map(s, key).remove(key(s[i])));
    } else {
        assert(t[i] == s[i]);
        lemma_keyed_map_remove(t, key, i);
        assert(r.drop_last() =~= t.remove(i));
        assert(r.last() == s.last());
        assert(key(s.last()) != key(s[i]));
        assert(keyed_map(r, key) =~= keyed_map(s, key).remove(key(s[i])));
    }
}

/// With distinct keys, the map has one entry per element.
pub proof fn lemma_keyed_map_len<K, V>(s: Seq<V>, key: spec_fn(V) -> K)
    requires
        keys_distinct(s, key),
    ensures
        keyed_map(s, key).dom().finite(),
        keyed_map(s, key).dom().len() == s.len(),
    decreases s.len(),
{
    if s.len() > 0 {
        let t = s.drop_last();
        assert(keys_distinct(t, key)) by {
            assert forall|a: int, b: int| 0 <= a < b < t.len() implies key(t[a]) != key(t[b]) by {
                assert(t[a] == s[a] && t[b] == s[b]);
            }
        }
        lemma_keyed_map_len(t, key);
        lemma_keyed_map_dom(t, key, key(s.last()));
        assert forall|j: int| 0 <= j < t.len() implies key(t[j]) != key(s.last()) by {
            assert(t[j] == s[j]);
        }
    }
}

/// Keeping only some records keeps the keys distinct.
pub proof fn lemma_filter_keys_distinct<K, V>(s: Seq<V>, key: spec_fn(V) -> K, pred: spec_fn(V) -> bool)
    requires
        keys_distinct(s, key),
    ensures
        keys_distinct(s.filter(pred), key),
        keyed_map(s.filter(pred), key) == keyed_map(s, key).restrict(
            keyed_map(s, key).dom().filter(|k: K| pred(keyed_map(s, key)[k])),
        ),
    decreases s.len(),
{
    reveal_with_fuel(Seq::filter, 1);
    let m = keyed_map(s, key);
    if s.len() == 0 {
        assert(keyed_map(s.filter(pred), key) =~= m.restrict(m.dom().filter(|k: K| pred(m[k]))));
    } else {
        let t = s.drop_last();
        let x = s.last();
        assert(keys_distinct(t, key)) by {
            assert forall|a: int, b: int| 0 <= a < b < t.len() implies key(t[a]) != key(t[b]) by {
                assert(t[a] == s[a] && t[b] == s[b]);
            }
        }
        lemma_filter_keys_distinct(t, key, pred);
        let mt = keyed_map(t, key);
        assert forall|j: int| 0 <= j < t.len() implies key(t[j]) != key(x) by {
            assert(t[j] == s[j]);
        }
        lemma_keyed_map_absent(t, key, key(x));
        let f = t.filter(pred);
        assert forall|j: int| 0 <= j < f.len() implies key(f[j]) != key(x) by {
            assert(f.contains(f[j]));
            t.lemma_filter_contains_rev(pred, f[j]);
            let i = choose|i: int| 0 <= i < t.len() && t[i] == f[j];
        }
        if pred(x) {
            lemma_keyed_map_absent(f, key, key(x));
            lemma_keys_distinct_push(f, key, x);
            assert(s.filter(pred) == f.push(x));
            assert(keyed_map(f.push(x), key) == keyed_map(f, key).insert(key(x), x)) by {
                assert(f.push(x).drop_last() =~= f);
            }
        } else {
            assert(s.filter(pred) == f);
        }
        assert(keyed_map(s.filter(pred), key) =~= m.restrict(m.dom().filter(|k: K| pred(m[k]))));
    }
}

} // verus!
