//! A cache held as a list of entries with distinct keys, read as a map.
use vstd::prelude::*;

verus! {

/// No key occurs twice among the entries.
pub open spec fn keys_distinct<K, V>(entries: Seq<(K, V)>) -> bool {
    forall|i: int, j: int|
        0 <= i < entries.len() && 0 <= j < entries.len() && i != j ==> entries[i].0 != entries[j].0
}

/// The entries read as a map from key to value.
pub open spec fn cache_map<K, V>(entries: Seq<(K, V)>) -> Map<K, V> {
    Map::new(
        |k: K| exists|i: int| 0 <= i < entries.len() && entries[i].0 == k,
        |k: K| entries[choose|i: int| 0 <= i < entries.len() && entries[i].0 == k].1,
    )
}

/// With distinct keys, the map gives each entry's value under its key.
pub proof fn lemma_cache_lookup<K, V>(entries: Seq<(K, V)>, i: int)
    requires
        keys_distinct(entries),
        0 <= i < entries.len(),
    ensures
        cache_map(entries).contains_key(entries[i].0),
        cache_map(entries)[entries[i].0] == entries[i].1,
{
    let k = entries[i].0;
    assert(exists|j: int| 0 <= j < entries.len() && entries[j].0 == k);
    let j = choose|j: int| 0 <= j < entries.len() && entries[j].0 == k;
    assert(j == i);
}

/// Adding an entry under a new key adds it to the map.
pub proof fn lemma_cache_push<K, V>(entries: Seq<(K, V)>, k: K, v: V)
    requires
        keys_distinct(entries),
        !cache_map(entries).contains_key(k),
    ensures
        keys_distinct(entries.push((k, v))),
        cache_map(entries.push((k, v))) == cache_map(entries).insert(k, v),
{
    let e2 = entries.push((k, v));
    assert forall|i: int, j: int|
        0 <= i < e2.len() && 0 <= j < e2.len() && i != j implies e2[i].0 != e2[j].0 by {
        if i < entries.len() && j < entries.len() {
        } else if i < entries.len() {
            assert(entries[i].0 == e2[i].0);
        } else {
            assert(entries[j].0 == e2[j].0);
        }
    }
    assert forall|x: K| #[trigger] cache_map(e2).contains_key(x) <==> cache_map(entries).insert(
        k,
        v,
    ).contains_key(x) by {
        if cache_map(entries).contains_key(x) {
            let i = choose|i: int| 0 <= i < entries.len() && entries[i].0 == x;
            assert(e2[i].0 == x);
        }
        if x == k {
            assert(e2[entries.len() as int].0 == x);
        }
        if cache_map(e2).contains_key(x) && x != k {
            let i = choose|i: int| 0 <= i < e2.len() && e2[i].0 == x;
            assert(entries[i].0 == x);
        }
    }
    assert forall|x: K| #[trigger] cache_map(e2).contains_key(x) implies cache_map(e2)[x]
        == cache_map(entries).insert(k, v)[x] by {
        if x == k {
            lemma_cache_lookup(e2, entries.len() as int);
        } else {
            let i = choose|i: int| 0 <= i < e2.len() && e2[i].0 == x;
            lemma_cache_lookup(e2, i);
            lemma_cache_lookup(entries, i);
        }
    }
    assert(cache_map(e2) =~= cache_map(entries).insert(k, v));
}

/// Removing an entry removes its key from the map.
pub proof fn lemma_cache_remove<K, V>(entries: Seq<(K, V)>, i: int)
    requires
        keys_distinct(entries),
        0 <= i < entries.len(),
    ensures
        keys_distinct(entries.remove(i)),
        cache_map(entries.remove(i)) == cache_map(entries).remove(entries[i].0),
{
    let e2 = entries.remove(i);
    let k = entries[i].0;
    assert forall|a: int, b: int|
        0 <= a < e2.len() && 0 <= b < e2.len() && a != b implies e2[a].0 != e2[b].0 by {
        let a1 = if a < i {
            a
        } else {
            a + 1
        };
        let b1 = if b < i {
            b
        } else {
            b + 1
        };
        assert(e2[a] == entries[a1]);
        assert(e2[b] == entries[b1]);
    }
    assert forall|x: K| #[trigger] cache_map(e2).contains_key(x) <==> cache_map(entries).remove(
        k,
    ).contains_key(x) by {
        if cache_map(e2).contains_key(x) {
            let a = choose|a: int| 0 <= a < e2.len() && e2[a].0 == x;
            let a1 = if a < i {
                a
            } else {
                a + 1
            };
            assert(e2[a] == entries[a1]);
            assert(a1 != i);
        }
        if cache_map(entries).contains_key(x) && x != k {
            let a = choose|a: int| 0 <= a < entries.len() && entries[a].0 == x;
            assert(a != i);
            if a < i {
                assert(e2[a] == entries[a]);
            } else {
                assert(e2[a - 1] == entries[a]);
            }
        }
    }
    assert forall|x: K| #[trigger] cache_map(e2).contains_key(x) implies cache_map(e2)[x]
        == cache_map(entries).remove(k)[x] by {
        let a = choose|a: int| 0 <= a < e2.len() && e2[a].0 == x;
        let a1 = if a < i {
            a
        } else {
            a + 1
        };
        assert(e2[a] == entries[a1]);
        lemma_cache_lookup(e2, a);
        lemma_cache_lookup(entries, a1);
    }
    assert(cache_map(e2) =~= cache_map(entries).remove(k));
}

} // verus!
