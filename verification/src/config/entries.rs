use vstd::prelude::*;

verus! {

/// An `indexmap::IndexMap`, declared so that graft's tables can hold one.
#[verifier::external_type_specification]
#[verifier::external_body]
#[verifier::reject_recursive_types(K)]
#[verifier::reject_recursive_types(V)]
#[verifier::reject_recursive_types(S)]
pub struct ExIndexMap<K, V, S>(indexmap::IndexMap<K, V, S>);

/// No two entries share a key.
pub open spec fn keys_distinct<V>(s: Seq<(Seq<char>, V)>) -> bool {
    forall|i: int, j: int| 0 <= i < j < s.len() ==> s[i].0 != s[j].0
}

/// Some entry has the key.
pub open spec fn has_key<V>(s: Seq<(Seq<char>, V)>, k: Seq<char>) -> bool {
    exists|i: int| 0 <= i < s.len() && #[trigger] s[i].0 == k
}

/// The position of the entry with the key, where there is one.
pub open spec fn key_index<V>(s: Seq<(Seq<char>, V)>, k: Seq<char>) -> int {
    choose|i: int| 0 <= i < s.len() && #[trigger] s[i].0 == k
}

/// The value under a key.
pub open spec fn lookup<V>(s: Seq<(Seq<char>, V)>, k: Seq<char>) -> Option<V> {
    if has_key(s, k) {
        Some(s[key_index(s, k)].1)
    } else {
        None
    }
}

/// The entries after inserting a pair: an existing key keeps its place and takes
/// the new value; a new key goes last.
pub open spec fn insert_entry<V>(s: Seq<(Seq<char>, V)>, k: Seq<char>, v: V) -> Seq<(Seq<char>, V)> {
    if has_key(s, k) {
        s.update(key_index(s, k), (k, v))
    } else {
        s.push((k, v))
    }
}

/// The entries after removing a key, the others keeping their order.
pub open spec fn remove_entry<V>(s: Seq<(Seq<char>, V)>, k: Seq<char>) -> Seq<(Seq<char>, V)> {
    if has_key(s, k) {
        s.remove(key_index(s, k))
    } else {
        s
    }
}

/// In entries with distinct keys, the entry at `i` is the one found by its key.
pub proof fn lemma_key_index_unique<V>(s: Seq<(Seq<char>, V)>, i: int)
    requires
        keys_distinct(s),
        0 <= i < s.len(),
    ensures
        has_key(s, s[i].0),
        key_index(s, s[i].0) == i,
        lookup(s, s[i].0) == Some(s[i].1),
{
    assert(s[i].0 == s[i].0);
    let j = key_index(s, s[i].0);
    if j != i {
        if j < i {
            assert(s[j].0 != s[i].0);
        } else {
            assert(s[i].0 != s[j].0);
        }
    }
}

/// Inserting keeps keys distinct, and the key then maps to the new value.
pub proof fn lemma_insert_entry<V>(s: Seq<(Seq<char>, V)>, k: Seq<char>, v: V)
    requires
        keys_distinct(s),
    ensures
        keys_distinct(insert_entry(s, k, v)),
        lookup(insert_entry(s, k, v), k) == Some(v),
        forall|k2: Seq<char>| k2 != k ==> lookup(insert_entry(s, k, v), k2) == lookup(s, k2),
        forall|k2: Seq<char>| has_key(insert_entry(s, k, v), k2) <==> (has_key(s, k2) || k2 == k),
{
    let t = insert_entry(s, k, v);
    if has_key(s, k) {
        let i = key_index(s, k);
        assert forall|a: int, b: int| 0 <= a < b < t.len() implies t[a].0 != t[b].0 by {
            if a != i && b != i {
                assert(s[a].0 != s[b].0);
            } else if a == i {
                assert(s[a].0 != s[b].0);
            } else {
                assert(s[a].0 != s[b].0);
            }
        }
        assert(t[i].0 == k);
        lemma_key_index_unique(t, i);
        assert forall|k2: Seq<char>| k2 != k implies lookup(t, k2) == lookup(s, k2) by {
            if has_key(s, k2) {
                let j = key_index(s, k2);
                assert(t[j] == s[j]);
                lemma_key_index_unique(t, j);
            }
            if has_key(t, k2) {
                let j = key_index(t, k2);
                assert(t[j] == s[j]);
            }
        }
        assert forall|k2: Seq<char>| has_key(t, k2) <==> (has_key(s, k2) || k2 == k) by {
            if has_key(s, k2) {
                let j = key_index(s, k2);
                if j == i {
                    assert(t[i].0 == k2);
                } else {
                    assert(t[j] == s[j]);
                }
            }
            if has_key(t, k2) {
                let j = key_index(t, k2);
                if j != i {
                    assert(t[j] == s[j]);
                }
            }
        }
    } else {
        let n = s.len() as int;
        assert forall|a: int, b: int| 0 <= a < b < t.len() implies t[a].0 != t[b].0 by {
            if b == n {
                assert(t[a] == s[a]);
            }
        }
        assert(t[n].0 == k);
        lemma_key_index_unique(t, n);
        assert forall|k2: Seq<char>| k2 != k implies lookup(t, k2) == lookup(s, k2) by {
            if has_key(s, k2) {
                let j = key_index(s, k2);
                assert(t[j] == s[j]);
                lemma_key_index_unique(t, j);
            }
            if has_key(t, k2) {
                let j = key_index(t, k2);
                assert(t[j] == s[j]);
            }
        }
        assert forall|k2: Seq<char>| has_key(t, k2) <==> (has_key(s, k2) || k2 == k) by {
            if has_key(s, k2) {
                let j = key_index(s, k2);
                assert(t[j] == s[j]);
            }
            if has_key(t, k2) {
                let j = key_index(t, k2);
                if j != n {
                    assert(t[j] == s[j]);
                }
            }
        }
    }
}

/// Removing a key keeps keys distinct and leaves every other key as it was.
pub proof fn lemma_remove_entry<V>(s: Seq<(Seq<char>, V)>, k: Seq<char>)
    requires
        keys_distinct(s),
    ensures
        keys_distinct(remove_entry(s, k)),
        lookup(remove_entry(s, k), k) is None,
        forall|k2: Seq<char>| k2 != k ==> lookup(remove_entry(s, k), k2) == lookup(s, k2),
{
    let t = remove_entry(s, k);
    if has_key(s, k) {
        let i = key_index(s, k);
        assert forall|a: int, b: int| 0 <= a < b < t.len() implies t[a].0 != t[b].0 by {
            let a2 = if a < i { a } else { a + 1 };
            let b2 = if b < i { b } else { b + 1 };
            assert(t[a] == s[a2] && t[b] == s[b2]);
            assert(s[a2].0 != s[b2].0);
        }
        if has_key(t, k) {
            let j = key_index(t, k);
            let j2 = if j < i { j } else { j + 1 };
            assert(t[j] == s[j2]);
            assert(s[j2].0 != s[i].0);
        }
        assert forall|k2: Seq<char>| k2 != k implies lookup(t, k2) == lookup(s, k2) by {
            if has_key(s, k2) {
                let j = key_index(s, k2);
                assert(j != i);
                let j1 = if j < i { j } else { j - 1 };
                assert(t[j1] == s[j]);
                lemma_key_index_unique(t, j1);
            }
            if has_key(t, k2) {
                let j = key_index(t, k2);
                let j2 = if j < i { j } else { j + 1 };
                assert(t[j] == s[j2]);
                lemma_key_index_unique(s, j2);
            }
        }
    }
}

} // verus!
