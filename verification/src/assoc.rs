//! Association lists: a sequence of key/value pairs in which no key occurs
//! twice, read as a finite map.

use vstd::prelude::*;

verus! {

/// No key occurs twice.
pub open spec fn keys_unique<K, V>(s: Seq<(K, V)>) -> bool {
    forall|i: int, j: int| 0 <= i < s.len() && 0 <= j < s.len() && i != j ==> s[i].0 != s[j].0
}

/// Whether `k` is the key of some pair of `s`.
pub open spec fn has_key<K, V>(s: Seq<(K, V)>, k: K) -> bool {
    exists|i: int| 0 <= i < s.len() && s[i].0 == k
}

/// The map that an association list stands for.
pub open spec fn assoc_map<K, V>(s: Seq<(K, V)>) -> Map<K, V> {
    Map::new(
        |k: K| has_key(s, k),
        |k: K| s[choose|i: int| 0 <= i < s.len() && s[i].0 == k].1,
    )
}

/// The value stored for the key at index `i`.
pub proof fn lemma_assoc_index<K, V>(s: Seq<(K, V)>, i: int)
    requires
        keys_unique(s),
        0 <= i < s.len(),
    ensures
        assoc_map(s).contains_key(s[i].0),
        assoc_map(s)[s[i].0] == s[i].1,
{
    let k = s[i].0;
    assert(has_key(s, k));
    let j = choose|j: int| 0 <= j < s.len() && s[j].0 == k;
    assert(j == i);
}

/// The map of an empty list is empty.
pub proof fn lemma_assoc_empty<K, V>()
    ensures
        assoc_map(Seq::<(K, V)>::empty()) == Map::<K, V>::empty(),
{
    assert(assoc_map(Seq::<(K, V)>::empty()) =~= Map::<K, V>::empty());
}

/// Appending a pair with a new key inserts it.
pub proof fn lemma_assoc_push<K, V>(s: Seq<(K, V)>, k: K, v: V)
    requires
        keys_unique(s),
        !has_key(s, k),
    ensures
        keys_unique(s.push((k, v))),
        assoc_map(s.push((k, v))) == assoc_map(s).insert(k, v),
{
    let t = s.push((k, v));
    assert forall|i: int, j: int| 0 <= i < t.len() && 0 <= j < t.len() && i != j implies t[i].0 != t[j].0 by {
        if i < s.len() && j < s.len() {
        } else if i == s.len() {
            assert(s[j].0 == t[j].0);
        } else {
            assert(s[i].0 == t[i].0);
        }
    }
    assert forall|key: K| #[trigger] assoc_map(t).contains_key(key) == assoc_map(s).insert(k, v).contains_key(key) by {
        if has_key(s, key) {
            let i = choose|i: int| 0 <= i < s.len() && s[i].0 == key;
            assert(t[i].0 == key);
        }
        if has_key(t, key) && key != k {
            let i = choose|i: int| 0 <= i < t.len() && t[i].0 == key;
            assert(s[i].0 == key);
        }
        if key == k {
            assert(t[s.len() as int].0 == k);
        }
    }
    assert forall|key: K| #[trigger] assoc_map(t).contains_key(key) implies assoc_map(t)[key] == assoc_map(s).insert(
        k,
        v,
    )[key] by {
        let i = choose|i: int| 0 <= i < t.len() && t[i].0 == key;
        lemma_assoc_index(t, i);
        if i < s.len() {
            lemma_assoc_index(s, i);
        }
    }
    assert(assoc_map(t) =~= assoc_map(s).insert(k, v));
}

/// Replacing the value of the pair at index `i` updates its key.
pub proof fn lemma_assoc_update<K, V>(s: Seq<(K, V)>, i: int, v: V)
    requires
        keys_unique(s),
        0 <= i < s.len(),
    ensures
        keys_unique(s.update(i, (s[i].0, v))),
        assoc_map(s.update(i, (s[i].0, v))) == assoc_map(s).insert(s[i].0, v),
{
    let k = s[i].0;
    let t = s.update(i, (k, v));
    assert forall|a: int, b: int| 0 <= a < t.len() && 0 <= b < t.len() && a != b implies t[a].0 != t[b].0 by {
        assert(t[a].0 == s[a].0);
        assert(t[b].0 == s[b].0);
    }
    assert forall|key: K| #[trigger] assoc_map(t).contains_key(key) == assoc_map(s).insert(k, v).contains_key(key) by {
        if has_key(s, key) {
            let j = choose|j: int| 0 <= j < s.len() && s[j].0 == key;
            assert(t[j].0 == key);
        }
        if has_key(t, key) {
            let j = choose|j: int| 0 <= j < t.len() && t[j].0 == key;
            assert(s[j].0 == key);
        }
        assert(s[i].0 == k);
    }
    assert forall|key: K| #[trigger] assoc_map(t).contains_key(key) implies assoc_map(t)[key] == assoc_map(s).insert(
        k,
        v,
    )[key] by {
        let j = choose|j: int| 0 <= j < t.len() && t[j].0 == key;
        lemma_assoc_index(t, j);
        lemma_assoc_index(s, j);
    }
    assert(assoc_map(t) =~= assoc_map(s).insert(k, v));
}

/// Removing the pair at index `i` removes its key.
pub proof fn lemma_assoc_remove<K, V>(s: Seq<(K, V)>, i: int)
    requires
        keys_unique(s),
        0 <= i < s.len(),
    ensures
        keys_unique(s.remove(i)),
        assoc_map(s.remove(i)) == assoc_map(s).remove(s[i].0),
{
    let k = s[i].0;
    let t = s.remove(i);
    assert forall|a: int, b: int| 0 <= a < t.len() && 0 <= b < t.len() && a != b implies t[a].0 != t[b].0 by {
        let a2 = if a < i {
            a
        } else {
            a + 1
        };
        let b2 = if b < i {
            b
        } else {
            b + 1
        };
        assert(t[a] == s[a2]);
        assert(t[b] == s[b2]);
    }
    assert forall|key: K| #[trigger] assoc_map(t).contains_key(key) == assoc_map(s).remove(k).contains_key(key) by {
        if has_key(s, key) && key != k {
            let j = choose|j: int| 0 <= j < s.len() && s[j].0 == key;
            assert(j != i);
            if j < i {
                assert(t[j] == s[j]);
            } else {
                assert(t[j - 1] == s[j]);
            }
        }
        if has_key(t, key) {
            let j = choose|j: int| 0 <= j < t.len() && t[j].0 == key;
            let j2 = if j < i {
                j
            } else {
                j + 1
            };
            assert(t[j] == s[j2]);
            assert(j2 != i);
        }
    }
    assert forall|key: K| #[trigger] assoc_map(t).contains_key(key) implies assoc_map(t)[key] == assoc_map(s).remove(
        k,
    )[key] by {
        let j = choose|j: int| 0 <= j < t.len() && t[j].0 == key;
        let j2 = if j < i {
            j
        } else {
            j + 1
        };
        assert(t[j] == s[j2]);
        lemma_assoc_index(t, j);
        lemma_assoc_index(s, j2);
    }
    assert(assoc_map(t) =~= assoc_map(s).remove(k));
}

/// Without the key of its last pair, a list's map is the map of its prefix.
pub proof fn lemma_assoc_prefix<K, V>(s: Seq<(K, V)>, n: int)
    requires
        keys_unique(s),
        0 <= n < s.len(),
    ensures
        keys_unique(s.take(n)),
        keys_unique(s.take(n + 1)),
        assoc_map(s.take(n + 1)) == assoc_map(s.take(n)).insert(s[n].0, s[n].1),
        !has_key(s.take(n), s[n].0),
{
    let p = s.take(n);
    assert(s.take(n + 1) =~= p.push(s[n]));
    assert forall|a: int, b: int| 0 <= a < p.len() && 0 <= b < p.len() && a != b implies p[a].0 != p[b].0 by {
        assert(p[a] == s[a]);
        assert(p[b] == s[b]);
    }
    if has_key(p, s[n].0) {
        let j = choose|j: int| 0 <= j < p.len() && p[j].0 == s[n].0;
        assert(p[j] == s[j]);
    }
    lemma_assoc_push(p, s[n].0, s[n].1);
}

/// The map of a list is finite.
pub proof fn lemma_assoc_finite<K, V>(s: Seq<(K, V)>)
    ensures
        assoc_map(s).dom().finite(),
    decreases s.len(),
{
    if s.len() == 0 {
        assert(assoc_map(s).dom() =~= Set::<K>::empty());
    } else {
        let p = s.drop_last();
        lemma_assoc_finite(p);
        let last = s.last().0;
        assert(assoc_map(s).dom().subset_of(assoc_map(p).dom().insert(last))) by {
            assert forall|k: K| assoc_map(s).dom().contains(k) implies assoc_map(p).dom().insert(last).contains(k) by {
                let j = choose|j: int| 0 <= j < s.len() && s[j].0 == k;
                if j < s.len() - 1 {
                    assert(p[j] == s[j]);
                }
            }
        }
        vstd::set_lib::lemma_set_subset_finite(assoc_map(p).dom().insert(last), assoc_map(s).dom());
    }
}

} // verus!
