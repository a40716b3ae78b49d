//! Lists of keyed entries in which no key occurs twice: the shape of every
//! cache and table of this library.

use vstd::prelude::*;

verus! {

/// Some entry of `s` has the key `k`.
pub open spec fn has_key<K, V>(s: Seq<(K, V)>, k: K) -> bool {
    exists|i: int| 0 <= i < s.len() && (#[trigger] s[i]).0 == k
}

/// The place of the entry with key `k`, where there is one.
pub open spec fn index_of<K, V>(s: Seq<(K, V)>, k: K) -> int {
    choose|i: int| 0 <= i < s.len() && (#[trigger] s[i]).0 == k
}

/// No key occurs twice.
pub open spec fn distinct_keys<K, V>(s: Seq<(K, V)>) -> bool {
    forall|i: int, j: int| 0 <= i < j < s.len() ==> (#[trigger] s[i]).0 != (#[trigger] s[j]).0
}

/// The value stored under `k`.
pub open spec fn value_of<K, V>(s: Seq<(K, V)>, k: K) -> Option<V> {
    if has_key(s, k) {
        Some(s[index_of(s, k)].1)
    } else {
        None
    }
}

/// `s` after the entry with key `k`, if any, became the most recently used.
pub open spec fn refreshed<K, V>(s: Seq<(K, V)>, k: K) -> Seq<(K, V)> {
    if has_key(s, k) {
        s.remove(index_of(s, k)).push(s[index_of(s, k)])
    } else {
        s
    }
}

/// `s` without the entry with key `k`.
pub open spec fn removed<K, V>(s: Seq<(K, V)>, k: K) -> Seq<(K, V)> {
    if has_key(s, k) {
        s.remove(index_of(s, k))
    } else {
        s
    }
}

/// A key that is present sits at exactly one place.
pub proof fn lemma_index_of<K, V>(s: Seq<(K, V)>, k: K, i: int)
    requires
        distinct_keys(s),
        0 <= i < s.len(),
        s[i].0 == k,
    ensures
        has_key(s, k),
        index_of(s, k) == i,
        value_of(s, k) == Some(s[i].1),
{
    let j = index_of(s, k);
    assert(0 <= j < s.len() && s[j].0 == k);
    if j < i {
        assert(s[j].0 != s[i].0);
    } else if i < j {
        assert(s[i].0 != s[j].0);
    }
}

/// Dropping a key keeps the other entries in their order and leaves no
/// entry for that key.
pub proof fn lemma_removed<K, V>(s: Seq<(K, V)>, k: K)
    requires
        distinct_keys(s),
    ensures
        distinct_keys(removed(s, k)),
        !has_key(removed(s, k), k),
        removed(s, k).len() <= s.len(),
        has_key(s, k) ==> removed(s, k).len() + 1 == s.len(),
        forall|q: K| q != k ==> has_key(removed(s, k), q) == has_key(s, q),
        forall|q: K| q != k ==> value_of(removed(s, k), q) == value_of(s, q),
{
    let r = removed(s, k);
    if has_key(s, k) {
        let i = index_of(s, k);
        assert(0 <= i < s.len() && s[i].0 == k);
        assert forall|a: int, b: int| 0 <= a < b < r.len() implies (#[trigger] r[a]).0 != (
        #[trigger] r[b]).0 by {
            let a2 = if a < i { a } else { a + 1 };
            let b2 = if b < i { b } else { b + 1 };
            assert(r[a] == s[a2] && r[b] == s[b2]);
            assert(s[a2].0 != s[b2].0);
        }
        if has_key(r, k) {
            let a = index_of(r, k);
            let a2 = if a < i { a } else { a + 1 };
            assert(r[a] == s[a2]);
            if a2 < i {
                assert(s[a2].0 != s[i].0);
            } else {
                assert(s[i].0 != s[a2].0);
            }
        }
        assert forall|q: K| q != k implies has_key(r, q) == has_key(s, q) && value_of(r, q)
            == value_of(s, q) by {
            if has_key(s, q) {
                let b = index_of(s, q);
                assert(0 <= b < s.len() && s[b].0 == q);
                let a = if b < i { b } else { b - 1 };
                assert(r[a] == s[b]);
                lemma_index_of(r, q, a);
            }
            if has_key(r, q) {
                let a = index_of(r, q);
                let b = if a < i { a } else { a + 1 };
                assert(r[a] == s[b]);
                lemma_index_of(s, q, b);
            }
        }
    }
}

/// Refreshing a key moves its entry to the end and keeps every stored value.
pub proof fn lemma_refreshed<K, V>(s: Seq<(K, V)>, k: K)
    requires
        distinct_keys(s),
    ensures
        distinct_keys(refreshed(s, k)),
        refreshed(s, k).len() == s.len(),
        has_key(s, k) ==> refreshed(s, k) == removed(s, k).push((k, value_of(s, k).unwrap())),
        removed(refreshed(s, k), k) == removed(s, k),
        forall|q: K| has_key(refreshed(s, k), q) == has_key(s, q),
        forall|q: K| value_of(refreshed(s, k), q) == value_of(s, q),
{
    if has_key(s, k) {
        let i = index_of(s, k);
        assert(0 <= i < s.len() && s[i].0 == k);
        let v = s[i].1;
        assert(s[i] == (k, v));
        lemma_pushed(removed(s, k), k, v, s);
        let t = removed(s, k).push((k, v));
        lemma_removed(s, k);
        lemma_index_of(t, k, t.len() - 1);
        assert(t.remove(t.len() - 1) =~= removed(s, k));
    } else {
        lemma_removed(s, k);
    }
}

/// Appending a fresh key keeps the keys distinct and makes it the last one.
pub proof fn lemma_pushed<K, V>(r: Seq<(K, V)>, k: K, v: V, s: Seq<(K, V)>)
    requires
        distinct_keys(s),
        r == removed(s, k),
    ensures
        distinct_keys(r.push((k, v))),
        has_key(r.push((k, v)), k),
        value_of(r.push((k, v)), k) == Some(v),
        forall|q: K| q != k ==> has_key(r.push((k, v)), q) == has_key(s, q),
        forall|q: K| q != k ==> value_of(r.push((k, v)), q) == value_of(s, q),
{
    lemma_removed(s, k);
    let t = r.push((k, v));
    assert forall|a: int, b: int| 0 <= a < b < t.len() implies (#[trigger] t[a]).0 != (
    #[trigger] t[b]).0 by {
        if b == r.len() {
            assert(t[a] == r[a]);
            if r[a].0 == k {
                assert(has_key(r, k));
            }
        } else {
            assert(t[a] == r[a] && t[b] == r[b]);
        }
    }
    lemma_index_of(t, k, r.len() as int);
    assert forall|q: K| q != k implies has_key(t, q) == has_key(s, q) && value_of(t, q)
        == value_of(s, q) by {
        if has_key(r, q) {
            let a = index_of(r, q);
            assert(t[a] == r[a]);
            lemma_index_of(t, q, a);
        }
        if has_key(t, q) {
            let a = index_of(t, q);
            assert(a < r.len());
            assert(t[a] == r[a]);
            lemma_index_of(r, q, a);
        }
    }
}

/// The entries as a map from key to value.
pub open spec fn to_map<K, V>(s: Seq<(K, V)>) -> Map<K, V> {
    Map::new(|k: K| has_key(s, k), |k: K| s[index_of(s, k)].1)
}

/// Storing a value under a key, in place of what was stored there, is an
/// insertion into the map.
pub proof fn lemma_to_map_put<K, V>(s: Seq<(K, V)>, k: K, v: V)
    requires
        distinct_keys(s),
    ensures
        distinct_keys(removed(s, k).push((k, v))),
        to_map(removed(s, k).push((k, v))) == to_map(s).insert(k, v),
{
    lemma_pushed(removed(s, k), k, v, s);
    let t = removed(s, k).push((k, v));
    assert forall|q: K| #[trigger]
        to_map(t).contains_key(q) == to_map(s).insert(k, v).contains_key(q) by {
        assert(to_map(t).contains_key(q) == has_key(t, q));
        assert(to_map(s).contains_key(q) == has_key(s, q));
    }
    assert forall|q: K| to_map(t).contains_key(q) implies #[trigger] to_map(t)[q] == to_map(
        s,
    ).insert(k, v)[q] by {
        assert(has_key(t, q));
        if q != k {
            assert(value_of(t, q) == value_of(s, q));
            assert(has_key(s, q));
        } else {
            assert(value_of(t, k) == Some(v));
        }
    }
    assert(to_map(t) =~= to_map(s).insert(k, v));
}

} // verus!
