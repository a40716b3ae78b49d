//! The bounded least-recently-used map of the `lru-cache` crate, as this
//! library sees it: a list of entries without repeated keys, least recently
//! used first, and the bound it was made with.

use crate::assoc::{
    distinct_keys, has_key, lemma_index_of, lemma_pushed, lemma_removed, refreshed, removed,
    value_of,
};
use ahash::RandomState;
use lru_cache::LruCache;
use vstd::prelude::*;

verus! {

/// `ahash::RandomState`, carried as it is; nothing is known of its inside.
#[verifier::external_type_specification]
#[verifier::external_body]
pub struct ExRandomState(RandomState);

/// `lru_cache::LruCache`, carried as it is; what it holds is known only
/// through `lru_entries` and `lru_capacity`.
#[verifier::external_type_specification]
#[verifier::external_body]
#[verifier::reject_recursive_types(K)]
#[verifier::reject_recursive_types(V)]
#[verifier::reject_recursive_types(S)]
pub struct ExLruCache<K: Eq + std::hash::Hash, V, S: std::hash::BuildHasher>(LruCache<K, V, S>);

/// One entry of an expiry cache: the key's text and the instant at which
/// the verdict stops being valid.
pub type Entry = (Seq<char>, u128);

/// The entries of the cache, least recently used first.
pub uninterp spec fn lru_entries(c: LruCache<String, u128, RandomState>) -> Seq<Entry>;

/// The number of entries the cache was made to hold.
pub uninterp spec fn lru_capacity(c: LruCache<String, u128, RandomState>) -> nat;

/// `s` after `k` was stored with value `v` as the most recently used entry
/// of a cache bounded by `capacity`: an earlier entry for `k` is replaced,
/// and the least recently used entry leaves when the bound is exceeded.
pub open spec fn inserted(s: Seq<Entry>, capacity: nat, k: Seq<char>, v: u128) -> Seq<Entry> {
    let t = removed(s, k).push((k, v));
    if t.len() > capacity {
        t.drop_first()
    } else {
        t
    }
}

/// `ahash::RandomState::new`: a hasher with keys of its own.
#[verifier::external_body]
pub(crate) fn new_hasher() -> RandomState {
    RandomState::new()
}

/// `LruCache::with_hasher`: an empty cache bounded by `capacity`.
#[verifier::external_body]
pub(crate) fn lru_new(capacity: usize, hasher: RandomState) -> (c: LruCache<
    String,
    u128,
    RandomState,
>)
    ensures
        lru_entries(c) == Seq::<Entry>::empty(),
        lru_capacity(c) == capacity as nat,
{
    LruCache::with_hasher(capacity, hasher)
}

/// `LruCache::get_mut`: hands out the value stored under `k` and makes that
/// entry the most recently used one; an absent key changes nothing.
#[verifier::external_body]
pub(crate) fn lru_get(c: &mut LruCache<String, u128, RandomState>, k: &str) -> (r: Option<u128>)
    ensures
        r == value_of(lru_entries(*old(c)), k@),
        lru_entries(*final(c)) == refreshed(lru_entries(*old(c)), k@),
        lru_capacity(*final(c)) == lru_capacity(*old(c)),
    no_unwind
{
    c.get_mut(k).copied()
}

/// `LruCache::insert`: stores `v` under `k` as the most recently used entry,
/// in place of an earlier entry for `k`; when the cache then holds more than
/// its bound, its least recently used entry is dropped.
#[verifier::external_body]
pub(crate) fn lru_insert(c: &mut LruCache<String, u128, RandomState>, k: String, v: u128)
    ensures
        lru_entries(*final(c)) == inserted(lru_entries(*old(c)), lru_capacity(*old(c)), k@, v),
        lru_capacity(*final(c)) == lru_capacity(*old(c)),
    no_unwind
{
    c.insert(k, v);
}

/// `LruCache::remove`: drops the entry stored under `k`, if there is one.
#[verifier::external_body]
pub(crate) fn lru_remove(c: &mut LruCache<String, u128, RandomState>, k: &str)
    ensures
        lru_entries(*final(c)) == removed(lru_entries(*old(c)), k@),
        lru_capacity(*final(c)) == lru_capacity(*old(c)),
    no_unwind
{
    c.remove(k);
}

/// `LruCache::clear`: drops every entry and keeps the bound.
#[verifier::external_body]
pub(crate) fn lru_clear(c: &mut LruCache<String, u128, RandomState>)
    ensures
        lru_entries(*final(c)) == Seq::<Entry>::empty(),
        lru_capacity(*final(c)) == lru_capacity(*old(c)),
    no_unwind
{
    c.clear();
}

/// What an insertion leaves: distinct keys within the bound, the new entry
/// last unless the bound is zero, and of the others only the least recently
/// used one may be gone.
pub proof fn lemma_inserted(s: Seq<Entry>, capacity: nat, k: Seq<char>, v: u128)
    requires
        distinct_keys(s),
        s.len() <= capacity,
    ensures
        distinct_keys(inserted(s, capacity, k, v)),
        inserted(s, capacity, k, v).len() <= capacity,
        capacity > 0 ==> value_of(inserted(s, capacity, k, v), k) == Some(v),
        capacity > 0 ==> inserted(s, capacity, k, v).last() == (k, v),
        has_key(s, k) || s.len() < capacity ==> inserted(s, capacity, k, v) == removed(s, k).push(
            (k, v),
        ),
        !has_key(s, k) && s.len() == capacity ==> inserted(s, capacity, k, v) == s.push(
            (k, v),
        ).drop_first(),
{
    lemma_removed(s, k);
    lemma_pushed(removed(s, k), k, v, s);
    let t = removed(s, k).push((k, v));
    let u = inserted(s, capacity, k, v);
    if t.len() > capacity {
        assert(!has_key(s, k));
        assert(u == t.drop_first());
        assert forall|a: int, b: int| 0 <= a < b < u.len() implies (#[trigger] u[a]).0 != (
        #[trigger] u[b]).0 by {
            assert(u[a] == t[a + 1] && u[b] == t[b + 1]);
        }
        if capacity > 0 {
            assert(u[u.len() - 1] == t[t.len() - 1]);
            lemma_index_of(u, k, u.len() - 1);
        }
    } else {
        lemma_index_of(t, k, t.len() - 1);
    }
}

} // verus!
