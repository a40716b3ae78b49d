//! The TTL lookup cache: a bounded cache of existence verdicts, with one
//! least-recently-used structure for positive and one for negative verdicts,
//! each entry stamped with the instant at which it expires.
//!
//! Instants and durations are whole nanoseconds; the instants that the cache
//! reads itself count from the moment the cache was made.

use crate::assoc::{
    distinct_keys, has_key, index_of, lemma_refreshed, lemma_removed, refreshed, removed, value_of,
};
use crate::clock::{clock_elapsed, clock_start};
use crate::lru::{
    inserted, lemma_inserted, lru_capacity, lru_clear, lru_entries, lru_get, lru_insert, lru_new,
    lru_remove, new_hasher, Entry,
};
use ahash::RandomState;
use lru_cache::LruCache;
use std::time::Instant;
use vstd::prelude::*;

verus! {

/// Positive verdicts live for a day unless configured otherwise.
pub const DEFAULT_TTL_POSITIVE: u128 = 86_400_000_000_000;

/// Negative verdicts live for an hour unless configured otherwise.
pub const DEFAULT_TTL_NEGATIVE: u128 = 3_600_000_000_000;

/// The instant at which a verdict recorded at `now` with lifetime `ttl`
/// expires. An expiry beyond the last instant is that last instant: such a
/// verdict never expires.
pub open spec fn expiry(now: u128, ttl: u128) -> u128 {
    if now + ttl > u128::MAX {
        u128::MAX
    } else {
        (now + ttl) as u128
    }
}

/// `s` after a lookup of `k` at `now`: a live entry becomes the most
/// recently used one, an expired entry is dropped.
pub open spec fn probed(s: Seq<Entry>, k: Seq<char>, now: u128) -> Seq<Entry> {
    match value_of(s, k) {
        Some(valid_until) => if valid_until >= now {
            refreshed(s, k)
        } else {
            removed(s, k)
        },
        None => s,
    }
}

/// `s` holds an entry for `k` that has not expired at `now`.
pub open spec fn live(s: Seq<Entry>, k: Seq<char>, now: u128) -> bool {
    match value_of(s, k) {
        Some(valid_until) => valid_until >= now,
        None => false,
    }
}

/// What a lookup cache holds.
pub struct CacheState {
    /// Positive verdicts, least recently used first.
    pub pos: Seq<Entry>,
    /// Negative verdicts, least recently used first.
    pub neg: Seq<Entry>,
    /// The bound on each of the two structures.
    pub capacity: nat,
    /// Lifetime of a positive verdict.
    pub ttl_pos: u128,
    /// Lifetime of a negative verdict.
    pub ttl_neg: u128,
}

impl CacheState {
    /// Neither structure repeats a key or exceeds the bound.
    pub open spec fn wf(self) -> bool {
        &&& distinct_keys(self.pos)
        &&& distinct_keys(self.neg)
        &&& self.pos.len() <= self.capacity
        &&& self.neg.len() <= self.capacity
    }

    /// The cache as it is made: empty.
    pub open spec fn empty(capacity: nat, ttl_pos: u128, ttl_neg: u128) -> CacheState {
        CacheState { pos: Seq::empty(), neg: Seq::empty(), capacity, ttl_pos, ttl_neg }
    }

    /// The answer to a lookup of `k` at `now`. Positive verdicts are asked
    /// first: a live positive verdict hides any negative one.
    pub open spec fn verdict(self, k: Seq<char>, now: u128) -> Option<bool> {
        if live(self.pos, k, now) {
            Some(true)
        } else if live(self.neg, k, now) {
            Some(false)
        } else {
            None
        }
    }

    /// The cache after a lookup of `k` at `now`. The negative structure is
    /// only touched when the positive one gave no live verdict.
    pub open spec fn after_get(self, k: Seq<char>, now: u128) -> CacheState {
        CacheState {
            pos: probed(self.pos, k, now),
            neg: if live(self.pos, k, now) {
                self.neg
            } else {
                probed(self.neg, k, now)
            },
            ..self
        }
    }

    /// The cache after a positive verdict for `k` was recorded at `now`.
    pub open spec fn after_insert_pos(self, k: Seq<char>, now: u128) -> CacheState {
        CacheState {
            pos: inserted(self.pos, self.capacity, k, expiry(now, self.ttl_pos)),
            ..self
        }
    }

    /// The cache after a negative verdict for `k` was recorded at `now`.
    pub open spec fn after_insert_neg(self, k: Seq<char>, now: u128) -> CacheState {
        CacheState {
            neg: inserted(self.neg, self.capacity, k, expiry(now, self.ttl_neg)),
            ..self
        }
    }

    /// The cache after a verdict for `k` was recorded at `now`.
    pub open spec fn after_set(self, k: Seq<char>, exists: bool, now: u128) -> CacheState {
        if exists {
            self.after_insert_pos(k, now)
        } else {
            self.after_insert_neg(k, now)
        }
    }

    /// The cache after positive verdicts for `keys` were recorded one after
    /// the other, the verdict for `keys[i]` at the instant `times[i]`.
    pub open spec fn after_inserts_pos(self, keys: Seq<Seq<char>>, times: Seq<u128>) -> CacheState
        decreases keys.len(),
    {
        if keys.len() == 0 || times.len() != keys.len() {
            self
        } else {
            self.after_inserts_pos(keys.drop_last(), times.drop_last()).after_insert_pos(
                keys.last(),
                times.last(),
            )
        }
    }

    /// The cache after it was emptied.
    pub open spec fn cleared(self) -> CacheState {
        CacheState { pos: Seq::empty(), neg: Seq::empty(), ..self }
    }
}

/// A bounded cache from a name to the verdict of an existence check.
#[derive(Debug)]
pub struct LookupCache {
    cache_pos: LruCache<String, u128, RandomState>,
    cache_neg: LruCache<String, u128, RandomState>,
    ttl_pos: u128,
    ttl_neg: u128,
    origin: Instant,
}

impl View for LookupCache {
    type V = CacheState;

    closed spec fn view(&self) -> CacheState {
        CacheState {
            pos: lru_entries(self.cache_pos),
            neg: lru_entries(self.cache_neg),
            capacity: lru_capacity(self.cache_pos),
            ttl_pos: self.ttl_pos,
            ttl_neg: self.ttl_neg,
        }
    }
}

impl LookupCache {
    #[verifier::type_invariant]
    spec fn inv(&self) -> bool {
        &&& self@.wf()
        &&& lru_capacity(self.cache_neg) == lru_capacity(self.cache_pos)
    }

    /// An empty cache whose two structures hold up to `capacity` entries
    /// each, with the given lifetimes for positive and negative verdicts.
    pub fn new(capacity: usize, ttl_pos: u128, ttl_neg: u128) -> (cache: Self)
        ensures
            cache@ == CacheState::empty(capacity as nat, ttl_pos, ttl_neg),
            cache@.wf(),
    {
        LookupCache {
            cache_pos: lru_new(capacity, new_hasher()),
            cache_neg: lru_new(capacity, new_hasher()),
            ttl_pos,
            ttl_neg,
            origin: clock_start(),
        }
    }

    /// The nanoseconds that have passed since the cache was made: the
    /// instant that `get`, `insert_pos` and `insert_neg` work with.
    pub fn now(&self) -> u128 {
        clock_elapsed(&self.origin)
    }

    /// Looks `name` up at the instant `now`.
    pub fn get_at(&mut self, name: &str, now: u128) -> (verdict: Option<bool>)
        ensures
            verdict == old(self)@.verdict(name@, now),
            final(self)@ == old(self)@.after_get(name@, now),
            old(self)@.wf() && final(self)@.wf(),
    {
        proof {
            use_type_invariant(&*self);
            lemma_refreshed(self@.pos, name@);
            lemma_removed(self@.pos, name@);
            lemma_refreshed(self@.neg, name@);
            lemma_removed(self@.neg, name@);
        }
        if let Some(valid_until) = lru_get(&mut self.cache_pos, name) {
            if valid_until >= now {
                return Some(true);
            } else {
                lru_remove(&mut self.cache_pos, name);
            }
        }
        match lru_get(&mut self.cache_neg, name) {
            Some(valid_until) => {
                if valid_until >= now {
                    Some(false)
                } else {
                    lru_remove(&mut self.cache_neg, name);
                    None
                }
            },
            None => None,
        }
    }

    /// Records at the instant `now` that `item` exists.
    pub fn insert_pos_at(&mut self, item: String, now: u128)
        ensures
            final(self)@ == old(self)@.after_insert_pos(item@, now),
            old(self)@.wf() && final(self)@.wf(),
    {
        proof {
            use_type_invariant(&*self);
            lemma_inserted(self@.pos, self@.capacity, item@, expiry(now, self.ttl_pos));
        }
        let valid_until = now.saturating_add(self.ttl_pos);
        lru_insert(&mut self.cache_pos, item, valid_until);
    }

    /// Records at the instant `now` that `item` does not exist.
    pub fn insert_neg_at(&mut self, item: String, now: u128)
        ensures
            final(self)@ == old(self)@.after_insert_neg(item@, now),
            old(self)@.wf() && final(self)@.wf(),
    {
        proof {
            use_type_invariant(&*self);
            lemma_inserted(self@.neg, self@.capacity, item@, expiry(now, self.ttl_neg));
        }
        let valid_until = now.saturating_add(self.ttl_neg);
        lru_insert(&mut self.cache_neg, item, valid_until);
    }

    /// Records at the instant `now` whether `item` exists.
    pub fn set_at(&mut self, item: String, exists: bool, now: u128)
        ensures
            final(self)@ == old(self)@.after_set(item@, exists, now),
            old(self)@.wf() && final(self)@.wf(),
    {
        if exists {
            self.insert_pos_at(item, now);
        } else {
            self.insert_neg_at(item, now);
        }
    }

    /// Looks `name` up at the present instant.
    pub fn get(&mut self, name: &str) -> (verdict: Option<bool>)
        ensures
            exists|now: u128|
                verdict == old(self)@.verdict(name@, now) && final(self)@ == old(self)@.after_get(
                    name@,
                    now,
                ),
            old(self)@.wf() && final(self)@.wf(),
    {
        let now = self.now();
        self.get_at(name, now)
    }

    /// Records that `item` exists, as of the present instant.
    pub fn insert_pos(&mut self, item: String)
        ensures
            exists|now: u128| final(self)@ == old(self)@.after_insert_pos(item@, now),
            old(self)@.wf() && final(self)@.wf(),
    {
        let now = self.now();
        self.insert_pos_at(item, now)
    }

    /// Records that `item` does not exist, as of the present instant.
    pub fn insert_neg(&mut self, item: String)
        ensures
            exists|now: u128| final(self)@ == old(self)@.after_insert_neg(item@, now),
            old(self)@.wf() && final(self)@.wf(),
    {
        let now = self.now();
        self.insert_neg_at(item, now)
    }

    /// Records whether `item` exists, as of the present instant.
    pub fn set(&mut self, item: String, exists: bool)
        ensures
            exists|now: u128| final(self)@ == #[trigger] old(self)@.after_set(item@, exists, now),
            old(self)@.wf() && final(self)@.wf(),
    {
        let now = self.now();
        self.set_at(item, exists, now);
        assert(self@ == old(self)@.after_set(item@, exists, now));
    }

    /// Empties both structures.
    pub fn clear(&mut self)
        ensures
            final(self)@ == old(self)@.cleared(),
            old(self)@.wf() && final(self)@.wf(),
    {
        proof {
            use_type_invariant(&*self);
        }
        lru_clear(&mut self.cache_pos);
        lru_clear(&mut self.cache_neg);
    }
}

/// The directory's caches: one lookup cache for domains and one for
/// recipient addresses.
#[derive(Debug)]
pub struct CachedDirectory {
    cached_domains: LookupCache,
    cached_rcpts: LookupCache,
}

impl CachedDirectory {
    /// What the domain cache holds.
    pub closed spec fn domains(&self) -> CacheState {
        self.cached_domains@
    }

    /// What the recipient cache holds.
    pub closed spec fn rcpts(&self) -> CacheState {
        self.cached_rcpts@
    }

    /// The caches that the configuration asks for. Without a number of
    /// entries there is no caching; a lifetime that is not configured takes
    /// its default.
    pub fn try_from_config(
        cache_entries: Option<usize>,
        cache_ttl_positive: Option<u128>,
        cache_ttl_negative: Option<u128>,
    ) -> (directory: Option<Self>)
        ensures
            cache_entries is None <==> directory is None,
            directory matches Some(d) ==> {
                let fresh = CacheState::empty(
                    cache_entries.unwrap() as nat,
                    cache_ttl_positive.unwrap_or(DEFAULT_TTL_POSITIVE),
                    cache_ttl_negative.unwrap_or(DEFAULT_TTL_NEGATIVE),
                );
                d.domains() == fresh && d.rcpts() == fresh
            },
    {
        match cache_entries {
            Some(entries) => {
                let ttl_positive = match cache_ttl_positive {
                    Some(ttl) => ttl,
                    None => DEFAULT_TTL_POSITIVE,
                };
                let ttl_negative = match cache_ttl_negative {
                    Some(ttl) => ttl,
                    None => DEFAULT_TTL_NEGATIVE,
                };
                Some(
                    CachedDirectory {
                        cached_domains: LookupCache::new(entries, ttl_positive, ttl_negative),
                        cached_rcpts: LookupCache::new(entries, ttl_positive, ttl_negative),
                    },
                )
            },
            None => None,
        }
    }

    /// The cached verdict on the recipient `address`, as of the present
    /// instant.
    pub fn get_rcpt(&mut self, address: &str) -> (verdict: Option<bool>)
        ensures
            exists|now: u128|
                verdict == old(self).rcpts().verdict(address@, now) && final(self).rcpts() == old(
                    self,
                ).rcpts().after_get(address@, now),
            final(self).domains() == old(self).domains(),
    {
        let verdict = self.cached_rcpts.get(address);
        proof {
            let now = choose|now: u128|
                verdict == old(self).cached_rcpts@.verdict(address@, now) && self.cached_rcpts@
                    == old(self).cached_rcpts@.after_get(address@, now);
            assert(verdict == old(self).rcpts().verdict(address@, now) && self.rcpts() == old(
                self,
            ).rcpts().after_get(address@, now));
        }
        verdict
    }

    /// Records whether the recipient `address` exists.
    pub fn set_rcpt(&mut self, address: &str, exists: bool)
        ensures
            exists|now: u128| final(self).rcpts() == old(self).rcpts().after_set(address@, exists, now),
            final(self).domains() == old(self).domains(),
    {
        self.cached_rcpts.set(address.to_owned(), exists);
        proof {
            let now = choose|now: u128|
                self.cached_rcpts@ == #[trigger] old(self).cached_rcpts@.after_set(
                    address@,
                    exists,
                    now,
                );
            assert(self.rcpts() == old(self).rcpts().after_set(address@, exists, now));
        }
    }

    /// The cached verdict on `domain`, as of the present instant.
    pub fn get_domain(&mut self, domain: &str) -> (verdict: Option<bool>)
        ensures
            exists|now: u128|
                verdict == old(self).domains().verdict(domain@, now) && final(self).domains()
                    == old(self).domains().after_get(domain@, now),
            final(self).rcpts() == old(self).rcpts(),
    {
        let verdict = self.cached_domains.get(domain);
        proof {
            let now = choose|now: u128|
                verdict == old(self).cached_domains@.verdict(domain@, now) && self.cached_domains@
                    == old(self).cached_domains@.after_get(domain@, now);
            assert(verdict == old(self).domains().verdict(domain@, now) && self.domains() == old(
                self,
            ).domains().after_get(domain@, now));
        }
        verdict
    }

    /// Records whether `domain` exists.
    pub fn set_domain(&mut self, domain: &str, exists: bool)
        ensures
            exists|now: u128|
                final(self).domains() == old(self).domains().after_set(domain@, exists, now),
            final(self).rcpts() == old(self).rcpts(),
    {
        self.cached_domains.set(domain.to_owned(), exists);
        proof {
            let now = choose|now: u128|
                self.cached_domains@ == #[trigger] old(self).cached_domains@.after_set(
                    domain@,
                    exists,
                    now,
                );
            assert(self.domains() == old(self).domains().after_set(domain@, exists, now));
        }
    }
}

/// Cutting an expiry off at the last instant loses nothing: at every
/// instant a verdict is live exactly when its lifetime has not passed.
pub proof fn law_expiry_is_exact(recorded_at: u128, ttl: u128, now: u128)
    ensures
        expiry(recorded_at, ttl) >= now <==> recorded_at + ttl >= now,
{
}

/// A positive verdict is found, as `Some(true)`, by every lookup made no
/// later than its lifetime after it was recorded, in a cache that can hold
/// at least one entry.
pub proof fn law_positive_round_trip(c: CacheState, k: Seq<char>, t0: u128, t1: u128)
    requires
        c.wf(),
        c.capacity > 0,
        t1 <= t0 + c.ttl_pos,
    ensures
        c.after_insert_pos(k, t0).wf(),
        c.after_insert_pos(k, t0).verdict(k, t1) == Some(true),
{
    lemma_inserted(c.pos, c.capacity, k, expiry(t0, c.ttl_pos));
}

/// A negative verdict is found, as `Some(false)`, by every lookup made no
/// later than its lifetime after it was recorded, unless a live positive
/// verdict for the same key hides it.
pub proof fn law_negative_round_trip(c: CacheState, k: Seq<char>, t0: u128, t1: u128)
    requires
        c.wf(),
        c.capacity > 0,
        t1 <= t0 + c.ttl_neg,
        !live(c.pos, k, t1),
    ensures
        c.after_insert_neg(k, t0).wf(),
        c.after_insert_neg(k, t0).verdict(k, t1) == Some(false),
{
    lemma_inserted(c.neg, c.capacity, k, expiry(t0, c.ttl_neg));
}

/// A positive verdict is no longer found once its lifetime has passed, and
/// the lookup that meets the expired entry drops it.
pub proof fn law_positive_expiry(c: CacheState, k: Seq<char>, t0: u128, t1: u128)
    requires
        c.wf(),
        t1 > t0 + c.ttl_pos,
    ensures
        c.after_insert_pos(k, t0).verdict(k, t1) != Some(true),
        !live(c.neg, k, t1) ==> c.after_insert_pos(k, t0).verdict(k, t1) is None,
        !has_key(c.after_insert_pos(k, t0).after_get(k, t1).pos, k),
{
    let d = c.after_insert_pos(k, t0);
    lemma_inserted(c.pos, c.capacity, k, expiry(t0, c.ttl_pos));
    lemma_removed(c.pos, k);
    lemma_removed(d.pos, k);
    if c.capacity == 0 {
        assert(d.pos.len() == 0);
        assert(!has_key(d.pos, k));
    }
}

/// A negative verdict is no longer found once its lifetime has passed, and
/// the lookup that meets the expired entry drops it.
pub proof fn law_negative_expiry(c: CacheState, k: Seq<char>, t0: u128, t1: u128)
    requires
        c.wf(),
        t1 > t0 + c.ttl_neg,
        !live(c.pos, k, t1),
    ensures
        c.after_insert_neg(k, t0).verdict(k, t1) is None,
        !has_key(c.after_insert_neg(k, t0).after_get(k, t1).neg, k),
{
    let d = c.after_insert_neg(k, t0);
    lemma_inserted(c.neg, c.capacity, k, expiry(t0, c.ttl_neg));
    lemma_removed(c.neg, k);
    lemma_removed(d.neg, k);
    if c.capacity == 0 {
        assert(d.neg.len() == 0);
        assert(!has_key(d.neg, k));
    }
}

/// Recording a verdict for a key that a full structure does not hold drops
/// exactly its least recently used entry.
pub proof fn law_full_cache_evicts_oldest(c: CacheState, k: Seq<char>, now: u128)
    requires
        c.wf(),
        c.capacity > 0,
        c.pos.len() == c.capacity,
        !has_key(c.pos, k),
    ensures
        c.after_insert_pos(k, now).pos == c.pos.drop_first().push((k, expiry(now, c.ttl_pos))),
        !has_key(c.after_insert_pos(k, now).pos, c.pos[0].0),
        forall|t: u128| c.after_insert_pos(k, now).verdict(c.pos[0].0, t) != Some(true),
{
    let d = c.after_insert_pos(k, now);
    lemma_inserted(c.pos, c.capacity, k, expiry(now, c.ttl_pos));
    assert(d.pos =~= c.pos.drop_first().push((k, expiry(now, c.ttl_pos))));
    let first = c.pos[0].0;
    assert(first != k);
    if has_key(d.pos, first) {
        let i = index_of(d.pos, first);
        assert(d.pos[i].0 == first);
        assert(i < d.pos.len() - 1);
        assert(d.pos[i] == c.pos[i + 1]);
        assert(c.pos[0].0 != c.pos[i + 1].0);
    }
}

/// The entries that positive verdicts for `keys`, recorded at `times`,
/// make.
pub open spec fn recorded(keys: Seq<Seq<char>>, times: Seq<u128>, ttl: u128) -> Seq<Entry> {
    Seq::new(keys.len(), |i: int| (keys[i], expiry(times[i], ttl)))
}

/// `s` ends with the entries `tail`.
spec fn ends_with(s: Seq<Entry>, tail: Seq<Entry>) -> bool {
    s.len() >= tail.len() && s.subrange(s.len() - tail.len(), s.len() as int) == tail
}

/// Storing a fresh key in a structure that ends with fewer entries than
/// the bound leaves those entries at the end, followed by the new one.
proof fn lemma_insert_extends_tail(
    s: Seq<Entry>,
    capacity: nat,
    k: Seq<char>,
    v: u128,
    tail: Seq<Entry>,
)
    requires
        distinct_keys(s),
        s.len() <= capacity,
        tail.len() < capacity,
        ends_with(s, tail),
        !has_key(tail, k),
    ensures
        ends_with(inserted(s, capacity, k, v), tail.push((k, v))),
{
    let off = s.len() - tail.len();
    let u = inserted(s, capacity, k, v);
    let want = tail.push((k, v));
    lemma_inserted(s, capacity, k, v);
    assert forall|i: int| 0 <= i < tail.len() implies tail[i] == s[off + i] by {
        assert(s.subrange(off, s.len() as int)[i] == s[off + i]);
    }
    if has_key(s, k) {
        let j = index_of(s, k);
        assert(s[j].0 == k);
        if j >= off {
            assert(tail[j - off] == s[j]);
            assert(has_key(tail, k));
        }
        assert(u == s.remove(j).push((k, v)));
        assert(u.len() == s.len());
        assert(u.subrange(u.len() - want.len(), u.len() as int) =~= want);
    } else if s.len() < capacity {
        assert(u == s.push((k, v)));
        assert(u.subrange(u.len() - want.len(), u.len() as int) =~= want);
    } else {
        assert(u == s.push((k, v)).drop_first());
        assert(u.len() == s.len());
        assert(u.subrange(u.len() - want.len(), u.len() as int) =~= want);
    }
}

/// After no more verdicts than the bound were recorded for distinct keys,
/// the structure ends with those verdicts, in the order recorded.
proof fn lemma_after_inserts_pos(c: CacheState, keys: Seq<Seq<char>>, times: Seq<u128>)
    requires
        c.wf(),
        keys.len() <= c.capacity,
        times.len() == keys.len(),
        keys.no_duplicates(),
    ensures
        c.after_inserts_pos(keys, times).wf(),
        c.after_inserts_pos(keys, times).neg == c.neg,
        c.after_inserts_pos(keys, times).capacity == c.capacity,
        c.after_inserts_pos(keys, times).ttl_pos == c.ttl_pos,
        c.after_inserts_pos(keys, times).ttl_neg == c.ttl_neg,
        ends_with(c.after_inserts_pos(keys, times).pos, recorded(keys, times, c.ttl_pos)),
    decreases keys.len(),
{
    if keys.len() > 0 {
        let keys0 = keys.drop_last();
        let times0 = times.drop_last();
        lemma_after_inserts_pos(c, keys0, times0);
        let b = c.after_inserts_pos(keys0, times0);
        let k = keys.last();
        let v = expiry(times.last(), c.ttl_pos);
        let tail = recorded(keys0, times0, c.ttl_pos);
        assert(c.after_inserts_pos(keys, times) == b.after_insert_pos(k, times.last()));
        if has_key(tail, k) {
            let j = index_of(tail, k);
            assert(tail[j].0 == k);
            assert(keys[j] == keys[keys.len() - 1]);
        }
        lemma_insert_extends_tail(b.pos, b.capacity, k, v, tail);
        lemma_inserted(b.pos, b.capacity, k, v);
        assert(tail.push((k, v)) =~= recorded(keys, times, c.ttl_pos));
    } else {
        let d = c.after_inserts_pos(keys, times);
        assert(d.pos.subrange(d.pos.len() as int, d.pos.len() as int) =~= recorded(
            keys,
            times,
            c.ttl_pos,
        ));
    }
}

/// Recording positive verdicts for one more distinct key than the bound
/// leaves exactly the verdicts after the first, in the order recorded: the
/// first key, the least recently used, is gone and no longer found.
pub proof fn law_overflow_evicts_first(c: CacheState, keys: Seq<Seq<char>>, times: Seq<u128>)
    requires
        c.wf(),
        c.capacity > 0,
        keys.len() == c.capacity + 1,
        times.len() == keys.len(),
        keys.no_duplicates(),
    ensures
        c.after_inserts_pos(keys, times).pos == recorded(keys, times, c.ttl_pos).drop_first(),
        c.after_inserts_pos(keys, times).neg == c.neg,
        !has_key(c.after_inserts_pos(keys, times).pos, keys[0]),
        forall|t: u128| c.after_inserts_pos(keys, times).verdict(keys[0], t) != Some(true),
        forall|t: u128|
            !live(c.neg, keys[0], t) ==> c.after_inserts_pos(keys, times).verdict(keys[0], t) is None,
{
    let keys0 = keys.drop_last();
    let times0 = times.drop_last();
    lemma_after_inserts_pos(c, keys0, times0);
    let b = c.after_inserts_pos(keys0, times0);
    let d = c.after_inserts_pos(keys, times);
    let k = keys.last();
    let tail = recorded(keys0, times0, c.ttl_pos);
    assert(d == b.after_insert_pos(k, times.last()));
    assert(b.pos.len() == c.capacity);
    assert(b.pos =~= b.pos.subrange(0, b.pos.len() as int));
    assert(b.pos == tail);
    if has_key(b.pos, k) {
        let j = index_of(b.pos, k);
        assert(b.pos[j].0 == k);
        assert(keys[j] == keys[keys.len() - 1]);
    }
    law_full_cache_evicts_oldest(b, k, times.last());
    assert(d.pos =~= recorded(keys, times, c.ttl_pos).drop_first());
    assert(b.pos[0].0 == keys[0]);
}

} // verus!
