//! The units of the lookup store: keys, counters and what is stored under
//! them.

use crate::assoc::{
    distinct_keys, has_key, index_of, lemma_index_of, lemma_removed, lemma_to_map_put, removed,
    to_map,
};
use crate::bytes::bytes_eq;
use crate::error::{Error, Result};
use crate::text::{utf8_lossy, utf8_lossy_text};
use vstd::prelude::*;
use vstd::std_specs::convert::FromSpecImpl;
use vstd::string::StringExecFns;

verus! {

/// What a lookup addresses: a plain key or a counter. The two live in
/// spaces of their own, whatever their bytes are.
#[derive(Clone, Debug)]
pub enum LookupKey {
    Key(Vec<u8>),
    Counter(Vec<u8>),
}

/// What a lookup finds.
#[derive(Clone, Debug, PartialEq, Eq)]
pub enum LookupValue<T> {
    /// A value and the instant, in seconds, at which it expires.
    Value { value: T, expires: u64 },
    /// The count of a counter.
    Counter { num: i64 },
    /// Nothing: the key is absent or has expired.
    Absent,
}

impl LookupKey {
    /// The bytes of the key.
    pub open spec fn bytes(&self) -> Seq<u8> {
        match self {
            LookupKey::Key(key) => key@,
            LookupKey::Counter(key) => key@,
        }
    }
}

impl From<LookupKey> for String {
    /// The bytes of the key read as UTF-8, ill-formed parts replaced.
    fn from(value: LookupKey) -> (text: String)
        ensures
            text@ == utf8_lossy_text(value.bytes()),
    {
        match value {
            LookupKey::Key(key) => utf8_lossy(key.as_slice()),
            LookupKey::Counter(key) => utf8_lossy(key.as_slice()),
        }
    }
}

impl FromSpecImpl<LookupKey> for String {
    open spec fn obeys_from_spec() -> bool {
        false
    }

    open spec fn from_spec(value: LookupKey) -> String {
        arbitrary()
    }
}

/// What a lookup store holds: values with the instant at which each
/// expires, and counters. Keys and counters are told apart by their kind,
/// not by their bytes.
pub struct LookupState {
    /// Value and expiry by key.
    pub values: Map<Seq<u8>, (Seq<u8>, u64)>,
    /// Count by counter.
    pub counters: Map<Seq<u8>, i64>,
}

/// What a lookup finds, as plain values.
pub enum Found {
    Value { value: Seq<u8>, expires: u64 },
    Counter { num: i64 },
    Absent,
}

impl LookupState {
    /// The store that holds nothing.
    pub open spec fn empty() -> LookupState {
        LookupState { values: Map::empty(), counters: Map::empty() }
    }

    /// What a lookup of `key` finds at `now`. A value whose expiry lies in
    /// the past is as good as absent.
    pub open spec fn get(self, key: LookupKey, now: u64) -> Found {
        match key {
            LookupKey::Key(k) => if self.values.contains_key(k@) && self.values[k@].1 >= now {
                Found::Value { value: self.values[k@].0, expires: self.values[k@].1 }
            } else {
                Found::Absent
            },
            LookupKey::Counter(k) => if self.counters.contains_key(k@) {
                Found::Counter { num: self.counters[k@] }
            } else {
                Found::Absent
            },
        }
    }

    /// The store after `value` was stored under `key` until `expires`,
    /// whatever was stored there before.
    pub open spec fn set(self, key: Seq<u8>, value: Seq<u8>, expires: u64) -> LookupState {
        LookupState { values: self.values.insert(key, (value, expires)), ..self }
    }

    /// The count of `key`; a counter that was never touched stands at zero.
    pub open spec fn count(self, key: Seq<u8>) -> int {
        if self.counters.contains_key(key) {
            self.counters[key] as int
        } else {
            0
        }
    }

    /// The store after `delta` was added to the counter `key`.
    pub open spec fn increment(self, key: Seq<u8>, delta: i64) -> LookupState {
        LookupState {
            counters: self.counters.insert(key, (self.count(key) + delta) as i64),
            ..self
        }
    }

    /// The store after the counter `key` was incremented by one, `n` times
    /// over.
    pub open spec fn increment_times(self, key: Seq<u8>, n: nat) -> LookupState
        decreases n,
    {
        if n == 0 {
            self
        } else {
            self.increment_times(key, (n - 1) as nat).increment(key, 1)
        }
    }
}

/// The instant at which a value stored at `now` for `ttl` seconds expires;
/// an expiry beyond the last instant is that last instant.
pub open spec fn expires_at(now: u64, ttl: u64) -> u64 {
    if now + ttl > u64::MAX {
        u64::MAX
    } else {
        (now + ttl) as u64
    }
}

#[derive(Debug)]
struct StoredValue {
    key: Vec<u8>,
    value: Vec<u8>,
    expires: u64,
}

#[derive(Debug)]
struct StoredCounter {
    key: Vec<u8>,
    num: i64,
}

/// A lookup store held in memory.
#[derive(Debug)]
pub struct MemoryStore {
    values: Vec<StoredValue>,
    counters: Vec<StoredCounter>,
}

spec fn value_entries(values: Seq<StoredValue>) -> Seq<(Seq<u8>, (Seq<u8>, u64))> {
    values.map_values(|v: StoredValue| (v.key@, (v.value@, v.expires)))
}

spec fn counter_entries(counters: Seq<StoredCounter>) -> Seq<(Seq<u8>, i64)> {
    counters.map_values(|c: StoredCounter| (c.key@, c.num))
}

impl View for MemoryStore {
    type V = LookupState;

    closed spec fn view(&self) -> LookupState {
        LookupState {
            values: to_map(value_entries(self.values@)),
            counters: to_map(counter_entries(self.counters@)),
        }
    }
}

/// `found` is `value` as plain values.
pub open spec fn found_is(found: Found, value: LookupValue<Vec<u8>>) -> bool {
    match found {
        Found::Value { value: v, expires: e } => value matches LookupValue::Value {
            value: held,
            expires,
        } && held@ == v && expires == e,
        Found::Counter { num: n } => value matches LookupValue::Counter { num } && num == n,
        Found::Absent => value is Absent,
    }
}

impl MemoryStore {
    #[verifier::type_invariant]
    spec fn inv(&self) -> bool {
        &&& distinct_keys(value_entries(self.values@))
        &&& distinct_keys(counter_entries(self.counters@))
    }

    /// A store that holds nothing.
    pub fn new() -> (store: MemoryStore)
        ensures
            store@ == LookupState::empty(),
    {
        let store = MemoryStore { values: Vec::new(), counters: Vec::new() };
        assert(to_map(value_entries(store.values@)) =~= Map::<Seq<u8>, (Seq<u8>, u64)>::empty());
        assert(to_map(counter_entries(store.counters@)) =~= Map::<Seq<u8>, i64>::empty());
        store
    }

    fn find_value(&self, key: &[u8]) -> (place: Option<usize>)
        ensures
            match place {
                Some(i) => i < self.values.len() && self.values[i as int].key@ == key@,
                None => !has_key(value_entries(self.values@), key@),
            },
    {
        let mut i: usize = 0;
        while i < self.values.len()
            invariant
                i <= self.values.len(),
                forall|j: int| 0 <= j < i ==> self.values[j].key@ != key@,
            decreases self.values.len() - i,
        {
            if bytes_eq(self.values[i].key.as_slice(), key) {
                return Some(i);
            }
            i += 1;
        }
        proof {
            let entries = value_entries(self.values@);
            if has_key(entries, key@) {
                let j = index_of(entries, key@);
                assert(entries[j].0 == key@);
                assert(self.values[j].key@ == key@);
            }
        }
        None
    }

    fn find_counter(&self, key: &[u8]) -> (place: Option<usize>)
        ensures
            match place {
                Some(i) => i < self.counters.len() && self.counters[i as int].key@ == key@,
                None => !has_key(counter_entries(self.counters@), key@),
            },
    {
        let mut i: usize = 0;
        while i < self.counters.len()
            invariant
                i <= self.counters.len(),
                forall|j: int| 0 <= j < i ==> self.counters[j].key@ != key@,
            decreases self.counters.len() - i,
        {
            if bytes_eq(self.counters[i].key.as_slice(), key) {
                return Some(i);
            }
            i += 1;
        }
        proof {
            let entries = counter_entries(self.counters@);
            if has_key(entries, key@) {
                let j = index_of(entries, key@);
                assert(entries[j].0 == key@);
                assert(self.counters[j].key@ == key@);
            }
        }
        None
    }

    /// Looks `key` up at the instant `now`.
    pub fn key_get(&self, key: &LookupKey, now: u64) -> (value: LookupValue<Vec<u8>>)
        ensures
            found_is(self@.get(*key, now), value),
    {
        proof {
            use_type_invariant(self);
        }
        match key {
            LookupKey::Key(k) => match self.find_value(k.as_slice()) {
                Some(i) => {
                    proof {
                        let entries = value_entries(self.values@);
                        assert(entries[i as int].0 == k@);
                        lemma_index_of(entries, k@, i as int);
                    }
                    if self.values[i].expires >= now {
                        LookupValue::Value {
                            value: self.values[i].value.clone(),
                            expires: self.values[i].expires,
                        }
                    } else {
                        LookupValue::Absent
                    }
                },
                None => LookupValue::Absent,
            },
            LookupKey::Counter(k) => match self.find_counter(k.as_slice()) {
                Some(i) => {
                    proof {
                        let entries = counter_entries(self.counters@);
                        assert(entries[i as int].0 == k@);
                        lemma_index_of(entries, k@, i as int);
                    }
                    LookupValue::Counter { num: self.counters[i].num }
                },
                None => LookupValue::Absent,
            },
        }
    }

    /// Stores `value` under `key` at the instant `now`, to expire `ttl`
    /// seconds later, whatever was stored there before.
    pub fn key_set(&mut self, key: Vec<u8>, value: Vec<u8>, ttl: u64, now: u64)
        ensures
            final(self)@ == old(self)@.set(key@, value@, expires_at(now, ttl)),
    {
        proof {
            use_type_invariant(&*self);
        }
        let ghost before = value_entries(self.values@);
        let expires = now.saturating_add(ttl);
        let place = self.find_value(key.as_slice());
        proof {
            lemma_to_map_put(before, key@, (value@, expires));
            lemma_removed(before, key@);
        }
        let mut values: Vec<StoredValue> = Vec::new();
        std::mem::swap(&mut values, &mut self.values);
        if let Some(i) = place {
            proof {
                assert(before[i as int].0 == key@);
                lemma_index_of(before, key@, i as int);
            }
            values.remove(i);
            assert(value_entries(values@) =~= removed(before, key@));
        } else {
            assert(value_entries(values@) =~= removed(before, key@));
        }
        let ghost middle = value_entries(values@);
        let ghost k = key@;
        let ghost v = value@;
        values.push(StoredValue { key, value, expires });
        assert(value_entries(values@) =~= middle.push((k, (v, expires))));
        self.values = values;
    }

    /// Adds `delta` to the counter `key` and hands back the new count. A
    /// counter that was never touched starts from zero. A count that no
    /// `i64` can hold is an error, and the counter stays as it is.
    pub fn counter_incr(&mut self, key: Vec<u8>, delta: i64) -> (count: Result<i64>)
        ensures
            match count {
                Ok(n) => n == old(self)@.count(key@) + delta && final(self)@ == old(
                    self,
                )@.increment(key@, delta),
                Err(err) => {
                    &&& !(i64::MIN <= old(self)@.count(key@) + delta <= i64::MAX)
                    &&& final(self)@ == old(self)@
                    &&& err matches Error::InternalError(message) && message@
                        == "Counter overflow"@
                },
            },
    {
        proof {
            use_type_invariant(&*self);
        }
        let ghost before = counter_entries(self.counters@);
        let place = self.find_counter(key.as_slice());
        let num: i64 = match place {
            Some(i) => {
                proof {
                    assert(before[i as int].0 == key@);
                    lemma_index_of(before, key@, i as int);
                }
                self.counters[i].num
            },
            None => 0,
        };
        assert(num == old(self)@.count(key@));
        let count = match num.checked_add(delta) {
            Some(count) => count,
            None => {
                return Err(Error::InternalError(String::from_str("Counter overflow")));
            },
        };
        let mut counters: Vec<StoredCounter> = Vec::new();
        std::mem::swap(&mut counters, &mut self.counters);
        if let Some(i) = place {
            counters.remove(i);
            assert(counter_entries(counters@) =~= removed(before, key@));
        } else {
            assert(counter_entries(counters@) =~= removed(before, key@));
        }
        proof {
            lemma_to_map_put(before, key@, count);
            lemma_removed(before, key@);
        }
        let ghost middle = counter_entries(counters@);
        let ghost k = key@;
        counters.push(StoredCounter { key, num: count });
        assert(counter_entries(counters@) =~= middle.push((k, count)));
        self.counters = counters;
        Ok(count)
    }
}

/// A counter that was never touched and is then incremented by one `n`
/// times stands at exactly `n`: no increment is lost and none counts
/// twice.
pub proof fn law_increments_add_up(state: LookupState, key: Seq<u8>, n: nat)
    requires
        !state.counters.contains_key(key),
        n <= i64::MAX,
    ensures
        state.increment_times(key, n).count(key) == n,
        state.increment_times(key, n).values == state.values,
        forall|other: Seq<u8>|
            other != key ==> state.increment_times(key, n).count(other) == state.count(other),
    decreases n,
{
    if n > 0 {
        law_increments_add_up(state, key, (n - 1) as nat);
    }
}

/// Two increments of one counter come to the same count in either order.
pub proof fn law_increments_commute(state: LookupState, key: Seq<u8>, a: i64, b: i64)
    requires
        i64::MIN <= state.count(key) + a <= i64::MAX,
        i64::MIN <= state.count(key) + b <= i64::MAX,
        i64::MIN <= state.count(key) + a + b <= i64::MAX,
    ensures
        state.increment(key, a).increment(key, b) == state.increment(key, b).increment(key, a),
        state.increment(key, a).increment(key, b).count(key) == state.count(key) + a + b,
{
    assert(state.increment(key, a).increment(key, b).counters =~= state.increment(
        key,
        b,
    ).increment(key, a).counters);
}

/// Keys and counters live apart: storing a value leaves every counter as
/// it is, and counting leaves every value as it is, whatever their bytes.
pub proof fn law_keys_and_counters_apart(
    state: LookupState,
    key: Seq<u8>,
    value: Seq<u8>,
    expires: u64,
    delta: i64,
    now: u64,
)
    ensures
        state.set(key, value, expires).counters == state.counters,
        state.increment(key, delta).values == state.values,
        forall|k: LookupKey|
            k is Counter ==> state.set(key, value, expires).get(k, now) == state.get(k, now),
        forall|k: LookupKey|
            k is Key ==> state.increment(key, delta).get(k, now) == state.get(k, now),
        forall|k: LookupKey| k is Counter ==> !(state.get(k, now) is Value),
        forall|k: LookupKey| k is Key ==> !(state.get(k, now) is Counter),
{
}

/// Cutting an expiry off at the last instant loses nothing: at every
/// instant a value is found exactly when its lifetime has not passed.
pub proof fn law_expires_at_is_exact(stored_at: u64, ttl: u64, now: u64)
    ensures
        expires_at(stored_at, ttl) >= now <==> stored_at + ttl >= now,
{
}

/// A value is found until its expiry and not after; what is stored last
/// under a key is what is found.
pub proof fn law_value_expires(
    state: LookupState,
    key: Vec<u8>,
    value: Seq<u8>,
    ttl: u64,
    now: u64,
    later: u64,
)
    ensures
        later <= now + ttl ==> state.set(key@, value, expires_at(now, ttl)).get(
            LookupKey::Key(key),
            later,
        ) == (Found::Value { value, expires: expires_at(now, ttl) }),
        later > now + ttl ==> state.set(key@, value, expires_at(now, ttl)).get(
            LookupKey::Key(key),
            later,
        ) is Absent,
{
}

} // verus!
