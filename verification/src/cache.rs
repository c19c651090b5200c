//! Bounded response cache with LRU eviction and expiry-driven purging.
//!
//! Entries are kept in recency order: index 0 is the least recently used,
//! the last index the most recently used. A lookup promotes its entry to the
//! MRU end; an insert over capacity evicts the LRU entry; the periodic purge
//! pops expired entries from the LRU end only, up to a per-tick cap.

use vstd::prelude::*;

use trust_dns_proto::op::Message;

use crate::config::CacheConfiguration;
use crate::dns::{msg_clone, msg_model, MsgModel, QueryTuple};
use crate::request_key::RequestKey;

verus! {

/// A cached response: the stored message (its id already set to zero), the
/// time it entered the cache and the time it expires, both in seconds.
pub struct CacheObject {
    message: Message,
    cache_time: u64,
    expiration_time: u64,
}

/// What a cached entry holds, at the spec level.
pub ghost struct CacheObjectModel {
    pub message: MsgModel,
    pub cache_time: u64,
    pub expiration_time: u64,
}

impl View for CacheObject {
    type V = CacheObjectModel;

    closed spec fn view(&self) -> CacheObjectModel {
        CacheObjectModel {
            message: msg_model(self.message),
            cache_time: self.cache_time,
            expiration_time: self.expiration_time,
        }
    }
}

impl CacheObject {
    pub fn new(message: Message, cache_time: u64, cache_duration_seconds: u64) -> (r: CacheObject)
        requires
            cache_time + cache_duration_seconds <= u64::MAX,
        ensures
            r@.message == msg_model(message),
            r@.cache_time == cache_time,
            r@.expiration_time == cache_time + cache_duration_seconds,
    {
        let expiration_time = cache_time + cache_duration_seconds;
        CacheObject { message, cache_time, expiration_time }
    }

    /// Hands the stored message out.
    pub fn message(self) -> (r: Message)
        ensures
            msg_model(r) == self@.message,
    {
        self.message
    }

    /// The time the entry went in.
    pub fn cache_time_value(&self) -> (r: u64)
        ensures
            r == self@.cache_time,
    {
        self.cache_time
    }

    /// The time the entry expires.
    pub fn expiration_time_value(&self) -> (r: u64)
        ensures
            r == self@.expiration_time,
    {
        self.expiration_time
    }

    /// An entry is expired strictly after its expiration time.
    pub fn expired(&self, now: u64) -> (r: bool)
        ensures
            r == (now > self@.expiration_time),
    {
        now > self.expiration_time
    }

    /// How long the entry has sat in the cache.
    pub fn duration_in_cache(&self, now: u64) -> (r: u64)
        requires
            now >= self@.cache_time,
        ensures
            r == now - self@.cache_time,
    {
        now - self.cache_time
    }

    /// A copy whose model is the same; the message is cloned behind the
    /// trusted boundary.
    pub fn clone_object(&self) -> (r: CacheObject)
        ensures
            r@ == self@,
    {
        CacheObject {
            message: msg_clone(&self.message),
            cache_time: self.cache_time,
            expiration_time: self.expiration_time,
        }
    }
}

/// A cache entry at the spec level: the key's view and the object's model.
pub type CacheEntry = (Seq<QueryTuple>, CacheObjectModel);

/// The views of a run of entries, LRU first.
pub open spec fn entry_views(s: Seq<(RequestKey, CacheObject)>) -> Seq<CacheEntry> {
    s.map_values(|e: (RequestKey, CacheObject)| (e.0@, e.1@))
}

/// Whether some entry holds the key.
pub open spec fn has_key<V>(s: Seq<(Seq<QueryTuple>, V)>, k: Seq<QueryTuple>) -> bool {
    exists|i: int| 0 <= i < s.len() && s[i].0 == k
}

/// The index of the entry holding the key (unique under `unique_keys`).
pub open spec fn key_index<V>(s: Seq<(Seq<QueryTuple>, V)>, k: Seq<QueryTuple>) -> int {
    choose|i: int| 0 <= i < s.len() && s[i].0 == k
}

/// No two entries share a key.
pub open spec fn unique_keys<V>(s: Seq<(Seq<QueryTuple>, V)>) -> bool {
    forall|i: int, j: int| 0 <= i < j < s.len() ==> s[i].0 != s[j].0
}

/// What a lookup returns: the stored model, if the key is present.
pub open spec fn spec_get<V>(s: Seq<(Seq<QueryTuple>, V)>, k: Seq<QueryTuple>) -> Option<V> {
    if has_key(s, k) {
        Some(s[key_index(s, k)].1)
    } else {
        None
    }
}

/// How a lookup reorders the cache: the hit entry moves to the MRU end.
pub open spec fn spec_promote<V>(s: Seq<(Seq<QueryTuple>, V)>, k: Seq<QueryTuple>) -> Seq<(Seq<QueryTuple>, V)> {
    if has_key(s, k) {
        s.remove(key_index(s, k)).push(s[key_index(s, k)])
    } else {
        s
    }
}

/// How an insert transforms the cache: an existing entry is replaced and
/// promoted; a new entry is appended; on overflow the LRU entry — index 0 —
/// is the one evicted.
pub open spec fn spec_put<V>(s: Seq<(Seq<QueryTuple>, V)>, k: Seq<QueryTuple>, v: V, max: int) -> Seq<(Seq<QueryTuple>, V)> {
    if has_key(s, k) {
        s.remove(key_index(s, k)).push((k, v))
    } else if s.len() < max {
        s.push((k, v))
    } else {
        s.remove(0).push((k, v))
    }
}

/// The response cache: entries in recency order, LRU at index 0.
pub struct Cache {
    cache_configuration: CacheConfiguration,
    entries: Vec<(RequestKey, CacheObject)>,
}

impl View for Cache {
    type V = Seq<CacheEntry>;

    closed spec fn view(&self) -> Seq<CacheEntry> {
        entry_views(self.entries@)
    }
}

impl Cache {
    /// Bounded size, distinct keys.
    pub open spec fn wf(&self) -> bool {
        &&& self.spec_max_size() > 0
        &&& self@.len() <= self.spec_max_size()
        &&& unique_keys(self@)
    }

    pub closed spec fn spec_max_size(&self) -> int {
        self.cache_configuration.max_size as int
    }

    pub closed spec fn spec_max_purges_per_tick(&self) -> int {
        self.cache_configuration.max_purges_per_timer_pop as int
    }

    pub fn new(cache_configuration: CacheConfiguration) -> (r: Cache)
        requires
            cache_configuration.wf(),
        ensures
            r.wf(),
            r@ =~= Seq::<CacheEntry>::empty(),
            r.spec_max_size() == cache_configuration.max_size,
            r.spec_max_purges_per_tick() == cache_configuration.max_purges_per_timer_pop,
    {
        Cache { cache_configuration, entries: Vec::new() }
    }

    pub fn len(&self) -> (r: usize)
        ensures
            r == self@.len(),
    {
        self.entries.len()
    }

    /// Finds the position of a key, if any entry holds it.
    #[verifier::loop_isolation(false)]
    fn find_index(&self, key: &RequestKey) -> (r: Option<usize>)
        ensures
            r matches Some(i) ==> 0 <= i < self@.len() && self@[i as int].0 == key@,
            r is None ==> !has_key(self@, key@),
    {
        let mut i: usize = 0;
        while i < self.entries.len()
            invariant
                i <= self.entries@.len(),
                forall|j: int| 0 <= j < i ==> self@[j].0 != key@,
            decreases self.entries@.len() - i,
        {
            if self.entries[i].0.key_eq(key) {
                proof {
                    assert(self@[i as int].0 == key@);
                }
                return Some(i);
            }
            i = i + 1;
        }
        None
    }

    /// Looks a key up; a hit hands back a copy of the entry and promotes the
    /// entry to the MRU end.
    pub fn get(&mut self, key: &RequestKey) -> (r: Option<CacheObject>)
        requires
            old(self).wf(),
        ensures
            final(self).wf(),
            final(self).spec_max_size() == old(self).spec_max_size(),
            final(self).spec_max_purges_per_tick() == old(self).spec_max_purges_per_tick(),
            r matches Some(o) ==> spec_get(old(self)@, key@) == Some(o@),
            r is None ==> spec_get(old(self)@, key@) is None,
            final(self)@ == spec_promote(old(self)@, key@),
    {
        let ghost s = self@;
        match self.find_index(key) {
            None => {
                proof {
                    assert(final(self)@ =~= spec_promote(s, key@));
                }
                None
            },
            Some(i) => {
                proof {
                    assert(has_key(s, key@));
                    lemma_key_index_agrees(s, key@, i as int);
                }
                let entry = self.entries.remove(i);
                let copy = entry.1.clone_object();
                self.entries.push(entry);
                proof {
                    assert(self@ =~= s.remove(i as int).push(s[i as int]));
                    assert(final(self)@ =~= spec_promote(s, key@));
                    lemma_promote_preserves_wf(s, key@);
                }
                Some(copy)
            },
        }
    }

    /// Inserts or replaces an entry, evicting the LRU entry on overflow.
    pub fn put(&mut self, key: RequestKey, cache_object: CacheObject)
        requires
            old(self).wf(),
        ensures
            final(self).wf(),
            final(self).spec_max_size() == old(self).spec_max_size(),
            final(self).spec_max_purges_per_tick() == old(self).spec_max_purges_per_tick(),
            final(self)@ == spec_put(old(self)@, key@, cache_object@, old(self).spec_max_size()),
    {
        let ghost s = self@;
        let ghost kv = key@;
        let ghost ov = cache_object@;
        match self.find_index(&key) {
            Some(i) => {
                proof {
                    assert(has_key(s, kv));
                    lemma_key_index_agrees(s, kv, i as int);
                }
                self.entries.remove(i);
                self.entries.push((key, cache_object));
                proof {
                    assert(self@ =~= s.remove(i as int).push((kv, ov)));
                    lemma_replace_preserves_unique(s, kv, ov, i as int);
                }
            },
            None => {
                if self.entries.len() == self.cache_configuration.max_size {
                    self.entries.remove(0);
                    self.entries.push((key, cache_object));
                    proof {
                        assert(self@ =~= s.remove(0).push((kv, ov)));
                        lemma_append_new_preserves_unique(s.remove(0), kv, ov);
                        assert(forall|i: int| 0 <= i < s.remove(0).len() ==> s.remove(0)[i].0
                            != kv);
                    }
                } else {
                    self.entries.push((key, cache_object));
                    proof {
                        assert(self@ =~= s.push((kv, ov)));
                        lemma_append_new_preserves_unique(s, kv, ov);
                    }
                }
            },
        }
    }

    /// Pops expired entries off the LRU end, stopping at the first entry that
    /// is still fresh or once the per-tick cap is reached. Returns the size
    /// after the purge and the number of entries dropped.
    #[verifier::loop_isolation(false)]
    pub fn periodic_purge(&mut self, now: u64) -> (r: (usize, usize))
        requires
            old(self).wf(),
        ensures
            final(self).wf(),
            final(self).spec_max_size() == old(self).spec_max_size(),
            final(self).spec_max_purges_per_tick() == old(self).spec_max_purges_per_tick(),
            final(self)@ == old(self)@.skip(r.1 as int),
            r.0 == final(self)@.len(),
            r.1 <= old(self).spec_max_purges_per_tick(),
            r.1 <= old(self)@.len(),
            forall|j: int| 0 <= j < r.1 ==> now > old(self)@[j].1.expiration_time,
            r.1 == old(self).spec_max_purges_per_tick() || final(self)@.len() == 0 || !(now
                > final(self)@[0].1.expiration_time),
    {
        let ghost s = self@;
        let mut items_purged: usize = 0;
        proof {
            assert(self@ =~= s.skip(0));
        }
        while items_purged < self.cache_configuration.max_purges_per_timer_pop
            && self.entries.len() > 0 && self.entries[0].1.expired(now)
            invariant
                items_purged <= self.spec_max_purges_per_tick(),
                items_purged <= s.len(),
                self@ == s.skip(items_purged as int),
                self.spec_max_size() == old(self).spec_max_size(),
                self.spec_max_purges_per_tick() == old(self).spec_max_purges_per_tick(),
                forall|j: int| 0 <= j < items_purged ==> now > s[j].1.expiration_time,
            decreases s.len() - items_purged,
        {
            let ghost prev = self.entries@;
            let ghost prev_purged = items_purged as int;
            proof {
                assert(self@[0] == s[items_purged as int]);
            }
            self.entries.remove(0);
            items_purged = items_purged + 1;
            proof {
                assert(entry_views(prev) == s.skip(prev_purged));
                assert forall|i: int| 0 <= i < self@.len() implies self@[i] == s.skip(
                    items_purged as int,
                )[i] by {
                    assert(self.entries@[i] == prev[i + 1]);
                    assert(self@[i] == entry_views(prev)[i + 1]);
                    assert(entry_views(prev)[i + 1] == s.skip(prev_purged)[i + 1]);
                    assert(s.skip(prev_purged)[i + 1] == s[prev_purged + i + 1]);
                    assert(s.skip(items_purged as int)[i] == s[items_purged as int + i]);
                }
                assert(self@ =~= s.skip(items_purged as int));
            }
        }
        proof {
            lemma_skip_preserves_unique(s, items_purged as int);
        }
        (self.entries.len(), items_purged)
    }
}

/// Under unique keys, any index holding the key is the chosen one.
pub proof fn lemma_key_index_agrees<V>(s: Seq<(Seq<QueryTuple>, V)>, k: Seq<QueryTuple>, i: int)
    requires
        unique_keys(s),
        0 <= i < s.len(),
        s[i].0 == k,
    ensures
        has_key(s, k),
        key_index(s, k) == i,
{
    assert(has_key(s, k));
    let j = key_index(s, k);
    assert(0 <= j < s.len() && s[j].0 == k);
    if i < j {
        assert(s[i].0 != s[j].0);
    } else if j < i {
        assert(s[j].0 != s[i].0);
    }
}

pub proof fn lemma_promote_preserves_wf<V>(s: Seq<(Seq<QueryTuple>, V)>, k: Seq<QueryTuple>)
    requires
        unique_keys(s),
        has_key(s, k),
    ensures
        unique_keys(spec_promote(s, k)),
        spec_promote(s, k).len() == s.len(),
{
    let i = key_index(s, k);
    let t = spec_promote(s, k);
    assert forall|a: int, b: int| 0 <= a < b < t.len() implies t[a].0 != t[b].0 by {
        let map_back = |x: int| if x < i { x } else { x + 1 };
        if b == t.len() - 1 {
            assert(t[b] == s[i]);
            assert(t[a] == s[map_back(a)]);
        } else {
            assert(t[a] == s[map_back(a)]);
            assert(t[b] == s[map_back(b)]);
        }
    }
}

pub proof fn lemma_replace_preserves_unique<V>(s: Seq<(Seq<QueryTuple>, V)>, k: Seq<QueryTuple>, v: V, i: int)
    requires
        unique_keys(s),
        0 <= i < s.len(),
        s[i].0 == k,
    ensures
        unique_keys(s.remove(i).push((k, v))),
        s.remove(i).push((k, v)).len() == s.len(),
{
    let t = s.remove(i).push((k, v));
    assert forall|a: int, b: int| 0 <= a < b < t.len() implies t[a].0 != t[b].0 by {
        let map_back = |x: int| if x < i { x } else { x + 1 };
        if b == t.len() - 1 {
            assert(t[a] == s[map_back(a)]);
            assert(map_back(a) != i);
            assert(s[map_back(a)].0 != s[i].0);
        } else {
            assert(t[a] == s[map_back(a)]);
            assert(t[b] == s[map_back(b)]);
        }
    }
}

pub proof fn lemma_append_new_preserves_unique<V>(s: Seq<(Seq<QueryTuple>, V)>, k: Seq<QueryTuple>, v: V)
    requires
        unique_keys(s),
        !has_key(s, k),
    ensures
        unique_keys(s.push((k, v))),
{
    let t = s.push((k, v));
    assert forall|a: int, b: int| 0 <= a < b < t.len() implies t[a].0 != t[b].0 by {
        if b == t.len() - 1 {
            assert(t[a] == s[a]);
            assert(!(s[a].0 == k));
        }
    }
}

pub proof fn lemma_skip_preserves_unique<V>(s: Seq<(Seq<QueryTuple>, V)>, n: int)
    requires
        unique_keys(s),
        0 <= n <= s.len(),
    ensures
        unique_keys(s.skip(n)),
{
    let t = s.skip(n);
    assert forall|a: int, b: int| 0 <= a < b < t.len() implies t[a].0 != t[b].0 by {
        assert(t[a] == s[a + n]);
        assert(t[b] == s[b + n]);
    }
}

/// An entry just put is found by the next lookup, unchanged: the value comes
/// back as it went in, whatever the cache held before.
pub proof fn lemma_put_then_get<V>(s: Seq<(Seq<QueryTuple>, V)>, k: Seq<QueryTuple>, v: V, max: int)
    requires
        unique_keys(s),
        s.len() <= max,
        0 < max,
    ensures
        spec_get(spec_put(s, k, v, max), k) == Some(v),
{
    let t = spec_put(s, k, v, max);
    lemma_put_preserves_wf(s, k, v, max);
    assert(t[t.len() - 1] == (k, v));
    lemma_key_index_agrees(t, k, t.len() - 1);
}

/// One insert keeps the cache's well-formedness: distinct keys, bounded size.
pub proof fn lemma_put_preserves_wf<V>(s: Seq<(Seq<QueryTuple>, V)>, k: Seq<QueryTuple>, v: V, max: int)
    requires
        unique_keys(s),
        s.len() <= max,
        0 < max,
    ensures
        unique_keys(spec_put(s, k, v, max)),
        spec_put(s, k, v, max).len() <= max,
{
    if has_key(s, k) {
        lemma_replace_preserves_unique(s, k, v, key_index(s, k));
    } else if s.len() < max {
        lemma_append_new_preserves_unique(s, k, v);
    } else {
        assert(s.remove(0) =~= s.skip(1));
        lemma_skip_preserves_unique(s, 1);
        assert(!has_key(s.remove(0), k));
        lemma_append_new_preserves_unique(s.remove(0), k, v);
    }
}

/// A run of inserts, first to last.
pub open spec fn apply_puts<V>(s: Seq<(Seq<QueryTuple>, V)>, ops: Seq<(Seq<QueryTuple>, V)>, max: int) -> Seq<(Seq<QueryTuple>, V)>
    decreases ops.len(),
{
    if ops.len() == 0 {
        s
    } else {
        apply_puts(spec_put(s, ops[0].0, ops[0].1, max), ops.drop_first(), max)
    }
}

/// After any sequence of inserts the cache still holds distinct keys and
/// never more than its capacity; each insert along the way evicted only the
/// LRU entry, as `lemma_put_bounds` states of every step.
pub proof fn lemma_put_sequence_bounded<V>(s: Seq<(Seq<QueryTuple>, V)>, ops: Seq<(Seq<QueryTuple>, V)>, max: int)
    requires
        unique_keys(s),
        s.len() <= max,
        0 < max,
    ensures
        unique_keys(apply_puts(s, ops, max)),
        apply_puts(s, ops, max).len() <= max,
    decreases ops.len(),
{
    if ops.len() > 0 {
        lemma_put_preserves_wf(s, ops[0].0, ops[0].1, max);
        lemma_put_sequence_bounded(spec_put(s, ops[0].0, ops[0].1, max), ops.drop_first(), max);
    }
}

/// The LRU bound: an insert never grows the cache past its capacity, and when
/// it evicts, the entry lost is exactly the least recently used one, at the
/// LRU end.
pub proof fn lemma_put_bounds<V>(s: Seq<(Seq<QueryTuple>, V)>, k: Seq<QueryTuple>, v: V, max: int)
    requires
        unique_keys(s),
        s.len() <= max,
        0 < max,
    ensures
        spec_put(s, k, v, max).len() <= max,
        !has_key(s, k) && s.len() == max ==> spec_put(s, k, v, max) =~= s.skip(1).push((k, v)),
{
    if !has_key(s, k) && s.len() == max {
        assert(s.remove(0) =~= s.skip(1));
    }
}

} // verus!
