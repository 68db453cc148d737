//! Full-response cache: entries keyed by `"{method}:{path}"`, each valid
//! while the PHP source that produced it keeps its hash and its time to
//! live has not run out.  Only successful GET responses are cached; the
//! oldest entry makes room for a new one at capacity.
use dashmap::DashMap;

use vstd::prelude::*;

use crate::clock::Clock;
use crate::config::str_views;
use crate::text::{chars_of, push_all, string_of};

verus! {

/// Configuration of the response cache.
pub struct CacheConfig {
    /// Time to live of a cached response, in milliseconds.
    pub ttl_ms: u64,
    /// Most entries held; the oldest is evicted past it.
    pub max_entries: usize,
    /// Whether the cache is used at all.
    pub enabled: bool,
}

impl Default for CacheConfig {
    /// 30 seconds, 1024 entries, enabled.
    fn default() -> (r: Self)
        ensures
            r.ttl_ms == 30000,
            r.max_entries == 1024,
            r.enabled,
    {
        CacheConfig { ttl_ms: 30000, max_entries: 1024, enabled: true }
    }
}

/// A cached response.
#[derive(Clone)]
pub struct CachedResponse {
    pub body: Vec<u8>,
    pub content_type: String,
    pub status: u16,
    /// Hash of the PHP source that produced the response.
    source_hash: u64,
    /// Time to live, in nanoseconds.
    ttl_nanos: u128,
    /// The clock of the cache that made the entry.
    clock: Clock,
    /// When the entry was made, in nanoseconds on that clock.
    created: u128,
}

impl View for CachedResponse {
    /// Body, content type, status, source hash, time to live and
    /// creation time (nanoseconds on the cache's clock).
    type V = (Seq<u8>, Seq<char>, u16, u64, u128, u128);

    closed spec fn view(&self) -> (Seq<u8>, Seq<char>, u16, u64, u128, u128) {
        (self.body@, self.content_type@, self.status, self.source_hash, self.ttl_nanos, self.created)
    }
}

/// An entry of age `age` (nanoseconds) is valid for source hash `h`.
pub open spec fn valid_at(c: (Seq<u8>, Seq<char>, u16, u64, u128, u128), h: u64, age: u128) -> bool {
    c.3 == h && age < c.4
}

/// The age of entry `c` when the clock reads `now`: nanoseconds since it
/// was made (0 if the reading is not past its creation).
pub open spec fn age_at(c: (Seq<u8>, Seq<char>, u16, u64, u128, u128), now: u128) -> u128 {
    if now >= c.5 {
        (now - c.5) as u128
    } else {
        0
    }
}

/// `now - created`, or 0 when `now` is not past `created`.
fn age_of(created: u128, now: u128) -> (r: u128)
    ensures
        r == (if now >= created { (now - created) as u128 } else { 0 }),
{
    if now >= created {
        now - created
    } else {
        0
    }
}

/// Whole seconds left to live at age `age`.
pub open spec fn remaining_at(c: (Seq<u8>, Seq<char>, u16, u64, u128, u128), age: u128) -> u64 {
    if age <= c.4 {
        ((c.4 - age) / 1000000000) as u128 as u64
    } else {
        0
    }
}

impl CachedResponse {
    /// The cached body: the first part of the view.
    pub fn body(&self) -> (r: &Vec<u8>)
        ensures
            r@ == self@.0,
    {
        &self.body
    }

    /// The cached content type: the second part of the view.
    pub fn content_type(&self) -> (r: &str)
        ensures
            r@ == self@.1,
    {
        self.content_type.as_str()
    }

    /// The cached status: the third part of the view.
    pub fn status(&self) -> (r: u16)
        ensures
            r == self@.2,
    {
        self.status
    }

    /// Whether the entry, at age `age` nanoseconds, is still valid for a
    /// source whose hash is now `current_source_hash`.
    pub fn is_valid_at(&self, current_source_hash: u64, age: u128) -> (r: bool)
        ensures
            r == valid_at(self@, current_source_hash, age),
    {
        self.source_hash == current_source_hash && age < self.ttl_nanos
    }

    /// Whether the entry is still valid: the source hash is unchanged and
    /// its time to live has not run out.  The age is read from the clock.
    pub fn is_valid(&self, current_source_hash: u64) -> (r: bool)
        ensures
            r ==> self@.3 == current_source_hash,
            exists|age: u128| r == valid_at(self@, current_source_hash, age),
    {
        let age = age_of(self.created, self.clock.now_nanos());
        self.is_valid_at(current_source_hash, age)
    }

    /// Whole seconds left to live at age `age` nanoseconds.
    pub fn remaining_ttl_secs_at(&self, age: u128) -> (r: u64)
        ensures
            r == remaining_at(self@, age),
    {
        if age <= self.ttl_nanos {
            let s = (self.ttl_nanos - age) / 1000000000;
            s as u64
        } else {
            0
        }
    }

    /// Whole seconds left to live; the age is read from the clock.
    pub fn remaining_ttl_secs(&self) -> (r: u64)
        ensures
            exists|age: u128| r == remaining_at(self@, age),
    {
        let age = age_of(self.created, self.clock.now_nanos());
        self.remaining_ttl_secs_at(age)
    }
}

/// What a `DashMap` of cached responses holds, by key.
pub uninterp spec fn cache_entries(m: DashMap<String, CachedResponse>) -> Map<
    Seq<char>,
    (Seq<u8>, Seq<char>, u16, u64, u128, u128),
>;

/// A cache without entries.
pub open spec fn no_responses() -> Map<Seq<char>, (Seq<u8>, Seq<char>, u16, u64, u128, u128)> {
    Map::empty()
}

/// `DashMap::with_capacity`: an empty map.
#[verifier::external_body]
fn cache_map_new(capacity: usize) -> (r: DashMap<String, CachedResponse>)
    ensures
        cache_entries(r) == no_responses(),
{
    DashMap::with_capacity(capacity)
}

/// `DashMap::get`, the entry cloned: the response under `k`, if any.
#[verifier::external_body]
fn cache_map_get(m: &DashMap<String, CachedResponse>, k: &str) -> (r: Option<CachedResponse>)
    ensures
        match r {
            Some(c) => cache_entries(*m).contains_key(k@) && cache_entries(*m)[k@] == c@,
            None => !cache_entries(*m).contains_key(k@),
        },
{
    m.get(k).map(|e| e.value().clone())
}

/// `DashMap::insert`: maps `k` to `c`, replacing any earlier response.
#[verifier::external_body]
fn cache_map_insert(m: &mut DashMap<String, CachedResponse>, k: String, c: CachedResponse)
    ensures
        cache_entries(*final(m)) == cache_entries(*old(m)).insert(k@, c@),
{
    m.insert(k, c);
}

/// `DashMap::remove`: removes `k`.
#[verifier::external_body]
fn cache_map_remove(m: &mut DashMap<String, CachedResponse>, k: &str) -> (r: bool)
    ensures
        cache_entries(*final(m)) == cache_entries(*old(m)).remove(k@),
        r == cache_entries(*old(m)).contains_key(k@),
{
    m.remove(k).is_some()
}

/// `DashMap::len`: the number of keys.
#[verifier::external_body]
fn cache_map_len(m: &DashMap<String, CachedResponse>) -> (r: usize)
    ensures
        r == cache_entries(*m).len(),
{
    m.len()
}

/// `DashMap::clear`: removes every entry.
#[verifier::external_body]
fn cache_map_clear(m: &mut DashMap<String, CachedResponse>)
    ensures
        cache_entries(*final(m)) == no_responses(),
{
    m.clear()
}

/// `DashMap::iter`, keys cloned: every key once.
#[verifier::external_body]
fn cache_map_keys(m: &DashMap<String, CachedResponse>) -> (r: Vec<String>)
    ensures
        str_views(r@).to_set() == cache_entries(*m).dom(),
        str_views(r@).no_duplicates(),
{
    m.iter().map(|e| e.key().clone()).collect()
}

/// What `xxh3_64` makes of a byte string.
pub uninterp spec fn xxh3_of(data: Seq<u8>) -> u64;

/// `xxhash_rust::xxh3::xxh3_64`: the 64-bit XXH3 hash of `data`.
#[verifier::external_body]
pub(crate) fn xxh3(data: &[u8]) -> (r: u64)
    ensures
        r == xxh3_of(data@),
{
    xxhash_rust::xxh3::xxh3_64(data)
}

/// The cache key of a request: method, `:`, path.
pub open spec fn cache_key(method: Seq<char>, path: Seq<char>) -> Seq<char> {
    method + seq![':'] + path
}

fn make_key(method: &str, path: &str) -> (r: String)
    ensures
        r@ == cache_key(method@, path@),
{
    let mut k = chars_of(method);
    k.push(':');
    let p = chars_of(path);
    push_all(&mut k, p.as_slice());
    string_of(k.as_slice())
}

/// Picks the entry to evict, given the entries' creation times and the
/// clock reading `now`: the first of the earliest, if it was made before
/// `now` (that is, the first of the oldest, if any entry has aged at all).
pub fn pick_oldest(created: &[u128], now: u128) -> (r: Option<usize>)
    ensures
        match r {
            Some(i) => {
                &&& i < created@.len()
                &&& created@[i as int] < now
                &&& forall|j: int| 0 <= j < created@.len() ==> created@[i as int] <= created@[j]
                &&& forall|j: int| 0 <= j < i ==> created@[i as int] < created@[j]
            },
            None => forall|j: int| 0 <= j < created@.len() ==> created@[j] >= now,
        },
{
    let mut best: Option<usize> = None;
    let mut best_at: u128 = now;
    let mut i: usize = 0;
    while i < created.len()
        invariant
            i <= created@.len(),
            match best {
                Some(b) => b < i && created@[b as int] == best_at && best_at < now && (forall|j: int|
                    0 <= j < b ==> best_at < created@[j]),
                None => best_at == now,
            },
            forall|j: int| 0 <= j < i ==> created@[j] >= best_at,
        decreases created.len() - i,
    {
        if created[i] < best_at {
            best_at = created[i];
            best = Some(i);
        }
        i = i + 1;
    }
    best
}

/// What purging leaves of `m` when the clock reads `now`: exactly the
/// entries younger than their time to live, unchanged.
pub open spec fn purged(
    m: Map<Seq<char>, (Seq<u8>, Seq<char>, u16, u64, u128, u128)>,
    now: u128,
    m2: Map<Seq<char>, (Seq<u8>, Seq<char>, u16, u64, u128, u128)>,
) -> bool {
    &&& m2.submap_of(m)
    &&& forall|k: Seq<char>| #[trigger] m.contains_key(k) ==> (m2.contains_key(k) <==> age_at(m[k], now) < m[k].4)
}

/// What evicting leaves of `m` when the clock reads `now`: when some
/// entry was made before `now`, one of the earliest made (the oldest)
/// goes; otherwise nothing does.
pub open spec fn evicted(
    m: Map<Seq<char>, (Seq<u8>, Seq<char>, u16, u64, u128, u128)>,
    now: u128,
    m2: Map<Seq<char>, (Seq<u8>, Seq<char>, u16, u64, u128, u128)>,
) -> bool {
    ||| (forall|k: Seq<char>| #[trigger] m.contains_key(k) ==> m[k].5 >= now) && m2 == m
    ||| exists|k: Seq<char>|
        #![trigger m.contains_key(k)]
        m.contains_key(k) && m[k].5 < now && (forall|j: Seq<char>| #[trigger] m.contains_key(j) ==> m[k].5 <= m[j].5)
            && m2 == m.remove(k)
}

/// Room made in `m` (bounded by `max`) before a put at clock reading
/// `now`: when full, an eviction; otherwise nothing changes.
pub open spec fn made_room(
    m: Map<Seq<char>, (Seq<u8>, Seq<char>, u16, u64, u128, u128)>,
    max: usize,
    now: u128,
    m1: Map<Seq<char>, (Seq<u8>, Seq<char>, u16, u64, u128, u128)>,
) -> bool {
    if m.len() >= max {
        evicted(m, now, m1)
    } else {
        m1 == m
    }
}

/// Full-response cache.
pub struct ResponseCache {
    store: DashMap<String, CachedResponse>,
    config: CacheConfig,
    clock: Clock,
}

impl View for ResponseCache {
    type V = Map<Seq<char>, (Seq<u8>, Seq<char>, u16, u64, u128, u128)>;

    closed spec fn view(&self) -> Map<Seq<char>, (Seq<u8>, Seq<char>, u16, u64, u128, u128)> {
        cache_entries(self.store)
    }
}

impl ResponseCache {
    /// Whether the cache is used.
    pub closed spec fn enabled(&self) -> bool {
        self.config.enabled
    }

    /// Most entries held.
    pub closed spec fn max_entries(&self) -> usize {
        self.config.max_entries
    }

    /// Time to live of new entries, in nanoseconds.
    pub closed spec fn ttl_nanos(&self) -> u128 {
        (self.config.ttl_ms as u128 * 1000000) as u128
    }

    /// An empty cache with this configuration.
    pub fn new(config: CacheConfig) -> (r: ResponseCache)
        ensures
            r@ == no_responses(),
            r.enabled() == config.enabled,
            r.max_entries() == config.max_entries,
            r.ttl_nanos() == (config.ttl_ms as u128 * 1000000) as u128,
    {
        let cap = if config.max_entries < 256 { config.max_entries } else { 256 };
        ResponseCache { store: cache_map_new(cap), config, clock: Clock::start() }
    }

    /// Whether the cache is enabled.
    pub fn is_enabled(&self) -> (r: bool)
        ensures
            r == self.enabled(),
    {
        self.config.enabled
    }

    /// Hash of PHP source, for invalidation (XXH3, 64 bits).
    pub fn hash_source(source: &[u8]) -> (r: u64)
        ensures
            r == xxh3_of(source@),
    {
        xxh3(source)
    }

    /// Looks up `method`+`path` as `get` does, taking `age` (nanoseconds)
    /// as the age of the entry found: a valid entry is handed back; a
    /// stale one (hash changed or too old) is dropped.
    pub fn get_aged(&mut self, method: &str, path: &str, source_hash: u64, age: u128) -> (r: Option<
        CachedResponse,
    >)
        ensures
            final(self).enabled() == old(self).enabled(),
            final(self).max_entries() == old(self).max_entries(),
            final(self).ttl_nanos() == old(self).ttl_nanos(),
            cache_lookup(old(self)@, old(self).enabled(), cache_key(method@, path@), source_hash, age, final(self)@, r),
    {
        if !self.config.enabled {
            return None;
        }
        let key = make_key(method, path);
        match cache_map_get(&self.store, key.as_str()) {
            Some(c) => {
                if c.is_valid_at(source_hash, age) {
                    return Some(c);
                }
                cache_map_remove(&mut self.store, key.as_str());
                None
            },
            None => None,
        }
    }

    /// Looks up a cached response for `method`+`path`: `Some` of a valid
    /// entry (source hash unchanged, time to live left); a stale entry is
    /// dropped.  The entry's age is read from the clock.
    pub fn get(&mut self, method: &str, path: &str, source_hash: u64) -> (r: Option<CachedResponse>)
        ensures
            final(self).enabled() == old(self).enabled(),
            final(self).max_entries() == old(self).max_entries(),
            final(self).ttl_nanos() == old(self).ttl_nanos(),
            exists|age: u128|
                cache_lookup(old(self)@, old(self).enabled(), cache_key(method@, path@), source_hash, age, final(self)@, r),
    {
        let ghost k = cache_key(method@, path@);
        if !self.config.enabled {
            assert(cache_lookup(old(self)@, old(self).enabled(), k, source_hash, 0, self@, None));
            return None;
        }
        let key = make_key(method, path);
        match cache_map_get(&self.store, key.as_str()) {
            Some(c) => {
                let age = age_of(c.created, self.clock.now_nanos());
                if c.is_valid_at(source_hash, age) {
                    let r = Some(c);
                    assert(cache_lookup(old(self)@, old(self).enabled(), k, source_hash, age, self@, r));
                    return r;
                }
                cache_map_remove(&mut self.store, key.as_str());
                assert(cache_lookup(old(self)@, old(self).enabled(), k, source_hash, age, self@, None));
                None
            },
            None => {
                assert(cache_lookup(old(self)@, old(self).enabled(), k, source_hash, 0, self@, None));
                None
            },
        }
    }

    /// The cache's clock reading: nanoseconds since the cache was made.
    pub fn now(&self) -> (r: u128) {
        self.clock.now_nanos()
    }

    /// Drops the oldest entry (the earliest made) if it was made before
    /// the clock reading `now`.
    fn evict_oldest_at(&mut self, now: u128)
        ensures
            final(self).enabled() == old(self).enabled(),
            final(self).max_entries() == old(self).max_entries(),
            final(self).ttl_nanos() == old(self).ttl_nanos(),
            evicted(old(self)@, now, final(self)@),
    {
        let ghost start = self@;
        let keys = cache_map_keys(&self.store);
        let ghost ks = str_views(keys@);
        let mut stamps: Vec<u128> = Vec::new();
        let mut i: usize = 0;
        while i < keys.len()
            invariant
                i <= keys@.len(),
                stamps@.len() == i,
                ks == str_views(keys@),
                ks.to_set() == start.dom(),
                self@ == start,
                forall|j: int| 0 <= j < i ==> #[trigger] stamps@[j] == start[ks[j]].5,
            decreases keys.len() - i,
        {
            proof {
                assert(ks[i as int] == keys@[i as int]@);
                assert(ks.to_set().contains(ks[i as int]));
            }
            let stamp = match cache_map_get(&self.store, keys[i].as_str()) {
                Some(c) => c.created,
                None => 0,
            };
            stamps.push(stamp);
            i = i + 1;
        }
        proof {
            assert forall|k: Seq<char>| start.contains_key(k) implies exists|j: int| 0 <= j < ks.len() && ks[j] == k by {
                assert(ks.to_set().contains(k));
            }
        }
        match pick_oldest(stamps.as_slice(), now) {
            Some(j) => {
                cache_map_remove(&mut self.store, keys[j].as_str());
                proof {
                    let kj = ks[j as int];
                    assert(kj == keys@[j as int]@);
                    assert(ks.to_set().contains(kj));
                    assert(start.contains_key(kj));
                    assert(stamps@[j as int] == start[kj].5);
                    assert forall|k: Seq<char>| #[trigger] start.contains_key(k) implies start[kj].5 <= start[k].5 by {
                        let jj = choose|jj: int| 0 <= jj < ks.len() && ks[jj] == k;
                        assert(stamps@[jj] == start[ks[jj]].5);
                    }
                    assert(evicted(start, now, self@));
                }
            },
            None => {
                proof {
                    assert forall|k: Seq<char>| #[trigger] start.contains_key(k) implies start[k].5 >= now by {
                        let jj = choose|jj: int| 0 <= jj < ks.len() && ks[jj] == k;
                        assert(stamps@[jj] == start[ks[jj]].5);
                    }
                    assert(evicted(start, now, self@));
                }
            },
        }
    }

    /// Stores a response as `put` does, at clock reading `now`: the entry
    /// is stamped `now`, and at capacity the oldest entry made before
    /// `now` is evicted first.
    pub fn put_at(
        &mut self,
        method: &str,
        path: &str,
        source_hash: u64,
        status: u16,
        content_type: &str,
        body: &[u8],
        now: u128,
    )
        ensures
            final(self).enabled() == old(self).enabled(),
            final(self).max_entries() == old(self).max_entries(),
            final(self).ttl_nanos() == old(self).ttl_nanos(),
            !(old(self).enabled() && method@ == "GET"@ && status == 200) ==> final(self)@ == old(self)@,
            old(self).enabled() && method@ == "GET"@ && status == 200 ==> exists|
                m1: Map<Seq<char>, (Seq<u8>, Seq<char>, u16, u64, u128, u128)>,
            |
                #[trigger] made_room(old(self)@, old(self).max_entries(), now, m1) && final(self)@ == m1.insert(
                    cache_key(method@, path@),
                    (body@, content_type@, status, source_hash, old(self).ttl_nanos(), now),
                ),
    {
        if !self.config.enabled {
            return;
        }
        let m = chars_of(method);
        let get = chars_of("GET");
        if !crate::text::chars_eq(m.as_slice(), get.as_slice()) || status != 200 {
            return;
        }
        if cache_map_len(&self.store) >= self.config.max_entries {
            self.evict_oldest_at(now);
        }
        let ghost mid = self@;
        let key = make_key(method, path);
        let ttl_nanos = (self.config.ttl_ms as u128) * 1000000;
        let c = CachedResponse {
            body: crate::text::sub_bytes(body, 0, body.len()),
            content_type: content_type.to_owned(),
            status,
            source_hash,
            ttl_nanos,
            clock: self.clock.copy(),
            created: now,
        };
        assert(body@.subrange(0, body@.len() as int) =~= body@);
        cache_map_insert(&mut self.store, key, c);
        proof {
            assert(made_room(old(self)@, old(self).max_entries(), now, mid));
        }
    }

    /// Stores a response for `method`+`path` made from source with hash
    /// `source_hash`.  Only successful (200) GET responses are cached, and
    /// only when the cache is enabled; at capacity the oldest entry is
    /// evicted first.  The entry is stamped with a clock reading, the one
    /// eviction goes by.
    pub fn put(
        &mut self,
        method: &str,
        path: &str,
        source_hash: u64,
        status: u16,
        content_type: &str,
        body: &[u8],
    )
        ensures
            final(self).enabled() == old(self).enabled(),
            final(self).max_entries() == old(self).max_entries(),
            final(self).ttl_nanos() == old(self).ttl_nanos(),
            !(old(self).enabled() && method@ == "GET"@ && status == 200) ==> final(self)@ == old(self)@,
            old(self).enabled() && method@ == "GET"@ && status == 200 ==> exists|
                now: u128,
                m1: Map<Seq<char>, (Seq<u8>, Seq<char>, u16, u64, u128, u128)>,
            |
                #[trigger] made_room(old(self)@, old(self).max_entries(), now, m1) && final(self)@ == m1.insert(
                    cache_key(method@, path@),
                    (body@, content_type@, status, source_hash, old(self).ttl_nanos(), now),
                ),
    {
        let now = self.clock.now_nanos();
        self.put_at(method, path, source_hash, status, content_type, body, now);
    }

    /// Drops the cached GET response for `path`.
    pub fn invalidate(&mut self, path: &str)
        ensures
            final(self).enabled() == old(self).enabled(),
            final(self).max_entries() == old(self).max_entries(),
            final(self).ttl_nanos() == old(self).ttl_nanos(),
            final(self)@ == old(self)@.remove(cache_key("GET"@, path@)),
    {
        let key = make_key("GET", path);
        cache_map_remove(&mut self.store, key.as_str());
    }

    /// Drops every entry.
    pub fn clear(&mut self)
        ensures
            final(self).enabled() == old(self).enabled(),
            final(self).max_entries() == old(self).max_entries(),
            final(self).ttl_nanos() == old(self).ttl_nanos(),
            final(self)@ == no_responses(),
    {
        cache_map_clear(&mut self.store)
    }

    /// Number of cached entries.
    pub fn len(&self) -> (r: usize)
        ensures
            r == self@.len(),
    {
        cache_map_len(&self.store)
    }

    /// Whether no entry is cached.
    pub fn is_empty(&self) -> (r: bool)
        ensures
            r == (self@.len() == 0),
    {
        cache_map_len(&self.store) == 0
    }

    /// Drops every entry whose time to live has run out at clock reading
    /// `now` and returns how many went.
    pub fn purge_expired_at(&mut self, now: u128) -> (r: usize)
        ensures
            final(self).enabled() == old(self).enabled(),
            final(self).max_entries() == old(self).max_entries(),
            final(self).ttl_nanos() == old(self).ttl_nanos(),
            purged(old(self)@, now, final(self)@),
            r == old(self)@.len() - final(self)@.len(),
    {
        let ghost start = self@;
        let keys = cache_map_keys(&self.store);
        let ghost ks = str_views(keys@);
        proof {
            vstd::seq_lib::seq_to_set_is_finite(ks);
        }
        let mut removed: usize = 0;
        let mut i: usize = 0;
        while i < keys.len()
            invariant
                i <= keys@.len(),
                ks == str_views(keys@),
                ks.to_set() == start.dom(),
                start.dom().finite(),
                self.config == old(self).config,
                self@.submap_of(start),
                self@.dom().finite(),
                removed + self@.len() == start.len(),
                removed <= i,
                ks.no_duplicates(),
                forall|j: int| 0 <= j < i ==> (self@.contains_key(#[trigger] ks[j]) <==> age_at(start[ks[j]], now) < start[ks[j]].4),
                forall|j: int| i <= j < ks.len() ==> self@.contains_key(#[trigger] ks[j]),
            decreases keys.len() - i,
        {
            proof {
                assert(ks[i as int] == keys@[i as int]@);
                assert forall|j: int| 0 <= j < ks.len() && j != i implies ks[j] != ks[i as int] by {}
            }
            match cache_map_get(&self.store, keys[i].as_str()) {
                Some(c) => {
                    let age = age_of(c.created, now);
                    proof {
                        assert(self@.contains_key(ks[i as int]));
                        assert(ks.contains(ks[i as int]));
                        assert(ks.to_set().contains(ks[i as int]));
                        assert(start.contains_key(ks[i as int]));
                        assert(self@[ks[i as int]] == start[ks[i as int]]);
                        assert(c@.4 == c.ttl_nanos);
                        assert(age == age_at(start[ks[i as int]], now));
                    }
                    if age >= c.ttl_nanos {
                        let ghost before = self@;
                        cache_map_remove(&mut self.store, keys[i].as_str());
                        proof {
                            assert(before.dom().contains(keys@[i as int]@));
                            assert(self@.dom() =~= before.dom().remove(keys@[i as int]@));
                        }
                        removed = removed + 1;
                    }
                },
                None => {},
            }
            i = i + 1;
        }
        proof {
            assert forall|k: Seq<char>| #[trigger] start.contains_key(k) implies (self@.contains_key(k) <==> age_at(
                start[k],
                now,
            ) < start[k].4) by {
                assert(ks.to_set().contains(k));
                let jj = choose|jj: int| 0 <= jj < ks.len() && ks[jj] == k;
            }
            assert(purged(start, now, self@));
        }
        removed
    }

    /// Drops every entry whose time to live has run out now and returns
    /// how many went; see `purge_expired_at`.
    pub fn purge_expired(&mut self) -> (r: usize)
        ensures
            final(self).enabled() == old(self).enabled(),
            final(self).max_entries() == old(self).max_entries(),
            final(self).ttl_nanos() == old(self).ttl_nanos(),
            exists|now: u128| purged(old(self)@, now, final(self)@),
            r == old(self)@.len() - final(self)@.len(),
    {
        let now = self.clock.now_nanos();
        self.purge_expired_at(now)
    }
}

impl Default for ResponseCache {
    /// An empty cache with the default configuration.
    fn default() -> (r: Self)
        ensures
            r@ == no_responses(),
            r.enabled(),
            r.max_entries() == 1024,
            r.ttl_nanos() == 30000000000,
    {
        ResponseCache::new(CacheConfig::default())
    }
}

/// What `get` at age `age` does to cache contents `m` (used when
/// `enabled`) looking for `key` with source hash `h`, ending in `m2` with
/// result `r`.
pub open spec fn cache_lookup(
    m: Map<Seq<char>, (Seq<u8>, Seq<char>, u16, u64, u128, u128)>,
    enabled: bool,
    key: Seq<char>,
    h: u64,
    age: u128,
    m2: Map<Seq<char>, (Seq<u8>, Seq<char>, u16, u64, u128, u128)>,
    r: Option<CachedResponse>,
) -> bool {
    if !enabled || !m.contains_key(key) {
        r is None && m2 == m
    } else if valid_at(m[key], h, age) {
        r matches Some(c) && c@ == m[key] && m2 == m
    } else {
        r is None && m2 == m.remove(key)
    }
}

/// A response put into an enabled cache with room to spare is read back,
/// with its body, for the same source hash while young enough.
pub proof fn lemma_put_then_get(
    m: Map<Seq<char>, (Seq<u8>, Seq<char>, u16, u64, u128, u128)>,
    key: Seq<char>,
    v: (Seq<u8>, Seq<char>, u16, u64, u128, u128),
    age: u128,
    m3: Map<Seq<char>, (Seq<u8>, Seq<char>, u16, u64, u128, u128)>,
    r: Option<CachedResponse>,
)
    requires
        cache_lookup(m.insert(key, v), true, key, v.3, age, m3, r),
        age < v.4,
    ensures
        r matches Some(c) && c@ == v,
        m3 == m.insert(key, v),
{
}

} // verus!
