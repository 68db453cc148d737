//! Shared in-memory key/value table, accessible from PHP userland.
//!
//! A process-wide map for ephemeral coordination between workers:
//! rate-limit counters, feature flags, warm-cache hints.  Values are raw
//! bytes; each entry may carry a deadline on the table's monotonic clock,
//! after which reads treat it as absent (and drop it).  The table is
//! bounded: a new key past `max_entries` is refused, while existing keys
//! can always be overwritten.  Counters are 8-byte little-endian `i64`s.
use dashmap::DashMap;

use vstd::prelude::*;

use crate::clock::{max_duration_nanos, Clock};
use crate::config::str_views;

verus! {

/// `dashmap::DashMap`, held behind the wrappers of the stores that use it.
#[verifier::external_type_specification]
#[verifier::external_body]
#[verifier::reject_recursive_types(K)]
#[verifier::reject_recursive_types(V)]
#[verifier::reject_recursive_types(S)]
pub struct ExDashMap<K, V, S>(DashMap<K, V, S>);

/// One entry of the table: its bytes and its deadline, if any.
#[derive(Clone)]
pub struct Entry {
    value: Vec<u8>,
    expires_at: Option<u128>,
}

/// An entry as the table's view holds it.
pub open spec fn entry_view(value: Seq<u8>, expires_at: Option<u128>) -> (Seq<u8>, Option<u128>) {
    (value, expires_at)
}

/// A deadline has passed at `now`.
pub open spec fn expired(deadline: Option<u128>, now: u128) -> bool {
    match deadline {
        Some(d) => now >= d,
        None => false,
    }
}

impl Entry {
    /// Whether the entry's deadline has passed at `now`.
    fn is_expired(&self, now: u128) -> (r: bool)
        ensures
            r == expired(self.expires_at, now),
    {
        match self.expires_at {
            Some(d) => now >= d,
            None => false,
        }
    }
}

/// A table without entries.
pub open spec fn no_entries() -> Map<Seq<char>, (Seq<u8>, Option<u128>)> {
    Map::empty()
}

/// What a `DashMap` of table entries holds, by key.
pub uninterp spec fn table_entries(m: DashMap<String, Entry>) -> Map<Seq<char>, (Seq<u8>, Option<u128>)>;

/// `DashMap::with_capacity`: an empty map.
#[verifier::external_body]
fn table_map_new(capacity: usize) -> (r: DashMap<String, Entry>)
    ensures
        table_entries(r) == no_entries(),
{
    DashMap::with_capacity(capacity)
}

/// `DashMap::get`, the entry cloned: the entry under `k`, if any.
#[verifier::external_body]
fn table_map_get(m: &DashMap<String, Entry>, k: &str) -> (r: Option<Entry>)
    ensures
        match r {
            Some(e) => table_entries(*m).contains_key(k@) && table_entries(*m)[k@] == entry_view(
                e.value@,
                e.expires_at,
            ),
            None => !table_entries(*m).contains_key(k@),
        },
{
    m.get(k).map(|e| e.value().clone())
}

/// `DashMap::insert`: maps `k` to `e`, replacing any earlier entry.
#[verifier::external_body]
fn table_map_insert(m: &mut DashMap<String, Entry>, k: String, e: Entry)
    ensures
        table_entries(*final(m)) == table_entries(*old(m)).insert(k@, entry_view(e.value@, e.expires_at)),
{
    m.insert(k, e);
}

/// `DashMap::remove`: removes `k`, handing back its entry.
#[verifier::external_body]
fn table_map_remove(m: &mut DashMap<String, Entry>, k: &str) -> (r: Option<Entry>)
    ensures
        table_entries(*final(m)) == table_entries(*old(m)).remove(k@),
        match r {
            Some(e) => table_entries(*old(m)).contains_key(k@) && table_entries(*old(m))[k@]
                == entry_view(e.value@, e.expires_at),
            None => !table_entries(*old(m)).contains_key(k@),
        },
{
    m.remove(k).map(|(_, e)| e)
}

/// `DashMap::len`: the number of keys.
#[verifier::external_body]
fn table_map_len(m: &DashMap<String, Entry>) -> (r: usize)
    ensures
        r == table_entries(*m).len(),
{
    m.len()
}

/// `DashMap::clear`: removes every entry.
#[verifier::external_body]
fn table_map_clear(m: &mut DashMap<String, Entry>)
    ensures
        table_entries(*final(m)) == no_entries(),
{
    m.clear()
}

/// `DashMap::iter`, keys cloned: every key once.
#[verifier::external_body]
fn table_map_keys(m: &DashMap<String, Entry>) -> (r: Vec<String>)
    ensures
        str_views(r@).to_set() == table_entries(*m).dom(),
        str_views(r@).no_duplicates(),
{
    m.iter().map(|e| e.key().clone()).collect()
}

/// Errors of table operations.
#[derive(Debug)]
pub enum TableError {
    /// The key is new and the table holds `max_entries` keys already.
    Full(usize),
    /// The value under the key is not an 8-byte counter.
    NotACounter(String),
}

/// The 8 little-endian bytes of a counter (`i64::to_le_bytes`).
pub open spec fn counter_bytes(v: i64) -> Seq<u8> {
    let u = v as u64;
    seq![
        u as u8,
        (u >> 8u64) as u8,
        (u >> 16u64) as u8,
        (u >> 24u64) as u8,
        (u >> 32u64) as u8,
        (u >> 40u64) as u8,
        (u >> 48u64) as u8,
        (u >> 56u64) as u8,
    ]
}

/// The counter 8 little-endian bytes hold (`i64::from_le_bytes`).
pub open spec fn counter_value(b: Seq<u8>) -> i64 {
    ((b[0] as u64) | ((b[1] as u64) << 8u64) | ((b[2] as u64) << 16u64) | ((b[3] as u64) << 24u64)
        | ((b[4] as u64) << 32u64) | ((b[5] as u64) << 40u64) | ((b[6] as u64) << 48u64) | ((
    b[7] as u64) << 56u64)) as i64
}

proof fn lemma_u64_bytes(u: u64)
    ensures
        ((u as u8) as u64 | (((u >> 8u64) as u8) as u64) << 8u64 | (((u >> 16u64) as u8) as u64)
            << 16u64 | (((u >> 24u64) as u8) as u64) << 24u64 | (((u >> 32u64) as u8) as u64)
            << 32u64 | (((u >> 40u64) as u8) as u64) << 40u64 | (((u >> 48u64) as u8) as u64)
            << 48u64 | (((u >> 56u64) as u8) as u64) << 56u64) == u,
{
    assert(((u as u8) as u64 | (((u >> 8u64) as u8) as u64) << 8u64 | (((u >> 16u64) as u8) as u64)
        << 16u64 | (((u >> 24u64) as u8) as u64) << 24u64 | (((u >> 32u64) as u8) as u64) << 32u64
        | (((u >> 40u64) as u8) as u64) << 40u64 | (((u >> 48u64) as u8) as u64) << 48u64 | (((u
        >> 56u64) as u8) as u64) << 56u64) == u) by (bit_vector);
}

/// A counter read back from its bytes is the counter that was written.
pub proof fn lemma_counter_roundtrip(v: i64)
    ensures
        counter_bytes(v).len() == 8,
        counter_value(counter_bytes(v)) == v,
{
    let u = v as u64;
    lemma_u64_bytes(u);
    assert((u as i64) == v) by (bit_vector)
        requires
            u == v as u64,
    ;
}

/// The bytes of a counter.
pub fn counter_to_bytes(v: i64) -> (r: Vec<u8>)
    ensures
        r@ == counter_bytes(v),
{
    let u = v as u64;
    let r: Vec<u8> = vec![
        u as u8,
        (u >> 8u64) as u8,
        (u >> 16u64) as u8,
        (u >> 24u64) as u8,
        (u >> 32u64) as u8,
        (u >> 40u64) as u8,
        (u >> 48u64) as u8,
        (u >> 56u64) as u8,
    ];
    assert(r@ =~= counter_bytes(v));
    r
}

/// The counter 8 bytes hold.
pub fn counter_from_bytes(b: &[u8]) -> (r: i64)
    requires
        b@.len() == 8,
    ensures
        r == counter_value(b@),
{
    ((b[0] as u64) | ((b[1] as u64) << 8u64) | ((b[2] as u64) << 16u64) | ((b[3] as u64) << 24u64)
        | ((b[4] as u64) << 32u64) | ((b[5] as u64) << 40u64) | ((b[6] as u64) << 48u64) | ((
    b[7] as u64) << 56u64)) as i64
}

/// The deadline of a write at `now` with an optional time to live in
/// milliseconds.
pub open spec fn deadline_of(ttl_ms: Option<u64>, now: u128) -> Option<u128> {
    match ttl_ms {
        Some(ms) => Some((now + ms * 1000000) as u128),
        None => None,
    }
}

/// Shared key/value table.
pub struct SharedTable {
    map: DashMap<String, Entry>,
    max_entries: usize,
    evictions: u64,
    clock: Clock,
}

impl View for SharedTable {
    type V = Map<Seq<char>, (Seq<u8>, Option<u128>)>;

    closed spec fn view(&self) -> Map<Seq<char>, (Seq<u8>, Option<u128>)> {
        table_entries(self.map)
    }
}

impl SharedTable {
    /// The most keys the table holds.
    pub closed spec fn capacity(&self) -> usize {
        self.max_entries
    }

    /// The number of entries the sweeper has dropped.
    pub closed spec fn evicted(&self) -> u64 {
        self.evictions
    }

    /// The table holds finitely many keys, and no more than its capacity.
    pub open spec fn bounded(&self) -> bool {
        &&& self@.dom().finite()
        &&& self@.len() <= self.capacity()
    }

    /// The table's clock reading: nanoseconds since the table was made.
    pub fn now(&self) -> (r: u128)
        ensures
            r <= max_duration_nanos(),
    {
        self.clock.now_nanos()
    }

    /// An empty table bounded to `max_entries` keys.
    pub fn new(max_entries: usize) -> (r: SharedTable)
        ensures
            r@ == Map::<Seq<char>, (Seq<u8>, Option<u128>)>::empty(),
            r.capacity() == max_entries,
            r.evicted() == 0,
            r.bounded(),
    {
        let cap = if max_entries < 1024 { max_entries } else { 1024 };
        SharedTable { map: table_map_new(cap), max_entries, evictions: 0, clock: Clock::start() }
    }

    /// Writes `value` under `key` at time `now` (nanoseconds on the
    /// table's clock), expiring `ttl_ms` milliseconds later if given.  A
    /// new key is refused with `Full` when the table is at capacity.
    pub fn set_at(&mut self, key: String, value: Vec<u8>, ttl_ms: Option<u64>, now: u128) -> (r:
        Result<(), TableError>)
        requires
            now <= max_duration_nanos(),
        ensures
            final(self).capacity() == old(self).capacity(),
            old(self).bounded() ==> final(self).bounded(),
            final(self).evicted() == old(self).evicted(),
            match r {
                Ok(()) => final(self)@ == old(self)@.insert(key@, (value@, deadline_of(ttl_ms, now))),
                Err(TableError::Full(n)) => {
                    &&& n == old(self).capacity()
                    &&& !old(self)@.contains_key(key@)
                    &&& old(self)@.len() >= old(self).capacity()
                    &&& final(self)@ == old(self)@
                },
                Err(TableError::NotACounter(_)) => false,
            },
            r is Err <==> (!old(self)@.contains_key(key@) && old(self)@.len() >= old(self).capacity()),
    {
        let deadline = match ttl_ms {
            Some(ms) => Some(now + (ms as u128) * 1000000),
            None => None,
        };
        match table_map_get(&self.map, key.as_str()) {
            Some(_) => {
                table_map_insert(&mut self.map, key, Entry { value, expires_at: deadline });
                return Ok(());
            },
            None => {},
        }
        if table_map_len(&self.map) >= self.max_entries {
            return Err(TableError::Full(self.max_entries));
        }
        table_map_insert(&mut self.map, key, Entry { value, expires_at: deadline });
        Ok(())
    }

    /// Writes `value` under `key` now; see `set_at`.
    pub fn set(&mut self, key: String, value: Vec<u8>, ttl_ms: Option<u64>) -> (r: Result<(), TableError>)
        ensures
            final(self).capacity() == old(self).capacity(),
            old(self).bounded() ==> final(self).bounded(),
            r is Err <==> (!old(self)@.contains_key(key@) && old(self)@.len() >= old(self).capacity()),
            r is Ok ==> exists|now: u128|
                final(self)@ == old(self)@.insert(key@, (value@, deadline_of(ttl_ms, now))),
            r is Err ==> final(self)@ == old(self)@,
            r matches Err(TableError::Full(n)) ==> n == old(self).capacity(),
            !(r matches Err(TableError::NotACounter(_))),
    {
        let now = self.clock.now_nanos();
        self.set_at(key, value, ttl_ms, now)
    }

    /// Reads `key` at time `now`: its bytes unless absent or expired.  An
    /// expired entry is dropped.
    pub fn get_at(&mut self, key: &str, now: u128) -> (r: Option<Vec<u8>>)
        ensures
            final(self).capacity() == old(self).capacity(),
            old(self).bounded() ==> final(self).bounded(),
            final(self).evicted() == old(self).evicted(),
            match r {
                Some(v) => old(self)@.contains_key(key@) && v@ == old(self)@[key@].0 && !expired(
                    old(self)@[key@].1,
                    now,
                ) && final(self)@ == old(self)@,
                None => !old(self)@.contains_key(key@) || expired(old(self)@[key@].1, now),
            },
            r is None ==> final(self)@ == old(self)@.remove(key@),
    {
        match table_map_get(&self.map, key) {
            Some(e) => {
                if !e.is_expired(now) {
                    return Some(e.value);
                }
                table_map_remove(&mut self.map, key);
                None
            },
            None => {
                assert(old(self)@.remove(key@) =~= old(self)@);
                None
            },
        }
    }

    /// Reads `key` now; see `get_at`.
    pub fn get(&mut self, key: &str) -> (r: Option<Vec<u8>>)
        ensures
            final(self).capacity() == old(self).capacity(),
            old(self).bounded() ==> final(self).bounded(),
            r matches Some(v) ==> old(self)@.contains_key(key@) && v@ == old(self)@[key@].0
                && final(self)@ == old(self)@,
            !old(self)@.contains_key(key@) ==> r is None && final(self)@ == old(self)@,
            old(self)@.contains_key(key@) && old(self)@[key@].1 is None ==> r is Some,
            r is None ==> final(self)@ == old(self)@.remove(key@),
    {
        let now = self.clock.now_nanos();
        self.get_at(key, now)
    }

    /// Deletes `key` at time `now`: whether it was present and unexpired.
    pub fn del_at(&mut self, key: &str, now: u128) -> (r: bool)
        ensures
            final(self).capacity() == old(self).capacity(),
            old(self).bounded() ==> final(self).bounded(),
            final(self).evicted() == old(self).evicted(),
            final(self)@ == old(self)@.remove(key@),
            r == (old(self)@.contains_key(key@) && !expired(old(self)@[key@].1, now)),
    {
        match table_map_remove(&mut self.map, key) {
            Some(e) => !e.is_expired(now),
            None => false,
        }
    }

    /// Deletes `key` now; see `del_at`.
    pub fn del(&mut self, key: &str) -> (r: bool)
        ensures
            final(self).capacity() == old(self).capacity(),
            old(self).bounded() ==> final(self).bounded(),
            final(self)@ == old(self)@.remove(key@),
            r ==> old(self)@.contains_key(key@),
            old(self)@.contains_key(key@) && old(self)@[key@].1 is None ==> r,
    {
        let now = self.clock.now_nanos();
        self.del_at(key, now)
    }

    /// Whether `key` reads as present now.
    pub fn key_exists(&mut self, key: &str) -> (r: bool)
        ensures
            final(self).capacity() == old(self).capacity(),
            old(self).bounded() ==> final(self).bounded(),
            r ==> old(self)@.contains_key(key@) && final(self)@ == old(self)@,
            !old(self)@.contains_key(key@) ==> !r,
            old(self)@.contains_key(key@) && old(self)@[key@].1 is None ==> r,
    {
        self.get(key).is_some()
    }

    /// Adds `delta` (wrapping) to the counter under `key` at time `now`
    /// and returns the new value.  An absent key starts at `delta` (unless
    /// the table is full); an expired entry restarts at `delta` without a
    /// deadline; a value that is not 8 bytes is refused.
    pub fn incr_at(&mut self, key: &str, delta: i64, now: u128) -> (r: Result<i64, TableError>)
        ensures
            final(self).capacity() == old(self).capacity(),
            old(self).bounded() ==> final(self).bounded(),
            final(self).evicted() == old(self).evicted(),
            incr_outcome(old(self)@, old(self).capacity(), key@, delta, now, final(self)@, r),
    {
        match table_map_get(&self.map, key) {
            Some(e) => {
                if e.is_expired(now) {
                    let b = counter_to_bytes(delta);
                    table_map_insert(&mut self.map, key.to_owned(), Entry { value: b, expires_at: None });
                    return Ok(delta);
                }
                if e.value.len() != 8 {
                    return Err(TableError::NotACounter(key.to_owned()));
                }
                let cur = counter_from_bytes(e.value.as_slice());
                let new = cur.wrapping_add(delta);
                let b = counter_to_bytes(new);
                table_map_insert(&mut self.map, key.to_owned(), Entry { value: b, expires_at: e.expires_at });
                Ok(new)
            },
            None => {
                if table_map_len(&self.map) >= self.max_entries {
                    return Err(TableError::Full(self.max_entries));
                }
                let b = counter_to_bytes(delta);
                table_map_insert(&mut self.map, key.to_owned(), Entry { value: b, expires_at: None });
                Ok(delta)
            },
        }
    }

    /// Adds `delta` to the counter under `key` now; see `incr_at`.
    pub fn incr(&mut self, key: &str, delta: i64) -> (r: Result<i64, TableError>)
        ensures
            final(self).capacity() == old(self).capacity(),
            old(self).bounded() ==> final(self).bounded(),
            exists|now: u128| incr_outcome(old(self)@, old(self).capacity(), key@, delta, now, final(self)@, r),
    {
        let now = self.clock.now_nanos();
        self.incr_at(key, delta, now)
    }

    /// The number of entries, expired ones not yet dropped included.
    pub fn size(&self) -> (r: usize)
        ensures
            r == self@.len(),
    {
        table_map_len(&self.map)
    }

    /// Drops every entry and returns how many there were.
    pub fn clear(&mut self) -> (r: usize)
        ensures
            final(self).capacity() == old(self).capacity(),
            old(self).bounded() ==> final(self).bounded(),
            final(self).evicted() == old(self).evicted(),
            r == old(self)@.len(),
            final(self)@ == Map::<Seq<char>, (Seq<u8>, Option<u128>)>::empty(),
    {
        let n = table_map_len(&self.map);
        table_map_clear(&mut self.map);
        n
    }

    /// The number of entries the sweeper has dropped so far.
    pub fn evictions(&self) -> (r: u64)
        ensures
            r == self.evicted(),
    {
        self.evictions
    }

    /// Drops every entry expired at `now` and returns how many went; the
    /// eviction count grows (wrapping) by as many.
    pub fn sweep_expired_at(&mut self, now: u128) -> (r: usize)
        ensures
            final(self).capacity() == old(self).capacity(),
            old(self).bounded() ==> final(self).bounded(),
            final(self)@ == swept(old(self)@, now),
            r == old(self)@.len() - final(self)@.len(),
            final(self).evicted() == (old(self).evicted() as u64).wrapping_add(r as u64),
    {
        let ghost start = self@;
        let n0 = table_map_len(&self.map);
        let keys = table_map_keys(&self.map);
        let ghost ks = str_views(keys@);
        let mut removed: usize = 0;
        let mut i: usize = 0;
        proof {
            vstd::seq_lib::seq_to_set_is_finite(ks);
            assert(ks.to_set() == start.dom());
        }
        while i < keys.len()
            invariant
                i <= keys@.len(),
                ks == str_views(keys@),
                ks.no_duplicates(),
                ks.to_set() == start.dom(),
                start.dom().finite(),
                n0 == start.len(),
                self.max_entries == old(self).max_entries,
                self.evictions == old(self).evictions,
                table_entries(self.map) == sweep_upto(start, ks, i as int, now),
                table_entries(self.map).dom().finite(),
                removed + table_entries(self.map).len() == start.len(),
            decreases keys.len() - i,
        {
            proof {
                lemma_sweep_step(start, ks, i as int, now);
            }
            match table_map_get(&self.map, keys[i].as_str()) {
                Some(e) => {
                    if e.is_expired(now) {
                        table_map_remove(&mut self.map, keys[i].as_str());
                        removed = removed + 1;
                    }
                },
                None => {},
            }
            i = i + 1;
        }
        proof {
            lemma_sweep_all(start, ks, now);
        }
        self.evictions = self.evictions.wrapping_add(removed as u64);
        removed
    }

    /// Drops every entry expired now; see `sweep_expired_at`.
    pub fn sweep_expired(&mut self) -> (r: usize)
        ensures
            final(self).capacity() == old(self).capacity(),
            old(self).bounded() ==> final(self).bounded(),
            exists|now: u128| final(self)@ == swept(old(self)@, now),
            r == old(self)@.len() - final(self)@.len(),
            final(self).evicted() == (old(self).evicted() as u64).wrapping_add(r as u64),
    {
        let now = self.clock.now_nanos();
        self.sweep_expired_at(now)
    }
}

/// The entries of `m` that have not expired at `now`.
pub open spec fn swept(m: Map<Seq<char>, (Seq<u8>, Option<u128>)>, now: u128) -> Map<
    Seq<char>,
    (Seq<u8>, Option<u128>),
> {
    m.restrict(m.dom().filter(|k: Seq<char>| !expired(m[k].1, now)))
}

/// `m` with the expired entries among the first `i` keys dropped.
pub open spec fn sweep_upto(
    m: Map<Seq<char>, (Seq<u8>, Option<u128>)>,
    ks: Seq<Seq<char>>,
    i: int,
    now: u128,
) -> Map<Seq<char>, (Seq<u8>, Option<u128>)> {
    m.restrict(m.dom().filter(|k: Seq<char>| !(ks.take(i).contains(k) && expired(m[k].1, now))))
}

proof fn lemma_sweep_step(
    m: Map<Seq<char>, (Seq<u8>, Option<u128>)>,
    ks: Seq<Seq<char>>,
    i: int,
    now: u128,
)
    requires
        0 <= i < ks.len(),
        ks.no_duplicates(),
        ks.to_set() == m.dom(),
    ensures
        ks.take(i + 1).contains(ks[i]),
        !ks.take(i).contains(ks[i]),
        m.contains_key(ks[i]),
        sweep_upto(m, ks, i + 1, now) == (if expired(m[ks[i]].1, now) {
            sweep_upto(m, ks, i, now).remove(ks[i])
        } else {
            sweep_upto(m, ks, i, now)
        }),
        sweep_upto(m, ks, i, now).contains_key(ks[i]),
        sweep_upto(m, ks, i, now)[ks[i]] == m[ks[i]],
{
    let t1 = ks.take(i + 1);
    let t0 = ks.take(i);
    assert(t1[i] == ks[i]);
    assert(ks.to_set().contains(ks[i]));
    if t0.contains(ks[i]) {
        let j = choose|j: int| 0 <= j < t0.len() && #[trigger] t0[j] == ks[i];
        assert(ks[j] == ks[i]);
    }
    assert forall|k: Seq<char>| #[trigger] t1.contains(k) == (t0.contains(k) || k == ks[i]) by {
        if t1.contains(k) {
            let j = choose|j: int| 0 <= j < t1.len() && #[trigger] t1[j] == k;
            if j < i {
                assert(t0[j] == k);
            }
        }
        if t0.contains(k) {
            let j = choose|j: int| 0 <= j < t0.len() && #[trigger] t0[j] == k;
            assert(t1[j] == k);
        }
    }
    let a = sweep_upto(m, ks, i + 1, now);
    let b = sweep_upto(m, ks, i, now);
    if expired(m[ks[i]].1, now) {
        assert(a =~= b.remove(ks[i]));
    } else {
        assert(a =~= b);
    }
}

proof fn lemma_sweep_all(m: Map<Seq<char>, (Seq<u8>, Option<u128>)>, ks: Seq<Seq<char>>, now: u128)
    requires
        ks.to_set() == m.dom(),
    ensures
        sweep_upto(m, ks, ks.len() as int, now) == swept(m, now),
{
    assert(ks.take(ks.len() as int) =~= ks);
    assert forall|k: Seq<char>| m.dom().contains(k) implies #[trigger] ks.contains(k) by {
        assert(ks.to_set().contains(k));
    }
    assert(sweep_upto(m, ks, ks.len() as int, now) =~= swept(m, now));
}

/// What `incr_at` does to table `m` (bounded to `cap` keys) at `now`,
/// ending in `m2` with result `r`.
pub open spec fn incr_outcome(
    m: Map<Seq<char>, (Seq<u8>, Option<u128>)>,
    cap: usize,
    key: Seq<char>,
    delta: i64,
    now: u128,
    m2: Map<Seq<char>, (Seq<u8>, Option<u128>)>,
    r: Result<i64, TableError>,
) -> bool {
    if !m.contains_key(key) {
        if m.len() >= cap {
            r matches Err(TableError::Full(n)) && n == cap && m2 == m
        } else {
            r == Ok::<i64, TableError>(delta) && m2 == m.insert(key, (counter_bytes(delta), None))
        }
    } else if expired(m[key].1, now) {
        r == Ok::<i64, TableError>(delta) && m2 == m.insert(key, (counter_bytes(delta), None))
    } else if m[key].0.len() != 8 {
        r matches Err(TableError::NotACounter(k)) && k@ == key && m2 == m
    } else {
        let new = counter_value(m[key].0).wrapping_add(delta);
        r == Ok::<i64, TableError>(new) && m2 == m.insert(key, (counter_bytes(new), m[key].1))
    }
}

/// What a write stores is what a read gives back: after `set` of `value`
/// under `key` at `now`, a read at any later time before the deadline
/// (at any time, without a TTL) finds `value`; once the deadline has
/// passed the entry reads as absent; and after `del` the key is gone.
pub proof fn lemma_write_then_read(
    m: Map<Seq<char>, (Seq<u8>, Option<u128>)>,
    key: Seq<char>,
    value: Seq<u8>,
    ttl_ms: Option<u64>,
    now: u128,
    later: u128,
)
    requires
        now <= max_duration_nanos(),
    ensures
        ({
            let m2 = m.insert(key, (value, deadline_of(ttl_ms, now)));
            &&& m2.contains_key(key)
            &&& m2[key].0 == value
            &&& (match ttl_ms {
                Some(ms) => expired(m2[key].1, later) <==> later >= now + ms * 1_000_000,
                None => !expired(m2[key].1, later),
            })
        }),
        !m.remove(key).contains_key(key),
{
    if let Some(ms) = ttl_ms {
        assert(ms * 1_000_000 <= 18_446_744_073_709_551_615 * 1_000_000);
    }
}

/// What `set_at` promises, taken together: a write is accepted exactly
/// when the key is present or the table has room (else it is refused and
/// the table stays as it was); an accepted write keeps a bounded table
/// within its capacity, and reads back the written value at any time
/// before its deadline (at any time, without a time to live).
pub proof fn lemma_set_law(
    m: Map<Seq<char>, (Seq<u8>, Option<u128>)>,
    cap: usize,
    key: Seq<char>,
    value: Seq<u8>,
    ttl_ms: Option<u64>,
    now: u128,
    later: u128,
)
    requires
        m.dom().finite(),
        m.len() <= cap,
        now <= max_duration_nanos(),
    ensures
        ({
            let m2 = m.insert(key, (value, deadline_of(ttl_ms, now)));
            (m.contains_key(key) || m.len() < cap) ==> {
                &&& m2.dom().finite()
                &&& m2.len() <= cap
                &&& m2.contains_key(key)
                &&& m2[key].0 == value
                &&& (match ttl_ms {
                    Some(ms) => later < now + ms * 1_000_000 ==> !expired(m2[key].1, later),
                    None => !expired(m2[key].1, later),
                })
            }
        }),
{
    lemma_write_then_read(m, key, value, ttl_ms, now, later);
}

/// A counter written and read back holds the written value, and adding
/// to it adds (wrapping) to that value.
pub proof fn lemma_incr_reads_back(
    m: Map<Seq<char>, (Seq<u8>, Option<u128>)>,
    cap: usize,
    key: Seq<char>,
    delta: i64,
    now: u128,
    m2: Map<Seq<char>, (Seq<u8>, Option<u128>)>,
    r: Result<i64, TableError>,
)
    requires
        incr_outcome(m, cap, key, delta, now, m2, r),
        r is Ok,
    ensures
        m2.contains_key(key),
        counter_value(m2[key].0) == r->Ok_0,
        m2[key].0.len() == 8,
{
    lemma_counter_roundtrip(r->Ok_0);
}

} // verus!
