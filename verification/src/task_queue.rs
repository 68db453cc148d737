//! In-process task queue, accessible from PHP userland.
//!
//! Producers push jobs onto named channels; consumers pop them in FIFO
//! order.  Channels are bounded (pushes past the capacity are refused and
//! counted), and so is the number of channels (a push that would create
//! one too many is refused).  Job ids come from a process-wide counter.
//! Waiting for a job to arrive is left to the caller: `try_pop` never
//! blocks.
use std::collections::VecDeque;

use dashmap::DashMap;

use vstd::prelude::*;

use crate::clock::{max_duration_nanos, Clock};

verus! {

/// A queued job.
#[derive(Clone)]
pub struct Job {
    /// Process-wide identifier, increasing with each push.
    pub id: u64,
    /// Opaque payload from the producer.
    pub payload: Vec<u8>,
    /// When the job was queued, in nanoseconds on the queue's clock.
    pub enqueued_at: u128,
}

/// A job as the queue's view holds it: id, payload, enqueue time.
pub open spec fn job_view(j: Job) -> (u64, Seq<u8>, u128) {
    (j.id, j.payload@, j.enqueued_at)
}

/// The jobs of a channel and its capacity.
#[derive(Clone)]
pub struct ChannelState {
    queue: VecDeque<Job>,
    capacity: usize,
}

/// A channel as the queue's view holds it: its jobs, front first, and
/// its capacity.
pub closed spec fn channel_view(c: ChannelState) -> (Seq<(u64, Seq<u8>, u128)>, usize) {
    (c.queue@.map_values(|j: Job| job_view(j)), c.capacity)
}

/// Number of jobs in a channel.
pub fn channel_len(c: &ChannelState) -> (r: usize)
    ensures
        r == channel_view(*c).0.len(),
{
    c.queue.len()
}

/// Errors of the task queue.
#[derive(Debug)]
pub enum QueueError {
    /// The channel holds as many jobs as its capacity allows.
    Full(String, usize),
    /// The queue holds as many channels as it may.
    TooManyChannels(usize),
}

/// Running totals of the queue.
#[derive(Clone, Copy, Debug)]
pub struct QueueStats {
    pub channels: usize,
    pub pushed: u64,
    pub popped: u64,
    pub rejected: u64,
}

/// What a `DashMap` of channels holds, by name.
pub uninterp spec fn queue_channels(m: DashMap<String, ChannelState>) -> Map<
    Seq<char>,
    (Seq<(u64, Seq<u8>, u128)>, usize),
>;

/// A queue without channels.
pub open spec fn no_channels() -> Map<Seq<char>, (Seq<(u64, Seq<u8>, u128)>, usize)> {
    Map::empty()
}

/// `DashMap::new`: an empty map.
#[verifier::external_body]
fn chan_map_new() -> (r: DashMap<String, ChannelState>)
    ensures
        queue_channels(r) == no_channels(),
{
    DashMap::new()
}

/// `DashMap::contains_key`.
#[verifier::external_body]
fn chan_map_contains(m: &DashMap<String, ChannelState>, k: &str) -> (r: bool)
    ensures
        r == queue_channels(*m).contains_key(k@),
{
    m.contains_key(k)
}

/// `DashMap::get`, the channel cloned (a derived clone: same jobs, same
/// capacity).
#[verifier::external_body]
fn chan_map_get(m: &DashMap<String, ChannelState>, k: &str) -> (r: Option<ChannelState>)
    ensures
        match r {
            Some(c) => queue_channels(*m).contains_key(k@) && queue_channels(*m)[k@] == channel_view(c),
            None => !queue_channels(*m).contains_key(k@),
        },
{
    m.get(k).map(|c| c.value().clone())
}

/// `DashMap::remove`: removes `k`, handing back its channel.
#[verifier::external_body]
fn chan_map_remove(m: &mut DashMap<String, ChannelState>, k: &str) -> (r: Option<ChannelState>)
    ensures
        queue_channels(*final(m)) == queue_channels(*old(m)).remove(k@),
        match r {
            Some(c) => queue_channels(*old(m)).contains_key(k@) && queue_channels(*old(m))[k@]
                == channel_view(c),
            None => !queue_channels(*old(m)).contains_key(k@),
        },
{
    m.remove(k).map(|(_, c)| c)
}

/// `DashMap::insert`: maps `k` to `c`.
#[verifier::external_body]
fn chan_map_insert(m: &mut DashMap<String, ChannelState>, k: String, c: ChannelState)
    ensures
        queue_channels(*final(m)) == queue_channels(*old(m)).insert(k@, channel_view(c)),
{
    m.insert(k, c);
}

/// `DashMap::len`: the number of channels.
#[verifier::external_body]
fn chan_map_len(m: &DashMap<String, ChannelState>) -> (r: usize)
    ensures
        r == queue_channels(*m).len(),
{
    m.len()
}

/// Process-wide task queue.
pub struct TaskQueue {
    channels: DashMap<String, ChannelState>,
    max_channels: usize,
    default_channel_capacity: usize,
    next_id: u64,
    total_pushed: u64,
    total_popped: u64,
    total_rejected: u64,
    clock: Clock,
}

/// The queue's counters: next id, pushed, popped, rejected.
pub closed spec fn counters_of(q: TaskQueue) -> (u64, u64, u64, u64) {
    (q.next_id, q.total_pushed, q.total_popped, q.total_rejected)
}

impl View for TaskQueue {
    type V = Map<Seq<char>, (Seq<(u64, Seq<u8>, u128)>, usize)>;

    closed spec fn view(&self) -> Map<Seq<char>, (Seq<(u64, Seq<u8>, u128)>, usize)> {
        queue_channels(self.channels)
    }
}

impl TaskQueue {
    /// Most channels.
    pub closed spec fn max_channels(&self) -> usize {
        self.max_channels
    }

    /// Capacity of a new channel.
    pub closed spec fn channel_capacity(&self) -> usize {
        self.default_channel_capacity
    }

    /// The id the next push takes.
    pub closed spec fn next_id(&self) -> u64 {
        self.next_id
    }

    /// Jobs pushed, popped and refused for a full channel.
    pub closed spec fn totals(&self) -> (u64, u64, u64) {
        (self.total_pushed, self.total_popped, self.total_rejected)
    }

    /// The queue's clock reading: nanoseconds since the queue was made.
    pub fn now(&self) -> (r: u128)
        ensures
            r <= max_duration_nanos(),
    {
        self.clock.now_nanos()
    }

    /// An empty queue with these bounds; ids start at 1.
    pub fn new(max_channels: usize, default_channel_capacity: usize) -> (r: TaskQueue)
        ensures
            r@ == no_channels(),
            r.max_channels() == max_channels,
            r.channel_capacity() == default_channel_capacity,
            r.next_id() == 1,
            r.totals() == (0u64, 0u64, 0u64),
    {
        TaskQueue {
            channels: chan_map_new(),
            max_channels,
            default_channel_capacity,
            next_id: 1,
            total_pushed: 0,
            total_popped: 0,
            total_rejected: 0,
            clock: Clock::start(),
        }
    }

    /// Pushes a job with `payload` onto `channel` at time `now`, creating
    /// the channel (with the default capacity) if it is new and the
    /// channel bound allows.  The job takes the next id even when the
    /// channel turns out to be full.
    pub fn push_at(&mut self, channel: &str, payload: Vec<u8>, now: u128) -> (r: Result<u64, QueueError>)
        ensures
            final(self).max_channels() == old(self).max_channels(),
            final(self).channel_capacity() == old(self).channel_capacity(),
            push_outcome(*old(self), channel@, payload@, now, *final(self), r),
    {
        let existing = chan_map_remove(&mut self.channels, channel);
        let mut ch = match existing {
            Some(c) => c,
            None => {
                assert(self@ =~= old(self)@);
                if chan_map_len(&self.channels) >= self.max_channels {
                    return Err(QueueError::TooManyChannels(self.max_channels));
                }
                let c = ChannelState { queue: VecDeque::new(), capacity: self.default_channel_capacity };
                assert(channel_view(c).0 =~= Seq::<(u64, Seq<u8>, u128)>::empty());
                c
            },
        };
        let ghost cv = channel_view(ch);
        assert(self@ =~= old(self)@.remove(channel@));
        let id = self.next_id;
        self.next_id = self.next_id.wrapping_add(1);
        if ch.queue.len() >= ch.capacity {
            self.total_rejected = self.total_rejected.wrapping_add(1);
            let cap = ch.capacity;
            chan_map_insert(&mut self.channels, channel.to_owned(), ch);
            assert(self@ =~= old(self)@.insert(channel@, cv));
            return Err(QueueError::Full(channel.to_owned(), cap));
        }
        let ghost before = ch;
        ch.queue.push_back(Job { id, payload, enqueued_at: now });
        assert(channel_view(ch).0 =~= channel_view(before).0.push((id, payload@, now)));
        chan_map_insert(&mut self.channels, channel.to_owned(), ch);
        assert(self@ =~= old(self)@.insert(channel@, (cv.0.push((id, payload@, now)), cv.1)));
        self.total_pushed = self.total_pushed.wrapping_add(1);
        Ok(id)
    }

    /// Pushes a job onto `channel` now; see `push_at`.
    pub fn push(&mut self, channel: &str, payload: Vec<u8>) -> (r: Result<u64, QueueError>)
        ensures
            final(self).max_channels() == old(self).max_channels(),
            final(self).channel_capacity() == old(self).channel_capacity(),
            exists|now: u128| push_outcome(*old(self), channel@, payload@, now, *final(self), r),
    {
        let now = self.clock.now_nanos();
        self.push_at(channel, payload, now)
    }

    /// Takes the front job of `channel`, if the channel exists and holds
    /// one.  Never creates a channel.
    pub fn try_pop(&mut self, channel: &str) -> (r: Option<Job>)
        ensures
            final(self).max_channels() == old(self).max_channels(),
            final(self).channel_capacity() == old(self).channel_capacity(),
            final(self).next_id() == old(self).next_id(),
            pop_outcome(*old(self), channel@, *final(self), match r {
                Some(j) => Some(job_view(j)),
                None => None,
            }),
            match r {
                Some(j) => {
                    let c = old(self)@[channel@];
                    &&& old(self)@.contains_key(channel@)
                    &&& c.0.len() > 0
                    &&& job_view(j) == c.0[0]
                    &&& final(self)@ == old(self)@.insert(channel@, (c.0.drop_first(), c.1))
                    &&& final(self).totals() == (old(self).totals().0, old(self).totals().1.wrapping_add(1), old(self).totals().2)
                },
                None => {
                    &&& (!old(self)@.contains_key(channel@) || old(self)@[channel@].0.len() == 0)
                    &&& final(self)@ == old(self)@
                    &&& final(self).totals() == old(self).totals()
                },
            },
    {
        match chan_map_remove(&mut self.channels, channel) {
            Some(mut ch) => {
                let ghost before = ch;
                let j = ch.queue.pop_front();
                match j {
                    Some(job) => {
                        assert(channel_view(ch).0 =~= channel_view(before).0.drop_first());
                        chan_map_insert(&mut self.channels, channel.to_owned(), ch);
                        self.total_popped = self.total_popped.wrapping_add(1);
                        assert(self@ =~= old(self)@.insert(
                            channel@,
                            (old(self)@[channel@].0.drop_first(), old(self)@[channel@].1),
                        ));
                        Some(job)
                    },
                    None => {
                        chan_map_insert(&mut self.channels, channel.to_owned(), ch);
                        assert(self@ =~= old(self)@);
                        None
                    },
                }
            },
            None => {
                assert(self@ =~= old(self)@);
                None
            },
        }
    }

    /// Number of jobs waiting on `channel`; 0 for an unknown channel.
    pub fn size(&self, channel: &str) -> (r: usize)
        ensures
            r == (if self@.contains_key(channel@) {
                self@[channel@].0.len()
            } else {
                0
            }),
    {
        match chan_map_get(&self.channels, channel) {
            Some(c) => channel_len(&c),
            None => 0,
        }
    }

    /// Drops every job of `channel` and returns how many there were.
    pub fn clear(&mut self, channel: &str) -> (r: usize)
        ensures
            final(self).max_channels() == old(self).max_channels(),
            final(self).channel_capacity() == old(self).channel_capacity(),
            final(self).next_id() == old(self).next_id(),
            final(self).totals() == old(self).totals(),
            if old(self)@.contains_key(channel@) {
                &&& r == old(self)@[channel@].0.len()
                &&& final(self)@ == old(self)@.insert(channel@, (Seq::<(u64, Seq<u8>, u128)>::empty(), old(self)@[channel@].1))
            } else {
                r == 0 && final(self)@ == old(self)@
            },
    {
        match chan_map_remove(&mut self.channels, channel) {
            Some(mut ch) => {
                let n = ch.queue.len();
                ch.queue.clear();
                assert(channel_view(ch).0 =~= Seq::<(u64, Seq<u8>, u128)>::empty());
                chan_map_insert(&mut self.channels, channel.to_owned(), ch);
                n
            },
            None => {
                assert(self@ =~= old(self)@);
                0
            },
        }
    }

    /// Number of channels.
    pub fn channel_count(&self) -> (r: usize)
        ensures
            r == self@.len(),
    {
        chan_map_len(&self.channels)
    }

    /// Running totals.
    pub fn stats(&self) -> (r: QueueStats)
        ensures
            r.channels == self@.len(),
            (r.pushed, r.popped, r.rejected) == self.totals(),
    {
        QueueStats {
            channels: chan_map_len(&self.channels),
            pushed: self.total_pushed,
            popped: self.total_popped,
            rejected: self.total_rejected,
        }
    }
}

/// What `push_at` does to queue `q` pushing `payload` onto `name` at
/// `now`, ending in `q2` with result `r`.
pub open spec fn push_outcome(
    q: TaskQueue,
    name: Seq<char>,
    payload: Seq<u8>,
    now: u128,
    q2: TaskQueue,
    r: Result<u64, QueueError>,
) -> bool {
    let (next, pushed, popped, rejected) = counters_of(q);
    if !q@.contains_key(name) && q@.len() >= q.max_channels() {
        &&& r matches Err(QueueError::TooManyChannels(n)) && n == q.max_channels()
        &&& q2@ == q@
        &&& counters_of(q2) == counters_of(q)
    } else {
        let c = if q@.contains_key(name) {
            q@[name]
        } else {
            (Seq::<(u64, Seq<u8>, u128)>::empty(), q.channel_capacity())
        };
        if c.0.len() >= c.1 {
            &&& r matches Err(QueueError::Full(n, cap)) && n@ == name && cap == c.1
            &&& q2@ == q@.insert(name, c)
            &&& counters_of(q2) == (next.wrapping_add(1), pushed, popped, rejected.wrapping_add(1))
        } else {
            &&& r == Ok::<u64, QueueError>(next)
            &&& q2@ == q@.insert(name, (c.0.push((next, payload, now)), c.1))
            &&& counters_of(q2) == (next.wrapping_add(1), pushed.wrapping_add(1), popped, rejected)
        }
    }
}

/// What a pop of channel `name` does: the channel's front job is taken
/// and the rest stay in order; an absent or empty channel gives nothing
/// and stays as it was.  The id counter does not move.
pub open spec fn pop_outcome(
    q: TaskQueue,
    name: Seq<char>,
    q2: TaskQueue,
    r: Option<(u64, Seq<u8>, u128)>,
) -> bool {
    &&& q2.next_id() == q.next_id()
    &&& if q@.contains_key(name) && q@[name].0.len() > 0 {
        &&& r == Some(q@[name].0[0])
        &&& q2@ == q@.insert(name, (q@[name].0.drop_first(), q@[name].1))
    } else {
        &&& r is None
        &&& q2@ == q@
    }
}

/// Jobs leave a channel in the order they entered it: when job `a` and
/// then job `b` are pushed onto a channel that is empty, the next two pops
/// of that channel take `a` and then `b`.
pub proof fn lemma_fifo(
    q0: TaskQueue,
    name: Seq<char>,
    pa: Seq<u8>,
    ta: u128,
    q1: TaskQueue,
    ra: Result<u64, QueueError>,
    pb: Seq<u8>,
    tb: u128,
    q2: TaskQueue,
    rb: Result<u64, QueueError>,
    q3: TaskQueue,
    x: Option<(u64, Seq<u8>, u128)>,
    q4: TaskQueue,
    y: Option<(u64, Seq<u8>, u128)>,
)
    requires
        !q0@.contains_key(name) || q0@[name].0.len() == 0,
        push_outcome(q0, name, pa, ta, q1, ra),
        ra is Ok,
        push_outcome(q1, name, pb, tb, q2, rb),
        rb is Ok,
        pop_outcome(q2, name, q3, x),
        pop_outcome(q3, name, q4, y),
    ensures
        x == Some((ra->Ok_0, pa, ta)),
        y == Some((rb->Ok_0, pb, tb)),
{
    let c0 = if q0@.contains_key(name) { q0@[name].0 } else { Seq::<(u64, Seq<u8>, u128)>::empty() };
    assert(c0.len() == 0);
    assert(q1@[name].0 =~= seq![(ra->Ok_0, pa, ta)]);
    assert(q2@[name].0 =~= seq![(ra->Ok_0, pa, ta), (rb->Ok_0, pb, tb)]);
    assert(q3@[name].0 =~= seq![(rb->Ok_0, pb, tb)]);
}

/// Ids grow from push to push, across channels: of two successful pushes
/// in a row, the later job has the larger id (while the counter has not
/// reached `u64::MAX`).
pub proof fn lemma_ids_increase(
    q0: TaskQueue,
    c1: Seq<char>,
    p1: Seq<u8>,
    t1: u128,
    q1: TaskQueue,
    r1: Result<u64, QueueError>,
    c2: Seq<char>,
    p2: Seq<u8>,
    t2: u128,
    q2: TaskQueue,
    r2: Result<u64, QueueError>,
)
    requires
        q0.next_id() < u64::MAX,
        push_outcome(q0, c1, p1, t1, q1, r1),
        r1 is Ok,
        push_outcome(q1, c2, p2, t2, q2, r2),
        r2 is Ok,
    ensures
        r1->Ok_0 < r2->Ok_0,
{
}

} // verus!
