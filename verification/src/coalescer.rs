//! Request coalescing ("singleflight").
//!
//! When several requests for the same cacheable URL arrive while nothing
//! is cached, only the first (the leader) runs PHP; the others
//! (followers) wait for its result.  This module keeps the set of keys
//! that have a leader at work and decides who leads; handing the
//! leader's value to the waiting followers is the caller's part.
use vstd::prelude::*;

use crate::text::str_eq;

verus! {

/// The keys that currently have a leader at work.
pub struct Coalescer {
    inflight: Vec<String>,
}

/// The keys of `v`, as character sequences.
pub open spec fn key_views(v: Seq<String>) -> Seq<Seq<char>> {
    v.map_values(|s: String| s@)
}

/// What an acquire gave.
pub enum LeaderOrFollower {
    /// The caller is the first for its key and must produce the value.
    Leader(LeaderGuard),
    /// Another caller is producing the value for this key.
    Follower,
}

/// Held by the request that leads a key.
pub struct LeaderGuard {
    key: String,
    published: bool,
}

impl LeaderGuard {
    /// The key this guard leads.
    pub closed spec fn key_view(&self) -> Seq<char> {
        self.key@
    }

    /// Whether the value was published already.
    pub closed spec fn is_published(&self) -> bool {
        self.published
    }

    /// The key this guard leads.
    pub fn key(&self) -> (r: &str)
        ensures
            r@ == self.key_view(),
    {
        self.key.as_str()
    }

    /// Ends the leadership once: the key leaves the in-flight set (the
    /// caller then wakes the followers).  A second call does nothing.
    pub fn publish(&mut self, c: &mut Coalescer)
        requires
            old(c).wf(),
        ensures
            final(c).wf(),
            final(self).key_view() == old(self).key_view(),
            final(self).is_published(),
            old(self).is_published() ==> final(c)@ == old(c)@,
            !old(self).is_published() ==> final(c)@ == old(c)@.remove(old(self).key_view()),
    {
        if self.published {
            return;
        }
        self.published = true;
        c.remove(self.key.as_str());
    }

    /// The leader gave up (the guard was dropped unpublished): the key
    /// leaves the in-flight set and the followers are woken with nothing.
    pub fn abort(self, c: &mut Coalescer)
        requires
            old(c).wf(),
        ensures
            final(c).wf(),
            self.is_published() ==> final(c)@ == old(c)@,
            !self.is_published() ==> final(c)@ == old(c)@.remove(self.key_view()),
    {
        if !self.published {
            c.remove(self.key.as_str());
        }
    }
}

impl View for Coalescer {
    type V = Set<Seq<char>>;

    closed spec fn view(&self) -> Set<Seq<char>> {
        key_views(self.inflight@).to_set()
    }
}

impl Coalescer {
    /// No key is listed twice.
    pub closed spec fn wf(&self) -> bool {
        key_views(self.inflight@).no_duplicates()
    }

    /// A coalescer with no key in flight.
    pub fn new() -> (r: Self)
        ensures
            r.wf(),
            r@ == Set::<Seq<char>>::empty(),
    {
        let r = Coalescer { inflight: Vec::new() };
        assert(key_views(r.inflight@) =~= Seq::<Seq<char>>::empty());
        r
    }

    fn position(&self, key: &str) -> (r: Option<usize>)
        ensures
            match r {
                Some(i) => i < self.inflight@.len() && self.inflight@[i as int]@ == key@ && self@.contains(key@),
                None => !self@.contains(key@),
            },
    {
        let mut i: usize = 0;
        while i < self.inflight.len()
            invariant
                i <= self.inflight@.len(),
                forall|j: int| 0 <= j < i ==> self.inflight@[j]@ != key@,
            decreases self.inflight@.len() - i,
        {
            if str_eq(self.inflight[i].as_str(), key) {
                assert(key_views(self.inflight@)[i as int] == key@);
                return Some(i);
            }
            i = i + 1;
        }
        proof {
            if key_views(self.inflight@).contains(key@) {
                let j = choose|j: int| 0 <= j < key_views(self.inflight@).len() && key_views(self.inflight@)[j] == key@;
                assert(self.inflight@[j]@ == key@);
            }
        }
        None
    }

    fn remove(&mut self, key: &str)
        requires
            old(self).wf(),
        ensures
            final(self).wf(),
            final(self)@ == old(self)@.remove(key@),
    {
        match self.position(key) {
            None => {
                assert(self@.remove(key@) =~= self@);
            },
            Some(i) => {
                let ghost before = key_views(self.inflight@);
                self.inflight.remove(i);
                let ghost after = key_views(self.inflight@);
                assert(after =~= before.remove(i as int));
                assert forall|a: int, b: int| 0 <= a < after.len() && 0 <= b < after.len() && a != b implies after[a] != after[b] by {
                    let a2 = if a < i { a } else { a + 1 };
                    let b2 = if b < i { b } else { b + 1 };
                    assert(after[a] == before[a2]);
                    assert(after[b] == before[b2]);
                }
                assert forall|k: Seq<char>| after.to_set().contains(k) <==> before.to_set().remove(key@).contains(k) by {
                    if after.contains(k) {
                        let j = choose|j: int| 0 <= j < after.len() && after[j] == k;
                        let j2 = if j < i { j } else { j + 1 };
                        assert(before[j2] == k);
                        assert(before[i as int] == key@);
                        assert(j2 != i);
                        assert(before[j2] != before[i as int]);
                        assert(k != key@);
                    }
                    if before.contains(k) && k != key@ {
                        let j = choose|j: int| 0 <= j < before.len() && before[j] == k;
                        if j < i {
                            assert(after[j] == k);
                        } else {
                            assert(after[j - 1] == k);
                        }
                    }
                }
                assert(after.to_set() =~= before.to_set().remove(key@));
            },
        }
    }

    /// Claims `key`: the first caller leads it; while it is in flight
    /// every other caller follows.
    pub fn acquire(&mut self, key: &str) -> (r: LeaderOrFollower)
        requires
            old(self).wf(),
        ensures
            final(self).wf(),
            old(self)@.contains(key@) ==> r is Follower && final(self)@ == old(self)@,
            !old(self)@.contains(key@) ==> final(self)@ == old(self)@.insert(key@) && (match r {
                LeaderOrFollower::Leader(g) => g.key_view() == key@ && !g.is_published(),
                LeaderOrFollower::Follower => false,
            }),
    {
        match self.position(key) {
            Some(_) => LeaderOrFollower::Follower,
            None => {
                let ghost before = key_views(self.inflight@);
                self.inflight.push(key.to_owned());
                let ghost after = key_views(self.inflight@);
                assert(after =~= before.push(key@));
                assert(after.to_set() =~= before.to_set().insert(key@)) by {
                    assert forall|k: Seq<char>| after.contains(k) implies before.contains(k) || k == key@ by {
                        let j = choose|j: int| 0 <= j < after.len() && after[j] == k;
                        if j < before.len() {
                            assert(before[j] == k);
                        }
                    }
                    assert forall|k: Seq<char>| before.contains(k) implies after.contains(k) by {
                        let j = choose|j: int| 0 <= j < before.len() && before[j] == k;
                        assert(after[j] == k);
                    }
                    assert(after[before.len() as int] == key@);
                }
                LeaderOrFollower::Leader(LeaderGuard { key: key.to_owned(), published: false })
            },
        }
    }

    /// How many distinct keys have a leader at work.
    pub fn inflight_count(&self) -> (r: usize)
        requires
            self.wf(),
        ensures
            r == self@.len(),
    {
        proof {
            key_views(self.inflight@).unique_seq_to_set();
        }
        self.inflight.len()
    }
}

/// Coalescing collapses calls on one key: the first caller leads, a
/// second caller while the first is at work follows, and once the leader
/// publishes the key is no longer in flight, so the set is as before.
pub proof fn lemma_single_flight(s: Set<Seq<char>>, k: Seq<char>)
    requires
        !s.contains(k),
    ensures
        s.insert(k).contains(k),
        s.insert(k).remove(k) == s,
{
    assert(s.insert(k).remove(k) =~= s);
}

} // verus!
