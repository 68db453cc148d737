//! Bookkeeping of the idle PHP workers.
//!
//! Idle worker indices sit on a stack: the worker returned last is the
//! one handed out next, while its caches are still warm.  A worker that
//! failed a send or a decode is flagged unhealthy, and one that has
//! served its quota of requests (when a quota is set) is exhausted;
//! neither is handed out, and neither goes back on the stack, until the
//! reaper respawns it.  Waiting for a free worker (the semaphore with
//! one permit per idle entry, and its timeout) is the caller's part.
use vstd::prelude::*;

verus! {

/// Idle stack, per-worker counters and health flags.
pub struct WorkerDispatch {
    idle: Vec<usize>,
    served: Vec<u64>,
    unhealthy: Vec<bool>,
    max_requests: u64,
    slots: usize,
}

/// The state of a dispatch: the idle stack (top last), the requests
/// each worker slot has served, the unhealthy flags, the quota (0: none)
/// and the number of worker slots the pool currently has.
pub struct DispatchView {
    pub idle: Seq<usize>,
    pub served: Seq<u64>,
    pub unhealthy: Seq<bool>,
    pub max_requests: u64,
    pub slots: nat,
}

impl View for WorkerDispatch {
    type V = DispatchView;

    closed spec fn view(&self) -> DispatchView {
        DispatchView {
            idle: self.idle@,
            served: self.served@,
            unhealthy: self.unhealthy@,
            max_requests: self.max_requests,
            slots: self.slots as nat,
        }
    }
}

/// Worker `idx` may be handed a request: it has a health slot, is not
/// flagged unhealthy, and has not used up its quota.
pub open spec fn pickable(v: DispatchView, idx: int) -> bool {
    &&& 0 <= idx < v.unhealthy.len()
    &&& !v.unhealthy[idx]
    &&& (v.max_requests == 0 || v.served[idx] < v.max_requests)
}

/// How many unpickable workers one wait may skip before giving up:
/// twice the number of health slots, at least two.
pub open spec fn max_skips(v: DispatchView) -> int {
    if v.unhealthy.len() == 0 {
        2
    } else {
        2 * (v.unhealthy.len() as int)
    }
}

/// What one claim on the idle stack gave.
#[derive(Debug, Clone, Copy, PartialEq, Eq, Structural)]
pub enum Claim {
    /// This worker is handed the request.
    Picked(usize),
    /// The stack was empty: the permit goes back, the wait ends.
    Empty,
    /// This worker was popped and dropped as unpickable; wait again.
    Skipped(usize),
    /// This worker was popped and dropped, and the skips ran out.
    GaveUp(usize),
}

/// What a claim with `skipped` workers dropped so far gives on a
/// non-empty idle stack: its top, handed out or dropped.
pub open spec fn claim_outcome(v: DispatchView, skipped: int) -> Claim {
    let top = v.idle.last();
    if pickable(v, top as int) {
        Claim::Picked(top)
    } else if skipped + 1 >= max_skips(v) {
        Claim::GaveUp(top)
    } else {
        Claim::Skipped(top)
    }
}

impl WorkerDispatch {
    /// Well-formed: one counter per health slot.
    pub open spec fn wf(&self) -> bool {
        self@.served.len() == self@.unhealthy.len()
    }

    /// A dispatch over `count` workers, all idle and healthy, worker
    /// `count - 1` on top, no quota.
    pub fn new(count: usize) -> (r: Self)
        ensures
            r.wf(),
            r@.idle == Seq::new(count as nat, |i: int| i as usize),
            r@.served == Seq::new(count as nat, |i: int| 0u64),
            r@.unhealthy == Seq::new(count as nat, |i: int| false),
            r@.max_requests == 0,
            r@.slots == count,
    {
        let mut idle: Vec<usize> = Vec::new();
        let mut served: Vec<u64> = Vec::new();
        let mut unhealthy: Vec<bool> = Vec::new();
        let mut i: usize = 0;
        while i < count
            invariant
                i <= count,
                idle@ == Seq::new(i as nat, |j: int| j as usize),
                served@ == Seq::new(i as nat, |j: int| 0u64),
                unhealthy@ == Seq::new(i as nat, |j: int| false),
            decreases count - i,
        {
            idle.push(i);
            served.push(0);
            unhealthy.push(false);
            i = i + 1;
            assert(idle@ =~= Seq::new(i as nat, |j: int| j as usize));
            assert(served@ =~= Seq::new(i as nat, |j: int| 0u64));
            assert(unhealthy@ =~= Seq::new(i as nat, |j: int| false));
        }
        WorkerDispatch { idle, served, unhealthy, max_requests: 0, slots: count }
    }

    /// Sets the quota of requests per worker (0: none).
    pub fn set_max_requests(&mut self, max: u64)
        ensures
            final(self)@ == (DispatchView { max_requests: max, ..old(self)@ }),
    {
        self.max_requests = max;
    }

    /// Flags worker `idx` unhealthy; an index without a health slot is
    /// ignored.
    pub fn mark_unhealthy(&mut self, idx: usize)
        ensures
            final(self)@ == (DispatchView {
                unhealthy: if idx < old(self)@.unhealthy.len() {
                    old(self)@.unhealthy.update(idx as int, true)
                } else {
                    old(self)@.unhealthy
                },
                ..old(self)@
            }),
    {
        if idx < self.unhealthy.len() {
            self.unhealthy.set(idx, true);
        }
    }

    /// Clears the flag and the counter of a respawned worker; an index
    /// without a health slot is ignored.
    pub fn mark_healthy(&mut self, idx: usize)
        requires
            old(self).wf(),
        ensures
            final(self).wf(),
            final(self)@ == (if idx < old(self)@.unhealthy.len() {
                DispatchView {
                    unhealthy: old(self)@.unhealthy.update(idx as int, false),
                    served: old(self)@.served.update(idx as int, 0),
                    ..old(self)@
                }
            } else {
                old(self)@
            }),
    {
        if idx < self.unhealthy.len() {
            self.unhealthy.set(idx, false);
            self.served.set(idx, 0);
        }
    }

    /// Counts one more request served by worker `idx` (the counter wraps
    /// as an atomic add does); an index without a counter is ignored.
    pub fn record_served(&mut self, idx: usize)
        ensures
            final(self)@ == (DispatchView {
                served: if idx < old(self)@.served.len() {
                    old(self)@.served.update(
                        idx as int,
                        old(self)@.served[idx as int].wrapping_add(1),
                    )
                } else {
                    old(self)@.served
                },
                ..old(self)@
            }),
    {
        if idx < self.served.len() {
            let n = self.served[idx].wrapping_add(1);
            self.served.set(idx, n);
        }
    }

    /// Whether worker `idx` may be handed a request.
    pub fn is_pickable(&self, idx: usize) -> (r: bool)
        requires
            self.wf(),
        ensures
            r == pickable(self@, idx as int),
    {
        if idx >= self.unhealthy.len() {
            return false;
        }
        if self.unhealthy[idx] {
            return false;
        }
        if self.max_requests > 0 {
            if self.served[idx] >= self.max_requests {
                return false;
            }
        }
        true
    }

    /// One claim on the idle stack, after a permit was granted, with
    /// `skipped` workers dropped so far in this wait: pops the top; hands
    /// it out if it is pickable, else drops it (it does not go back).
    pub fn claim(&mut self, skipped: usize) -> (r: Claim)
        requires
            old(self).wf(),
        ensures
            final(self).wf(),
            old(self)@.idle.len() == 0 ==> r == Claim::Empty && final(self)@ == old(self)@,
            old(self)@.idle.len() > 0 ==> {
                &&& final(self)@ == (DispatchView { idle: old(self)@.idle.drop_last(), ..old(self)@ })
                &&& r == claim_outcome(old(self)@, skipped as int)
            },
    {
        let cap = self.unhealthy.len();
        let gave_up = if cap == 0 {
            skipped >= 1
        } else {
            cap <= skipped / 2 + skipped % 2
        };
        match self.idle.pop() {
            None => Claim::Empty,
            Some(idx) => {
                if self.is_pickable(idx) {
                    Claim::Picked(idx)
                } else if gave_up {
                    Claim::GaveUp(idx)
                } else {
                    Claim::Skipped(idx)
                }
            },
        }
    }

    /// Puts worker `idx` back on top of the idle stack.
    pub fn return_idle(&mut self, idx: usize)
        ensures
            final(self)@ == (DispatchView { idle: old(self)@.idle.push(idx), ..old(self)@ }),
    {
        self.idle.push(idx);
    }

    /// Number of worker slots the pool has.
    pub fn slots(&self) -> (r: usize)
        ensures
            r == self@.slots,
    {
        self.slots
    }

    /// Takes a respawned pool of `new_len` workers: every slot that has a
    /// health flag is cleared and its counter reset; when the pool grew,
    /// the new workers that have health slots go on the idle stack,
    /// lowest first, and their number is returned (the permits to add).
    pub fn refresh(&mut self, new_len: usize) -> (grown: usize)
        requires
            old(self).wf(),
            new_len > old(self)@.slots ==> old(self)@.slots <= old(self)@.unhealthy.len(),
        ensures
            final(self).wf(),
            ({
                let old_v = old(self)@;
                let cap = old_v.unhealthy.len();
                let reset = if new_len < cap { new_len as int } else { cap as int };
                let g = if new_len > old_v.slots { reset - old_v.slots } else { 0 };
                &&& grown == g
                &&& final(self)@.slots == new_len
                &&& final(self)@.max_requests == old_v.max_requests
                &&& final(self)@.unhealthy == Seq::new(cap, |i: int| if i < reset { false } else { old_v.unhealthy[i] })
                &&& final(self)@.served == Seq::new(cap, |i: int| if i < reset { 0u64 } else { old_v.served[i] })
                &&& final(self)@.idle == old_v.idle + Seq::new(g as nat, |i: int| (old_v.slots + i) as usize)
            }),
    {
        let ghost old_v = self@;
        let prev = self.slots;
        self.slots = new_len;
        let cap = self.unhealthy.len();
        let reset = if new_len < cap { new_len } else { cap };
        let mut i: usize = 0;
        while i < reset
            invariant
                reset <= cap == self.unhealthy.len() == self.served.len(),
                i <= reset,
                cap == old_v.unhealthy.len(),
                old_v.served.len() == cap,
                self.idle@ == old_v.idle,
                self.slots == new_len,
                self.max_requests == old_v.max_requests,
                self.unhealthy@ == Seq::new(cap as nat, |j: int| if j < i { false } else { old_v.unhealthy[j] }),
                self.served@ == Seq::new(cap as nat, |j: int| if j < i { 0u64 } else { old_v.served[j] }),
            decreases reset - i,
        {
            self.unhealthy.set(i, false);
            self.served.set(i, 0);
            i = i + 1;
            assert(self.unhealthy@ =~= Seq::new(cap as nat, |j: int| if j < i { false } else { old_v.unhealthy[j] }));
            assert(self.served@ =~= Seq::new(cap as nat, |j: int| if j < i { 0u64 } else { old_v.served[j] }));
        }
        let mut grown: usize = 0;
        if new_len > prev {
            grown = reset - prev;
            let mut k: usize = 0;
            while k < grown
                invariant
                    k <= grown,
                    prev + grown <= usize::MAX,
                    self.unhealthy@ == Seq::new(cap as nat, |j: int| if j < reset { false } else { old_v.unhealthy[j] }),
                    self.served@ == Seq::new(cap as nat, |j: int| if j < reset { 0u64 } else { old_v.served[j] }),
                    self.unhealthy@.len() == self.served@.len(),
                    self.slots == new_len,
                    self.max_requests == old_v.max_requests,
                    self.idle@ == old_v.idle + Seq::new(k as nat, |j: int| (prev + j) as usize),
                decreases grown - k,
            {
                self.idle.push(prev + k);
                k = k + 1;
                assert(self.idle@ =~= old_v.idle + Seq::new(k as nat, |j: int| (prev + j) as usize));
            }
        } else {
            assert(self.idle@ =~= old_v.idle + Seq::new(0, |j: int| (prev + j) as usize));
        }
        grown
    }

    /// Number of idle workers on the stack.
    pub fn idle_len(&self) -> (r: usize)
        ensures
            r == self@.idle.len(),
    {
        self.idle.len()
    }
}

/// The worker returned last is the one claimed next, when it may be
/// handed a request: idle workers are reused hot-first.
pub proof fn lemma_hot_worker_first(v: DispatchView, idx: usize, skipped: int)
    requires
        pickable(v, idx as int),
    ensures
        ({
            let w = DispatchView { idle: v.idle.push(idx), ..v };
            &&& claim_outcome(w, skipped) == Claim::Picked(idx)
            &&& DispatchView { idle: w.idle.drop_last(), ..w } == v
        }),
{
    let w = DispatchView { idle: v.idle.push(idx), ..v };
    assert(w.idle.drop_last() =~= v.idle);
}

/// A worker flagged unhealthy is never handed a request until it is
/// marked healthy again, and a worker that has served its quota is not
/// either.
pub proof fn lemma_unpickable(v: DispatchView, idx: int)
    requires
        0 <= idx < v.unhealthy.len(),
        v.served.len() == v.unhealthy.len(),
    ensures
        !pickable(DispatchView { unhealthy: v.unhealthy.update(idx, true), ..v }, idx),
        v.max_requests > 0 && v.served[idx] >= v.max_requests ==> !pickable(v, idx),
        pickable(
            DispatchView {
                unhealthy: v.unhealthy.update(idx, false),
                served: v.served.update(idx, 0),
                ..v
            },
            idx,
        ),
{
}

} // verus!
