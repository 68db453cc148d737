//! Async I/O primitives exposed to PHP userland: the rules that decide
//! them.
//!
//! File I/O only succeeds on a canonical target path under one of the
//! canonical `allowed_roots` (no roots: nothing is allowed).  A write
//! whose target does not exist yet is resolved through its parent
//! directory.  Payloads are bounded by `max_io_bytes`, timer delays by
//! `max_timer_ms`, and a timer needs the task queue.  The file operations
//! themselves, and the sleeping behind a timer, are done by the caller.
use vstd::prelude::*;

use crate::config::str_views;
use crate::features::opt_view;
use crate::paths::{canonicalize, file_name, join_path, join_path_chars, parent_of, path_parent, path_starts_with, path_starts_with_chars};
use crate::text::{chars_of, string_of};

verus! {

/// Errors of the async I/O primitives.
#[derive(Debug)]
pub enum AsyncIoError {
    /// The path is outside the allowed roots.
    PathNotAllowed,
    /// The payload exceeds `max_io_bytes` (carried).
    TooLarge(usize),
    /// An I/O error, by the name of its kind (such as `NotFound`).
    Io(String),
    /// A timer needs the task queue.
    TimerWithoutQueue,
    /// The delay exceeds `max_timer_ms` (carried).
    DelayTooLong(u64),
}

/// Counters of the async I/O primitives.
#[derive(Clone, Copy, Debug)]
pub struct AsyncIoStats {
    pub reads: u64,
    pub writes: u64,
    pub timers_scheduled: u64,
    pub timers_fired: u64,
    pub allowed_roots: usize,
}

/// The final component of `path` (`Path::file_name`): as its
/// documentation says, the last normal component, and none when the path
/// ends in `..` or has no such component (empty, `.`, `/`).
#[verifier::external_body]
fn path_file_name(path: &[char]) -> (r: Option<Vec<char>>)
    ensures
        match r {
            Some(v) => file_name(path@) == Some(v@),
            None => file_name(path@) is None,
        },
{
    let s: String = path.iter().collect();
    std::path::Path::new(&s).file_name().map(|n| n.to_string_lossy().chars().collect())
}

/// Runtime state of the async I/O primitives.
pub struct AsyncIo {
    allowed_roots: Vec<String>,
    max_io_bytes: usize,
    max_timer_ms: u64,
    timers_scheduled: u64,
    timers_fired: u64,
    reads: u64,
    writes: u64,
}

/// A canonical path lies under one of the roots.
pub open spec fn under_some_root(p: Seq<char>, roots: Seq<Seq<char>>) -> bool {
    exists|i: int| 0 <= i < roots.len() && path_starts_with(p, #[trigger] roots[i])
}

/// Where a path resolves, given its canonical form (`None` when it does
/// not resolve) and the canonical form of its parent directory: the
/// canonical path, or (for a write of a new file) the canonical parent
/// joined with the file name; refused when there are no roots, when it
/// cannot be resolved, or when it lies under no root.
pub open spec fn resolution(
    roots: Seq<Seq<char>>,
    path: Seq<char>,
    canon: Option<Seq<char>>,
    parent_canon: Option<Seq<char>>,
    allow_create: bool,
) -> Option<Seq<char>> {
    if roots.len() == 0 {
        None
    } else {
        let target = match canon {
            Some(c) => Some(c),
            None => if allow_create && parent_of(path) is Some && file_name(path) is Some
                && parent_canon is Some {
                Some(join_path(parent_canon->0, file_name(path)->0))
            } else {
                None
            },
        };
        match target {
            Some(t) => if under_some_root(t, roots) {
                Some(t)
            } else {
                None
            },
            None => None,
        }
    }
}

impl AsyncIo {
    /// The canonical allowed roots.
    pub closed spec fn roots(&self) -> Seq<Seq<char>> {
        str_views(self.allowed_roots@)
    }

    /// The payload bound.
    pub closed spec fn max_bytes(&self) -> usize {
        self.max_io_bytes
    }

    /// The delay bound.
    pub closed spec fn max_delay_ms(&self) -> u64 {
        self.max_timer_ms
    }

    /// Reads, writes, timers scheduled, timers fired.
    pub closed spec fn counters(&self) -> (u64, u64, u64, u64) {
        (self.reads, self.writes, self.timers_scheduled, self.timers_fired)
    }

    /// A handle whose roots are already canonical.
    pub fn with_roots(canonical_roots: Vec<String>, max_io_bytes: usize, max_timer_ms: u64) -> (r: AsyncIo)
        ensures
            r.roots() == str_views(canonical_roots@),
            r.max_bytes() == max_io_bytes,
            r.max_delay_ms() == max_timer_ms,
            r.counters() == (0u64, 0u64, 0u64, 0u64),
    {
        AsyncIo {
            allowed_roots: canonical_roots,
            max_io_bytes,
            max_timer_ms,
            timers_scheduled: 0,
            timers_fired: 0,
            reads: 0,
            writes: 0,
        }
    }

    /// A handle over `allowed_roots`, each canonicalized on disk; roots
    /// that do not resolve are dropped.
    pub fn new(allowed_roots: Vec<String>, max_io_bytes: usize, max_timer_ms: u64) -> (r: AsyncIo)
        ensures
            r.roots().len() <= allowed_roots@.len(),
            r.max_bytes() == max_io_bytes,
            r.max_delay_ms() == max_timer_ms,
            r.counters() == (0u64, 0u64, 0u64, 0u64),
    {
        let mut roots: Vec<String> = Vec::new();
        let mut i: usize = 0;
        while i < allowed_roots.len()
            invariant
                i <= allowed_roots@.len(),
                roots@.len() <= i,
            decreases allowed_roots.len() - i,
        {
            let p = chars_of(allowed_roots[i].as_str());
            match canonicalize(p.as_slice()) {
                Some(c) => roots.push(string_of(c.as_slice())),
                None => {},
            }
            i = i + 1;
        }
        AsyncIo::with_roots(roots, max_io_bytes, max_timer_ms)
    }

    fn allowed(&self, target: &[char]) -> (r: bool)
        ensures
            r == under_some_root(target@, self.roots()),
    {
        let mut i: usize = 0;
        while i < self.allowed_roots.len()
            invariant
                i <= self.allowed_roots@.len(),
                forall|j: int| 0 <= j < i ==> !path_starts_with(target@, #[trigger] self.roots()[j]),
            decreases self.allowed_roots.len() - i,
        {
            let root = chars_of(self.allowed_roots[i].as_str());
            if path_starts_with_chars(target, root.as_slice()) {
                assert(path_starts_with(target@, self.roots()[i as int]));
                return true;
            }
            i = i + 1;
        }
        false
    }

    /// Resolves `path` given its canonical form (`None` when it does not
    /// resolve) and the canonical form of its parent directory (consulted
    /// only for a write of a new file).
    pub fn resolve_given(
        &self,
        path: &str,
        canon: Option<String>,
        parent_canon: Option<String>,
        allow_create: bool,
    ) -> (r: Result<String, AsyncIoError>)
        ensures
            match r {
                Ok(t) => resolution(
                    self.roots(),
                    path@,
                    opt_view(canon),
                    opt_view(parent_canon),
                    allow_create,
                ) == Some(t@),
                Err(e) => e is PathNotAllowed && resolution(
                    self.roots(),
                    path@,
                    opt_view(canon),
                    opt_view(parent_canon),
                    allow_create,
                ) is None,
            },
    {
        if self.allowed_roots.len() == 0 {
            return Err(AsyncIoError::PathNotAllowed);
        }
        let target: Vec<char> = match canon {
            Some(c) => chars_of(c.as_str()),
            None => {
                if !allow_create {
                    return Err(AsyncIoError::PathNotAllowed);
                }
                let p = chars_of(path);
                let parent = path_parent(p.as_slice());
                let name = path_file_name(p.as_slice());
                match (parent, name, parent_canon) {
                    (Some(_), Some(n), Some(pc)) => {
                        let pcc = chars_of(pc.as_str());
                        join_path_chars(pcc.as_slice(), n.as_slice())
                    },
                    _ => {
                        return Err(AsyncIoError::PathNotAllowed);
                    },
                }
            },
        };
        if self.allowed(target.as_slice()) {
            Ok(string_of(target.as_slice()))
        } else {
            Err(AsyncIoError::PathNotAllowed)
        }
    }

    /// Resolves `path` on disk: canonicalizes it (and, for a write of a
    /// new file, its parent directory) and checks it against the roots.
    /// What the disk answers is up to the file system; the result is what
    /// `resolve_given` makes of some answer.
    pub fn resolve(&self, path: &str, allow_create: bool) -> (r: Result<String, AsyncIoError>)
        ensures
            match r {
                Ok(t) => exists|c: Option<Seq<char>>, pc: Option<Seq<char>>|
                    resolution(self.roots(), path@, c, pc, allow_create) == Some(t@),
                Err(e) => e is PathNotAllowed,
            },
    {
        if self.allowed_roots.len() == 0 {
            return Err(AsyncIoError::PathNotAllowed);
        }
        let p = chars_of(path);
        let canon = match canonicalize(p.as_slice()) {
            Some(c) => Some(string_of(c.as_slice())),
            None => None,
        };
        let parent_canon = if canon.is_none() && allow_create {
            match path_parent(p.as_slice()) {
                Some(par) => match canonicalize(par.as_slice()) {
                    Some(c) => Some(string_of(c.as_slice())),
                    None => None,
                },
                None => None,
            }
        } else {
            None
        };
        let ghost cv = opt_view(canon);
        let ghost pv = opt_view(parent_canon);
        let r = self.resolve_given(path, canon, parent_canon, allow_create);
        match r {
            Ok(t) => {
                assert(resolution(self.roots(), path@, cv, pv, allow_create) == Some(t@));
                Ok(t)
            },
            Err(e) => Err(e),
        }
    }

    /// How many bytes a read of `length` may return: `max_io_bytes` for a
    /// read to the end (`length == 0`), else the smaller of the two.
    pub fn read_cap(&self, length: usize) -> (r: usize)
        ensures
            r == (if length == 0 || length > self.max_bytes() {
                self.max_bytes()
            } else {
                length
            }),
    {
        if length == 0 || length > self.max_io_bytes {
            self.max_io_bytes
        } else {
            length
        }
    }

    /// Refuses a write of `len` bytes above `max_io_bytes`.
    pub fn check_write_size(&self, len: usize) -> (r: Result<(), AsyncIoError>)
        ensures
            match r {
                Ok(()) => len <= self.max_bytes(),
                Err(e) => len > self.max_bytes() && (e matches AsyncIoError::TooLarge(n) && n == self.max_bytes()),
            },
    {
        if len > self.max_io_bytes {
            Err(AsyncIoError::TooLarge(self.max_io_bytes))
        } else {
            Ok(())
        }
    }

    /// Counts a completed read.
    pub fn record_read(&mut self)
        ensures
            final(self).roots() == old(self).roots(),
            final(self).max_bytes() == old(self).max_bytes(),
            final(self).max_delay_ms() == old(self).max_delay_ms(),
            final(self).counters() == (old(self).counters().0.wrapping_add(1), old(self).counters().1, old(self).counters().2, old(self).counters().3),
    {
        self.reads = self.reads.wrapping_add(1);
    }

    /// Counts a completed write.
    pub fn record_write(&mut self)
        ensures
            final(self).roots() == old(self).roots(),
            final(self).max_bytes() == old(self).max_bytes(),
            final(self).max_delay_ms() == old(self).max_delay_ms(),
            final(self).counters() == (old(self).counters().0, old(self).counters().1.wrapping_add(1), old(self).counters().2, old(self).counters().3),
    {
        self.writes = self.writes.wrapping_add(1);
    }

    /// Decides whether a timer of `delay_ms` may be scheduled: it needs
    /// the task queue and a delay within `max_timer_ms`.  A scheduled
    /// timer is counted.
    pub fn plan_timer(&mut self, has_queue: bool, delay_ms: u64) -> (r: Result<(), AsyncIoError>)
        ensures
            final(self).roots() == old(self).roots(),
            final(self).max_bytes() == old(self).max_bytes(),
            final(self).max_delay_ms() == old(self).max_delay_ms(),
            !has_queue ==> r matches Err(AsyncIoError::TimerWithoutQueue),
            has_queue && delay_ms > old(self).max_delay_ms() ==> (r matches Err(AsyncIoError::DelayTooLong(n)) && n == old(self).max_delay_ms()),
            r is Ok <==> (has_queue && delay_ms <= old(self).max_delay_ms()),
            r is Ok ==> final(self).counters() == (old(self).counters().0, old(self).counters().1, old(self).counters().2.wrapping_add(1), old(self).counters().3),
            r is Err ==> final(self).counters() == old(self).counters(),
    {
        if !has_queue {
            return Err(AsyncIoError::TimerWithoutQueue);
        }
        if delay_ms > self.max_timer_ms {
            return Err(AsyncIoError::DelayTooLong(self.max_timer_ms));
        }
        self.timers_scheduled = self.timers_scheduled.wrapping_add(1);
        Ok(())
    }

    /// Counts a timer that fired.
    pub fn record_timer_fired(&mut self)
        ensures
            final(self).roots() == old(self).roots(),
            final(self).max_bytes() == old(self).max_bytes(),
            final(self).max_delay_ms() == old(self).max_delay_ms(),
            final(self).counters() == (old(self).counters().0, old(self).counters().1, old(self).counters().2, old(self).counters().3.wrapping_add(1)),
    {
        self.timers_fired = self.timers_fired.wrapping_add(1);
    }

    /// The counters and the number of roots.
    pub fn stats(&self) -> (r: AsyncIoStats)
        ensures
            (r.reads, r.writes, r.timers_scheduled, r.timers_fired) == self.counters(),
            r.allowed_roots == self.roots().len(),
    {
        AsyncIoStats {
            reads: self.reads,
            writes: self.writes,
            timers_scheduled: self.timers_scheduled,
            timers_fired: self.timers_fired,
            allowed_roots: self.allowed_roots.len(),
        }
    }
}

/// With no allowed roots nothing resolves.
pub proof fn lemma_no_roots_no_access(
    path: Seq<char>,
    canon: Option<Seq<char>>,
    parent_canon: Option<Seq<char>>,
    allow_create: bool,
)
    ensures
        resolution(Seq::<Seq<char>>::empty(), path, canon, parent_canon, allow_create) is None,
{
}

/// Whatever resolves lies under an allowed root.
pub proof fn lemma_resolved_under_root(
    roots: Seq<Seq<char>>,
    path: Seq<char>,
    canon: Option<Seq<char>>,
    parent_canon: Option<Seq<char>>,
    allow_create: bool,
)
    requires
        resolution(roots, path, canon, parent_canon, allow_create) is Some,
    ensures
        under_some_root(resolution(roots, path, canon, parent_canon, allow_create)->0, roots),
{
}

} // verus!
