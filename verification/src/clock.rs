//! A monotonic clock for the in-memory stores: nanoseconds since the
//! clock was started.  Readings depend on the passage of time, so nothing
//! is promised of them beyond their range; every operation that reads the
//! clock has a twin that takes the reading as an argument.
use std::time::Instant;

use vstd::prelude::*;

verus! {

/// `std::time::Instant`, carried through opaquely.
#[verifier::external_type_specification]
#[verifier::external_body]
pub struct ExInstant(Instant);

/// `Instant` is `Copy`: its clone is the same instant.
pub assume_specification[ <Instant as Clone>::clone ](i: &Instant) -> (r: Instant)
    ensures
        r == *i,
;

/// The largest number of nanoseconds a `Duration` can hold: whole
/// seconds in a `u64`, plus fewer than a billion nanoseconds.
pub open spec fn max_duration_nanos() -> nat {
    18446744073709551615 * 1000000000 + 999999999
}

/// `Instant::now`.  The reading depends on the time of the call.
#[verifier::external_body]
pub(crate) fn instant_now() -> (r: Instant) {
    Instant::now()
}

/// `Instant::elapsed`, in nanoseconds (`Duration::as_nanos`).  The
/// reading depends on the time of the call; a `Duration` bounds it.
#[verifier::external_body]
pub(crate) fn elapsed_nanos(i: &Instant) -> (r: u128)
    ensures
        r <= max_duration_nanos(),
{
    i.elapsed().as_nanos()
}

/// A monotonic clock.
#[derive(Clone)]
pub struct Clock {
    start: Instant,
}

impl Clock {
    /// A clock that starts now.
    pub fn start() -> (r: Clock) {
        Clock { start: instant_now() }
    }

    /// The same clock: readings count from the same start.
    pub fn copy(&self) -> (r: Clock)
        ensures
            r == *self,
    {
        Clock { start: self.start.clone() }
    }

    /// Nanoseconds since the clock was started.
    pub fn now_nanos(&self) -> (r: u128)
        ensures
            r <= max_duration_nanos(),
    {
        elapsed_nanos(&self.start)
    }
}

} // verus!
