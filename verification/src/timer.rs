//! A simple countdown timer.
use std::time::{Duration, Instant};
use vstd::prelude::*;

verus! {

/// `std::time::Instant`, a moment of the monotonic clock.
#[verifier::external_type_specification]
#[verifier::external_body]
pub struct ExInstant(Instant);

/// The current moment.
///
/// Calls `Instant::now`; nothing is claimed of the moment.
#[verifier::external_body]
fn instant_now() -> Instant {
    Instant::now()
}

/// The time elapsed since `start`.
///
/// Calls `Instant::elapsed`; the clock decides the value, so nothing is claimed of it.
#[verifier::external_body]
fn elapsed_since(start: &Instant) -> Duration {
    start.elapsed()
}

/// The whole milliseconds of a duration.
///
/// Calls `Duration::as_millis`. The only durations the library holds are the clock's, of
/// which nothing is known, so nothing is claimed of the result either.
#[verifier::external_body]
fn whole_millis(d: &Duration) -> u128 {
    d.as_millis()
}

/// The milliseconds left of `duration_millis` after `elapsed_millis`: `None` once they are
/// used up.
pub open spec fn spec_remaining(duration_millis: u128, elapsed_millis: u128) -> Option<u128> {
    if elapsed_millis <= duration_millis {
        Some((duration_millis - elapsed_millis) as u128)
    } else {
        None
    }
}

/// Of two readings, the later one (more time elapsed) leaves no more time than the earlier:
/// once the time is up it stays up, and what is left never exceeds the duration.
pub proof fn lemma_remaining_monotone(duration_millis: u128, earlier: u128, later: u128)
    requires
        earlier <= later,
    ensures
        spec_remaining(duration_millis, earlier) is None ==> spec_remaining(duration_millis, later) is None,
        spec_remaining(duration_millis, earlier) matches Some(a) ==> match spec_remaining(duration_millis, later) {
            Some(b) => b <= a,
            None => true,
        },
        spec_remaining(duration_millis, earlier) matches Some(a) ==> a <= duration_millis,
{
}

/// The milliseconds left of `duration_millis` after `elapsed_millis` (`spec_remaining`).
pub fn remaining_after(duration_millis: u128, elapsed_millis: u128) -> (r: Option<u128>)
    ensures
        r == spec_remaining(duration_millis, elapsed_millis),
{
    duration_millis.checked_sub(elapsed_millis)
}

/// Basic timer implementation.
pub struct Timer {
    now: Instant,
    duration_millis: u128,
}

impl Timer {
    /// The length of the timer, in milliseconds.
    pub closed spec fn duration(&self) -> u128 {
        self.duration_millis
    }

    /// Construct a timer for the given duration, starting now.
    pub fn new(duration_millis: u128) -> (r: Self)
        ensures
            r.duration() == duration_millis,
    {
        Timer { now: instant_now(), duration_millis }
    }

    /// Check the time remaining. `None` if expired, else `Some(remaining)`, which is what is
    /// left of the duration after the milliseconds elapsed since the timer started.
    pub fn remaining_millis(&self) -> (r: Option<u128>)
        ensures
            exists|elapsed: u128| r == #[trigger] spec_remaining(self.duration(), elapsed),
    {
        let elapsed = whole_millis(&elapsed_since(&self.now));
        let r = remaining_after(self.duration_millis, elapsed);
        assert(r == spec_remaining(self.duration(), elapsed));
        r
    }
}

} // verus!
