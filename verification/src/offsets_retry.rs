//! When to ask the runtime again for the offsets of a method: the service reports an
//! illegal state while the target process is not ready yet, so such failures are retried a
//! few times with a doubling pause; any other failure ends the lookup.
use vstd::prelude::*;

verus! {

/// How many times a lookup is retried.
pub const MAX_RETRIES: u32 = 5;

/// The pause before the first retry, in milliseconds.
pub const INITIAL_BACKOFF_MILLIS: u64 = 10;

/// How a lookup of method offsets failed.
#[derive(Debug, Clone, Copy, PartialEq, Eq)]
pub enum OffsetsFailure {
    /// A service-specific error reporting an illegal state: the process is not ready yet.
    IllegalState,
    /// Another service-specific error, with its code.
    OtherServiceSpecific(i32),
    /// Any other failure.
    Other,
}

/// Why the lookup was given up.
#[derive(Debug, Clone, Copy, PartialEq, Eq)]
pub enum RetryError {
    /// The lookup failed again after the last retry.
    Exhausted,
    /// The failure was not a service-specific error.
    UnexpectedStatus,
    /// The failure was a service-specific error other than an illegal state.
    UnexpectedServiceSpecificError(i32),
}

/// What to do after a failed lookup.
#[derive(Debug, Clone, Copy, PartialEq, Eq)]
pub enum RetryDecision {
    /// Ask again after this many milliseconds.
    RetryAfter(u64),
    /// Report the failure.
    GiveUp(RetryError),
}

/// The pause before retry number `n` (from zero): the initial pause, doubled `n` times.
pub open spec fn backoff_before(n: nat) -> nat
    decreases n,
{
    if n == 0 {
        INITIAL_BACKOFF_MILLIS as nat
    } else {
        2 * backoff_before((n - 1) as nat)
    }
}

/// The total pause of the first `n` retries.
pub open spec fn total_pause(n: nat) -> nat
    decreases n,
{
    if n == 0 {
        0
    } else {
        total_pause((n - 1) as nat) + backoff_before((n - 1) as nat)
    }
}

/// The retry state of one lookup.
#[derive(Debug, Clone, Copy, PartialEq, Eq)]
pub struct OffsetsRetry {
    /// How many retries were made.
    pub retries: u32,
    /// The pause before the next retry, in milliseconds.
    pub backoff_millis: u64,
}

/// The decision after a failure, and the retry state after it.
pub open spec fn spec_on_failure(state: OffsetsRetry, failure: OffsetsFailure) -> (RetryDecision, OffsetsRetry) {
    if state.retries >= MAX_RETRIES {
        (RetryDecision::GiveUp(RetryError::Exhausted), state)
    } else {
        match failure {
            OffsetsFailure::Other => (RetryDecision::GiveUp(RetryError::UnexpectedStatus), state),
            OffsetsFailure::OtherServiceSpecific(code) => (
                RetryDecision::GiveUp(RetryError::UnexpectedServiceSpecificError(code)),
                state,
            ),
            OffsetsFailure::IllegalState => (
                RetryDecision::RetryAfter(state.backoff_millis),
                OffsetsRetry { retries: (state.retries + 1) as u32, backoff_millis: (state.backoff_millis * 2) as u64 },
            ),
        }
    }
}

impl OffsetsRetry {
    /// The state is one that a lookup reaches: at most `MAX_RETRIES` retries, and the
    /// pause doubled once per retry.
    pub open spec fn wf(&self) -> bool {
        &&& self.retries <= MAX_RETRIES
        &&& self.backoff_millis == backoff_before(self.retries as nat)
    }

    /// The state before the first lookup.
    pub fn new() -> (r: Self)
        ensures
            r.wf(),
            r.retries == 0,
            r.backoff_millis == INITIAL_BACKOFF_MILLIS,
    {
        OffsetsRetry { retries: 0, backoff_millis: INITIAL_BACKOFF_MILLIS }
    }

    /// Decides what follows a failed lookup (`spec_on_failure`).
    pub fn on_failure(&mut self, failure: OffsetsFailure) -> (r: RetryDecision)
        requires
            old(self).wf(),
        ensures
            final(self).wf(),
            (r, *final(self)) == spec_on_failure(*old(self), failure),
    {
        if self.retries >= MAX_RETRIES {
            return RetryDecision::GiveUp(RetryError::Exhausted);
        }
        match failure {
            OffsetsFailure::Other => RetryDecision::GiveUp(RetryError::UnexpectedStatus),
            OffsetsFailure::OtherServiceSpecific(code) => RetryDecision::GiveUp(
                RetryError::UnexpectedServiceSpecificError(code),
            ),
            OffsetsFailure::IllegalState => {
                proof {
                    lemma_backoff_bound(self.retries as nat);
                }
                let pause = self.backoff_millis;
                self.retries = self.retries + 1;
                self.backoff_millis = self.backoff_millis * 2;
                RetryDecision::RetryAfter(pause)
            },
        }
    }
}

proof fn lemma_backoff_bound(n: nat)
    requires
        n <= MAX_RETRIES,
    ensures
        backoff_before(n) <= 320,
{
    reveal_with_fuel(backoff_before, 6);
}

/// A lookup retries at most `MAX_RETRIES` times: from a reachable state, a failure after
/// the last retry gives up, and every retry waits twice as long as the one before.
pub proof fn lemma_retries_bounded(state: OffsetsRetry, failure: OffsetsFailure)
    requires
        state.wf(),
    ensures
        state.retries == MAX_RETRIES ==> spec_on_failure(state, failure).0 == RetryDecision::GiveUp(RetryError::Exhausted),
        spec_on_failure(state, failure).0 matches RetryDecision::RetryAfter(pause) ==> {
            &&& pause == backoff_before(state.retries as nat)
            &&& spec_on_failure(state, failure).1.backoff_millis == 2 * pause
            &&& spec_on_failure(state, failure).1.retries == state.retries + 1
        },
{
    lemma_backoff_bound(state.retries as nat);
}

/// The pauses of all retries of a lookup add up to 310 milliseconds at most.
pub proof fn lemma_total_pause()
    ensures
        total_pause(MAX_RETRIES as nat) == 310,
        forall|n: nat| n <= MAX_RETRIES ==> #[trigger] total_pause(n) <= 310,
{
    reveal_with_fuel(total_pause, 6);
    reveal_with_fuel(backoff_before, 6);
    assert(total_pause(0) == 0);
    assert(total_pause(1) == 10);
    assert(total_pause(2) == 30);
    assert(total_pause(3) == 70);
    assert(total_pause(4) == 150);
    assert(total_pause(5) == 310);
}

} // verus!
