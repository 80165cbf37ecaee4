//! Whether a collector starts over after a run attempt ends, and when.

use vstd::prelude::*;
use crate::backoff::{jitter_spec, next_step, Backoff};
use crate::error::Error;

verus! {

/// How one run attempt of a collector ended.
pub enum RunEnd {
    /// The attempt failed, before or while running.
    Failed(Error),
    /// The session had been listening and stopped running.
    Disconnected,
    /// The selection left no tag to monitor.
    NothingToMonitor,
}

/// What a collector does once a run attempt has ended.
pub enum NextStep {
    /// Return from `run` with this result.
    Finish(Result<(), Error>),
    /// Wait this many nanoseconds, then start a fresh attempt: connect,
    /// scan or load the cache, subscribe.
    Restart(u64),
}

/// The attempt is the last: shutdown was signalled, restarting is off, there
/// is nothing to monitor, or the failure is one that retrying can never fix.
pub open spec fn is_final(end: RunEnd, stopped: bool, resilient: bool) -> bool {
    ||| stopped
    ||| !resilient
    ||| end is NothingToMonitor
    ||| (end matches RunEnd::Failed(e) && !e.spec_recoverable())
}

/// What `run` returns after its last attempt: the failure, or success.
pub open spec fn final_result(end: RunEnd) -> Result<(), Error> {
    match end {
        RunEnd::Failed(e) => Err(e),
        _ => Ok(()),
    }
}

/// The step a restart after `end` waits around: the smallest when the
/// attempt had been listening, else the current one.
pub open spec fn restart_base(backoff: Backoff, end: RunEnd) -> u64 {
    if end is Disconnected {
        backoff.spec_min()
    } else {
        backoff.spec_current()
    }
}

/// `delay` is `base` with some jitter applied.
pub open spec fn jittered_from(delay: u64, base: u64) -> bool {
    exists|seed: u64| delay == jitter_spec(base, seed)
}

/// Decides what follows a run attempt.
///
/// A final attempt (see [`is_final`]) returns its result and leaves the
/// backoff as it was. Otherwise the collector restarts after a jittered
/// delay: an attempt that got as far as listening counts as a success, so the
/// backoff first returns to its smallest step; a failed one waits the current
/// step. Either way the step then doubles, up to the cap.
pub fn after_run(backoff: &mut Backoff, end: RunEnd, stopped: bool, resilient: bool) -> (r: NextStep)
    ensures
        is_final(end, stopped, resilient) ==> r == NextStep::Finish(final_result(end)) && *final(backoff)
            == *old(backoff),
        !is_final(end, stopped, resilient) ==> {
            &&& r matches NextStep::Restart(delay) && jittered_from(delay, restart_base(*old(backoff), end))
            &&& final(backoff).spec_current() == next_step(restart_base(*old(backoff), end), old(backoff).spec_max())
            &&& final(backoff).spec_min() == old(backoff).spec_min()
            &&& final(backoff).spec_max() == old(backoff).spec_max()
        },
{
    if stopped || !resilient {
        return NextStep::Finish(final_result_of(end));
    }
    match end {
        RunEnd::NothingToMonitor => {
            assert(is_final(end, stopped, resilient));
            NextStep::Finish(Ok(()))
        },
        RunEnd::Failed(e) => {
            if !e.is_recoverable() {
                NextStep::Finish(Err(e))
            } else {
                NextStep::Restart(backoff.next())
            }
        },
        RunEnd::Disconnected => {
            backoff.reset();
            NextStep::Restart(backoff.next())
        },
    }
}

/// The result `run` returns when `end` is its last attempt.
fn final_result_of(end: RunEnd) -> (r: Result<(), Error>)
    ensures
        r == final_result(end),
{
    match end {
        RunEnd::Failed(e) => Err(e),
        _ => Ok(()),
    }
}

/// A failure that retrying can never fix ends `run` with that failure,
/// whatever else holds; a recoverable one never does while restarting is on
/// and nothing asked the collector to stop.
pub proof fn law_only_recoverable_failures_restart(e: Error, stopped: bool, resilient: bool)
    ensures
        !e.spec_recoverable() ==> is_final(RunEnd::Failed(e), stopped, resilient) && final_result(RunEnd::Failed(e))
            == Err::<(), Error>(e),
        e.spec_recoverable() && !stopped && resilient ==> !is_final(RunEnd::Failed(e), stopped, resilient),
{
}

} // verus!
