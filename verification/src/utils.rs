//! The policy of retrying an attempt that came back empty.

use vstd::prelude::*;

verus! {

/// What follows an attempt that came back empty.
#[derive(Debug, Clone, Copy, PartialEq, Eq, Structural)]
pub enum RetryStep {
    /// Sleep the retry delay, then make the next attempt.
    SleepAndRetry,
    /// That was the last attempt: give up.
    GiveUp,
}

/// After attempt number `attempt` (counted from 1) of `attempts` came back
/// empty, the next one follows unless this was the last.
pub fn after_empty_attempt(attempt: u8, attempts: u8) -> (step: RetryStep)
    requires
        1 <= attempt <= attempts,
    ensures
        step == (if attempt == attempts {
            RetryStep::GiveUp
        } else {
            RetryStep::SleepAndRetry
        }),
{
    if attempt == attempts {
        RetryStep::GiveUp
    } else {
        RetryStep::SleepAndRetry
    }
}

} // verus!
