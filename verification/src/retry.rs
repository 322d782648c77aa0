//! Bounded retry with a fixed backoff.
//!
//! A write is attempted up to `max_attempts` times. After a failed attempt
//! that was not the last one allowed, the writer waits `backoff_ms` and tries
//! again; after the last one it gives up, and the failure is fatal.

use vstd::prelude::*;

verus! {

/// Attempts allowed for one write.
pub const DEFAULT_MAX_ATTEMPTS: u32 = 8;

/// Milliseconds between a failed attempt and the next one.
pub const DEFAULT_BACKOFF_MS: u64 = 64;

/// How often a write is attempted, and how long the writer waits in between.
#[derive(Clone, Copy, Debug, PartialEq, Eq)]
pub struct RetryPolicy {
    /// Attempts allowed for one write, the first one included.
    pub max_attempts: u32,
    /// Milliseconds to wait after a failed attempt before the next one.
    pub backoff_ms: u64,
}

/// What follows a failed attempt.
#[derive(Clone, Copy, Debug, PartialEq, Eq)]
pub enum RetryDecision {
    /// Wait `delay_ms`, then attempt the same write again.
    Retry { delay_ms: u64 },
    /// The attempts are used up: the failure is final.
    GiveUp,
}

impl RetryPolicy {
    /// The decision after attempt number `attempt` (counted from 1) failed.
    pub open spec fn decision(self, attempt: int) -> RetryDecision {
        if attempt < self.max_attempts {
            RetryDecision::Retry { delay_ms: self.backoff_ms }
        } else {
            RetryDecision::GiveUp
        }
    }

    /// The number of attempts made on a write that never succeeds.
    pub open spec fn attempts_on_permanent_failure(self) -> int {
        if self.max_attempts >= 1 {
            self.max_attempts as int
        } else {
            1
        }
    }

    /// The policy of the standard workload.
    pub open spec fn standard_policy() -> RetryPolicy {
        RetryPolicy { max_attempts: DEFAULT_MAX_ATTEMPTS, backoff_ms: DEFAULT_BACKOFF_MS }
    }

    /// Eight attempts, 64 ms apart.
    pub fn standard() -> (policy: RetryPolicy)
        ensures
            policy == RetryPolicy::standard_policy(),
    {
        RetryPolicy { max_attempts: DEFAULT_MAX_ATTEMPTS, backoff_ms: DEFAULT_BACKOFF_MS }
    }

    /// Decides what follows the failure of attempt number `attempt`
    /// (counted from 1).
    pub fn after_failure(&self, attempt: u32) -> (decision: RetryDecision)
        ensures
            decision == self.decision(attempt as int),
    {
        if attempt < self.max_attempts {
            RetryDecision::Retry { delay_ms: self.backoff_ms }
        } else {
            RetryDecision::GiveUp
        }
    }

    /// A write that keeps failing is retried after every attempt before the
    /// last one allowed, and given up exactly at the last one: neither
    /// earlier nor later.
    pub proof fn gives_up_at_the_last_attempt(self, attempt: int)
        requires
            1 <= attempt <= self.attempts_on_permanent_failure(),
        ensures
            attempt < self.attempts_on_permanent_failure() ==> self.decision(attempt)
                == (RetryDecision::Retry { delay_ms: self.backoff_ms }),
            attempt == self.attempts_on_permanent_failure() ==> self.decision(attempt)
                == RetryDecision::GiveUp,
    {
    }
}

} // verus!
