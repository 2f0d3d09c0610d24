//! The generation-attempt protocol: bounded attempts at a fixed interval.
//! The caller performs each attempt and each wait; this module decides what
//! comes next.
use vstd::prelude::*;
use crate::error::{error_text, APIError};

verus! {

/// Attempts made before giving up, by default.
pub const DEFAULT_MAX_ATTEMPTS: u32 = 3;

/// Wait between two attempts, in milliseconds, by default.
pub const DEFAULT_INTERVAL_MS: u64 = 100;

#[derive(Clone, Copy, Debug, PartialEq, Eq, Structural)]
pub struct RetryPolicy {
    pub max_attempts: u32,
    pub interval_ms: u64,
}

impl RetryPolicy {
    pub fn new(max_attempts: u32, interval_ms: u64) -> (r: Self)
        requires
            max_attempts >= 1,
        ensures
            r.max_attempts == max_attempts,
            r.interval_ms == interval_ms,
    {
        RetryPolicy { max_attempts, interval_ms }
    }

    pub fn default_policy() -> (r: Self)
        ensures
            r.max_attempts == DEFAULT_MAX_ATTEMPTS,
            r.interval_ms == DEFAULT_INTERVAL_MS,
    {
        RetryPolicy { max_attempts: DEFAULT_MAX_ATTEMPTS, interval_ms: DEFAULT_INTERVAL_MS }
    }
}

/// What the caller does after an attempt.
#[derive(Debug)]
pub enum AttemptAction {
    /// Wait this many milliseconds, then make the next attempt.
    RetryAfter(u64),
    /// The attempt succeeded with this text.
    Succeeded(String),
    /// Every attempt failed; this error wraps the last failure.
    Exhausted(APIError),
}

/// One retry cycle: `attempt` is the number of the attempt in progress.
#[derive(Debug)]
pub struct GenerationAttempt {
    pub policy: RetryPolicy,
    pub attempt: u32,
    pub stage: String,
}

impl GenerationAttempt {
    pub open spec fn wf(&self) -> bool {
        1 <= self.attempt <= self.policy.max_attempts
    }

    /// The first attempt of a cycle whose failure is reported under `stage`.
    pub fn new(policy: RetryPolicy, stage: &str) -> (r: Self)
        requires
            policy.max_attempts >= 1,
        ensures
            r.wf(),
            r.attempt == 1,
            r.policy == policy,
            r.stage@ == stage@,
    {
        GenerationAttempt { policy, attempt: 1, stage: stage.to_string() }
    }

    /// Records the outcome of the attempt in progress. A success ends the
    /// cycle with its text; a failure before the last attempt moves to the
    /// next attempt after the fixed interval; a failure of the last attempt
    /// ends the cycle with that failure wrapped under the stage name.
    pub fn record(&mut self, outcome: Result<String, APIError>) -> (r: AttemptAction)
        requires
            old(self).wf(),
        ensures
            final(self).wf(),
            final(self).policy == old(self).policy,
            final(self).stage == old(self).stage,
            match outcome {
                Ok(t) => r == AttemptAction::Succeeded(t) && final(self).attempt == old(
                    self,
                ).attempt,
                Err(e) => if old(self).attempt < old(self).policy.max_attempts {
                    r == AttemptAction::RetryAfter(old(self).policy.interval_ms)
                        && final(self).attempt == old(self).attempt + 1
                } else {
                    final(self).attempt == old(self).attempt && match r {
                        AttemptAction::Exhausted(w) => w.name@ == old(self).stage@
                            && w.message@ == error_text(e.name@, e.message@),
                        _ => false,
                    }
                },
            },
    {
        match outcome {
            Ok(t) => AttemptAction::Succeeded(t),
            Err(e) => {
                if self.attempt < self.policy.max_attempts {
                    self.attempt = self.attempt + 1;
                    AttemptAction::RetryAfter(self.policy.interval_ms)
                } else {
                    AttemptAction::Exhausted(APIError::wrap(self.stage.as_str(), &e))
                }
            },
        }
    }
}

} // verus!
