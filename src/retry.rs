//! A fixed budget of attempts with a fixed pause between them.
use vstd::prelude::*;

verus! {

/// What follows a failed attempt.
#[derive(Debug, Clone, Copy, PartialEq, Eq, Structural)]
pub enum RetryDecision {
    /// Sleep the fixed interval, then try again.
    SleepThenRetry,
    /// The cap is spent: shut the pipeline down.
    GiveUp,
}

/// Attempts made against a fixed cap; the pause between two attempts never grows.
#[derive(Debug, Clone, Copy, PartialEq, Eq, Structural)]
pub struct RetryBudget {
    pub attempts: usize,
    pub max_attempts: usize,
}

impl RetryBudget {
    /// Well-formed: never more attempts than the cap.
    pub open spec fn wf(&self) -> bool {
        self.attempts <= self.max_attempts
    }

    /// A budget of `max_attempts` attempts, none made yet.
    pub fn new(max_attempts: usize) -> (r: RetryBudget)
        ensures
            r.wf(),
            r.attempts == 0,
            r.max_attempts == max_attempts,
    {
        RetryBudget { attempts: 0, max_attempts }
    }

    /// Whether an attempt may still be made.
    pub fn can_attempt(&self) -> (r: bool)
        ensures
            r == (self.attempts < self.max_attempts),
    {
        self.attempts < self.max_attempts
    }

    /// Counts a failed attempt and says whether another one follows.
    pub fn on_failure(&mut self) -> (r: RetryDecision)
        requires
            old(self).wf(),
        ensures
            final(self).wf(),
            final(self).max_attempts == old(self).max_attempts,
            final(self).attempts == if old(self).attempts < old(self).max_attempts {
                old(self).attempts + 1
            } else {
                old(self).attempts as int
            },
            (r == RetryDecision::SleepThenRetry) == (final(self).attempts
                < final(self).max_attempts),
    {
        if self.attempts < self.max_attempts {
            self.attempts = self.attempts + 1;
        }
        if self.attempts < self.max_attempts {
            RetryDecision::SleepThenRetry
        } else {
            RetryDecision::GiveUp
        }
    }
}

} // verus!
