//! The bookkeeping behind retrying a fallible operation a bounded number
//! of times: the caller performs the attempts; this counts the failures
//! and says when to give up.

use vstd::prelude::*;

verus! {

/// The retry budget of one operation.
#[derive(Debug, Clone, Copy, PartialEq, Eq, Structural)]
pub struct RetryPolicy {
    /// Attempts that have failed so far.
    pub failures: usize,
    /// How many attempts may be made in all.
    pub times: usize,
}

impl RetryPolicy {
    /// A fresh budget of `times` attempts.
    pub fn new(times: usize) -> (r: RetryPolicy)
        ensures
            r == (RetryPolicy { failures: 0usize, times }),
    {
        RetryPolicy { failures: 0, times }
    }

    /// Records one failed attempt; the result says whether another
    /// attempt is still allowed.
    pub fn record_failure(&mut self) -> (again: bool)
        requires
            old(self).failures < old(self).times,
        ensures
            final(self).failures == old(self).failures + 1,
            final(self).times == old(self).times,
            again == (old(self).failures + 1 < old(self).times),
    {
        self.failures = self.failures + 1;
        self.failures < self.times
    }
}

} // verus!
