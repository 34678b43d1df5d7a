//! Per-button repeat timer driven by a millisecond clock supplied by the caller.
use vstd::prelude::*;

verus! {

/// Default period between two repeat firings of a held button.
pub const REPEAT_INTERVAL_MS: u64 = 50;

/// A repeat timer: it ticks when at least `interval_ms` have passed since its
/// last tick (or since it was started).
#[derive(PartialEq, Eq, Structural, Clone, Copy, Debug)]
pub struct RepeatTimer {
    pub interval_ms: u64,
    pub last_ms: u64,
}

impl RepeatTimer {
    /// Whether the timer ticks when checked at `now_ms`.
    pub open spec fn is_due(self, now_ms: u64) -> bool {
        now_ms >= self.last_ms && now_ms - self.last_ms >= self.interval_ms
    }

    /// The timer after a check at `now_ms`: restarted from `now_ms` when it
    /// ticked, unchanged otherwise.
    pub open spec fn after_check(self, now_ms: u64) -> RepeatTimer {
        if self.is_due(now_ms) {
            RepeatTimer { interval_ms: self.interval_ms, last_ms: now_ms }
        } else {
            self
        }
    }

    /// A timer with the given period, started at `now_ms`.
    pub fn new(interval_ms: u64, now_ms: u64) -> (r: RepeatTimer)
        ensures
            r.interval_ms == interval_ms,
            r.last_ms == now_ms,
    {
        RepeatTimer { interval_ms, last_ms: now_ms }
    }

    /// Checks the timer at `now_ms`; returns whether it ticked, and restarts it
    /// from `now_ms` if so.
    pub fn check(&mut self, now_ms: u64) -> (ticked: bool)
        ensures
            ticked == old(self).is_due(now_ms),
            *final(self) == old(self).after_check(now_ms),
    {
        if now_ms >= self.last_ms && now_ms - self.last_ms >= self.interval_ms {
            self.last_ms = now_ms;
            true
        } else {
            false
        }
    }
}

/// Two ticks of one timer are never closer than its period: after a tick at
/// `first_ms`, a later check at `second_ms` ticks only if at least the period
/// has passed.
pub proof fn lemma_ticks_spaced(timer: RepeatTimer, first_ms: u64, second_ms: u64)
    requires
        timer.is_due(first_ms),
    ensures
        timer.after_check(first_ms).is_due(second_ms) ==> second_ms - first_ms
            >= timer.interval_ms,
        timer.after_check(first_ms).last_ms == first_ms,
{
}

} // verus!
