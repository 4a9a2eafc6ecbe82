//! The debounce timer's schedule.
//!
//! A reschedulable periodic alarm: it fires once each period unless a
//! `ping_after` pulls the next fire closer. The schedule here is pure
//! state — the task that actually sleeps lives outside and drives this
//! state with the delays it observes, so every property of the schedule
//! holds whatever the scheduler does.

use vstd::prelude::*;

verus! {

/// The schedule of a debounced, reschedulable one-shot/periodic alarm.
/// All durations are in milliseconds.
pub struct Timer {
    /// The quiescence period restored after each fire.
    pub period_ms: u64,
    /// Time left until the next fire.
    pub remaining_ms: u64,
}

/// The schedule after a `ping_after`: the next fire comes after the
/// minimum of the asked delay and the wait already remaining.
pub open spec fn spec_ping_after(t: Timer, delay_ms: u64) -> Timer {
    Timer {
        period_ms: t.period_ms,
        remaining_ms: if delay_ms < t.remaining_ms {
            delay_ms
        } else {
            t.remaining_ms
        },
    }
}

impl Timer {
    /// A fresh timer waits one full period before its first fire.
    pub fn new(period_ms: u64) -> (t: Timer)
        ensures
            t.period_ms == period_ms,
            t.remaining_ms == period_ms,
    {
        Timer { period_ms, remaining_ms: period_ms }
    }

    /// Pull the next fire closer, never push it away: the remaining wait
    /// becomes the minimum of the asked delay and the current wait.
    pub fn ping_after(&mut self, delay_ms: u64)
        ensures
            *final(self) == spec_ping_after(*old(self), delay_ms),
    {
        if delay_ms < self.remaining_ms {
            self.remaining_ms = delay_ms;
        }
    }

    /// Let `elapsed_ms` of wall time pass; report whether the alarm
    /// fired. A fire restores the full period.
    pub fn advance(&mut self, elapsed_ms: u64) -> (fired: bool)
        ensures
            final(self).period_ms == old(self).period_ms,
            fired <==> elapsed_ms >= old(self).remaining_ms,
            fired ==> final(self).remaining_ms == old(self).period_ms,
            !fired ==> final(self).remaining_ms == old(self).remaining_ms - elapsed_ms,
    {
        if elapsed_ms >= self.remaining_ms {
            self.remaining_ms = self.period_ms;
            true
        } else {
            self.remaining_ms = self.remaining_ms - elapsed_ms;
            false
        }
    }
}

/// A `ping_after` with a delay shorter than the remaining wait makes the
/// next fire come within exactly that delay; one with a delay at least
/// the remaining wait leaves the next fire where it was. In particular a
/// `ping_after` never delays the next fire.
pub proof fn lemma_ping_after_bounds(t: Timer, delay_ms: u64)
    ensures
        delay_ms < t.remaining_ms ==> spec_ping_after(t, delay_ms).remaining_ms == delay_ms,
        delay_ms >= t.remaining_ms ==> spec_ping_after(t, delay_ms).remaining_ms == t.remaining_ms,
        spec_ping_after(t, delay_ms).remaining_ms <= t.remaining_ms,
        spec_ping_after(t, delay_ms).remaining_ms <= delay_ms || spec_ping_after(
            t,
            delay_ms,
        ).remaining_ms == t.remaining_ms,
{
}

} // verus!
