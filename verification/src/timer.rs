use vstd::prelude::*;

verus! {

/// Largest countdown, in milliseconds, a timer can be started with; also the
/// magnitude of the floor at which an expired countdown stops falling.
pub const TIMER_LIMIT: i64 = 1_000_000_000;

/// A countdown gating a temporary paddle attribute.  The remaining time is
/// the exact signed remainder — it keeps counting below zero once expired —
/// and only saturates at a floor far below done (stated in the contract),
/// which no observable behaviour depends on.  The un-started value 0 is
/// already "done".
#[derive(Clone, Copy, PartialEq, Eq, Structural, Debug)]
pub struct PowerupTimer {
    pub time_left: i64,
}

pub open spec fn timer_ok(t: PowerupTimer) -> bool {
    -TIMER_LIMIT <= t.time_left <= TIMER_LIMIT
}

/// Remaining time after counting a timer down by `dt`: the exact difference,
/// saturating at the floor.
pub open spec fn spec_timer_tick(left: int, dt: int) -> int {
    if left - dt >= -TIMER_LIMIT {
        left - dt
    } else {
        -TIMER_LIMIT as int
    }
}

impl PowerupTimer {
    /// A fresh timer, vacuously done.
    pub fn new() -> (t: PowerupTimer)
        ensures
            t.time_left == 0,
    {
        PowerupTimer { time_left: 0 }
    }

    /// Start (or restart) the countdown at `length` milliseconds.
    pub fn start_timer(&mut self, length: i64)
        requires
            0 <= length <= TIMER_LIMIT,
        ensures
            final(self).time_left == length,
    {
        self.time_left = length;
    }

    /// Count down by the frame's elapsed time.
    pub fn update(&mut self, dt: i64)
        requires
            dt >= 0,
            timer_ok(*old(self)),
        ensures
            final(self).time_left == spec_timer_tick(old(self).time_left as int, dt as int),
            timer_ok(*final(self)),
    {
        if dt >= self.time_left + TIMER_LIMIT {
            self.time_left = -TIMER_LIMIT;
        } else {
            self.time_left = self.time_left - dt;
        }
    }

    /// Whether the countdown has run out (or was never started).
    pub fn is_timer_done(&self) -> (done: bool)
        ensures
            done == (self.time_left <= 0),
    {
        self.time_left <= 0
    }
}

/// Once a timer is done it stays done until it is restarted: counting down
/// never raises the remaining time.
pub proof fn lemma_timer_done_stays_done(left: int, dt: int)
    requires
        dt >= 0,
        -TIMER_LIMIT <= left,
    ensures
        spec_timer_tick(left, dt) <= left,
        left <= 0 ==> spec_timer_tick(left, dt) <= 0,
{
}

} // verus!
