use vstd::prelude::*;

verus! {

/// A self-correcting interval gate. The host supplies its monotonic clock as
/// a count of nanoseconds; the limiter only decides how long each paced
/// agent must sleep and where the next deadline lies.
pub struct Limiter {
    /// Nanoseconds per period.
    pub delay: u64,
    /// Whether a late tick shortens the following one (missed ticks are
    /// caught up) or the deadline restarts from "now" (lag is forgiven).
    pub catch_up: bool,
    /// The next deadline, in host clock nanoseconds.
    pub target: u64,
}

impl Limiter {
    pub fn new(delay_nanos: u64, catch_up: bool, now_nanos: u64) -> (r: Limiter)
        requires
            delay_nanos >= 1,
        ensures
            r.delay == delay_nanos,
            r.catch_up == catch_up,
            r.target == now_nanos,
    {
        Limiter { delay: delay_nanos, catch_up, target: now_nanos }
    }

    /// How long the caller must still sleep before its next tick may run.
    pub fn sleep_needed(&self, now_nanos: u64) -> (r: u64)
        ensures
            r == if now_nanos < self.target {
                self.target - now_nanos
            } else {
                0
            },
    {
        if now_nanos < self.target {
            self.target - now_nanos
        } else {
            0
        }
    }

    /// Move the deadline after a tick: forward by exactly one period when
    /// catching up (falling back to "now" if that would overflow the clock),
    /// and to "now" otherwise.
    pub fn advance(&mut self, now_nanos: u64)
        ensures
            final(self).delay == old(self).delay,
            final(self).catch_up == old(self).catch_up,
            final(self).target == if old(self).catch_up {
                if old(self).target + old(self).delay <= u64::MAX {
                    (old(self).target + old(self).delay) as u64
                } else {
                    now_nanos
                }
            } else {
                now_nanos
            },
    {
        if self.catch_up {
            self.target = match self.target.checked_add(self.delay) {
                Some(t) => t,
                None => now_nanos,
            };
        } else {
            self.target = now_nanos;
        }
    }

    /// Restart the deadline from "now", so that a deliberately long tick (a
    /// blocking instruction) is not followed by a catch-up burst.
    pub fn reset(&mut self, now_nanos: u64)
        ensures
            final(self).delay == old(self).delay,
            final(self).catch_up == old(self).catch_up,
            final(self).target == now_nanos,
    {
        self.target = now_nanos;
    }
}

} // verus!
