//! The tick scheduler that paces viewport redraws.
//!
//! The shell reads its monotone clock and hands the current time, in
//! milliseconds, to [`UpdateTracker::update`]; the tracker decides whether a
//! full tick interval has elapsed since the last accepted tick.

use vstd::prelude::*;

verus! {

/// Remembers when the last render tick was accepted.
#[derive(Clone, Copy, PartialEq, Eq, Structural, Debug)]
pub struct UpdateTracker {
    pub last_tick_ms: u64,
}

impl UpdateTracker {
    /// A tracker whose last tick is the given instant.
    pub fn new(now_ms: u64) -> (t: UpdateTracker)
        ensures
            t.last_tick_ms == now_ms,
    {
        UpdateTracker { last_tick_ms: now_ms }
    }

    /// Decide whether a tick interval has elapsed. Returns true, and starts
    /// the next interval at `now_ms`, exactly when at least `tick_ms`
    /// milliseconds have passed since the last accepted tick.
    ///
    /// The clock is the shell's monotone clock, so time never runs backwards
    /// between calls.
    pub fn update(&mut self, now_ms: u64, tick_ms: u64) -> (tick: bool)
        requires
            old(self).last_tick_ms <= now_ms,
        ensures
            tick == (now_ms - old(self).last_tick_ms >= tick_ms),
            final(self).last_tick_ms == if tick {
                now_ms
            } else {
                old(self).last_tick_ms
            },
    {
        let mut tick_update = false;
        if now_ms - self.last_tick_ms >= tick_ms {
            self.last_tick_ms = now_ms;
            tick_update = true;
        }
        tick_update
    }
}

} // verus!
