//! Timer-tick gating of the indicator update scheduler.
//!
//! The scheduler alternates between idle (waiting on the fixed-interval
//! timer) and running (one full pass over all instruments in flight).
//! A tick starts a pass only when no pass is in flight, updates are
//! enabled, and the current UTC time of day lies inside the configured
//! window; a tick during a pass is skipped, never queued.  The timer
//! itself and the passes' I/O run outside the library and report back
//! through `on_pass_complete`.

use crate::config::{IndicatorsUpdaterConfig, DAY_NS};
use vstd::prelude::*;

verus! {

/// Single-flight state of the scheduler.
pub struct SchedulerGate {
    pub running: bool,
}

impl SchedulerGate {
    pub fn new() -> (r: SchedulerGate)
        ensures
            !r.running,
    {
        SchedulerGate { running: false }
    }

    /// Decides one timer tick: start a pass exactly when idle, enabled,
    /// and inside the operation window.
    pub fn on_tick(&mut self, config: &IndicatorsUpdaterConfig, now_ns: u64) -> (run: bool)
        requires
            now_ns < DAY_NS,
        ensures
            run == (!old(self).running && config.enabled && config.allowed_spec(now_ns as int)),
            final(self).running == (old(self).running || run),
    {
        if self.running {
            return false;
        }
        if !config.enabled {
            return false;
        }
        if !config.is_operation_allowed(now_ns) {
            return false;
        }
        self.running = true;
        true
    }

    /// The pass started by `on_tick` has finished; the next tick may
    /// start another.
    pub fn on_pass_complete(&mut self)
        ensures
            !final(self).running,
    {
        self.running = false;
    }
}

} // verus!
