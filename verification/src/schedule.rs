//! When the window refreshes its measurements: the fast metrics (CPU and memory)
//! every half second, the slow ones (processes, disks, GPUs, NPU, battery) every two
//! seconds, each timed from its own last refresh.
use vstd::prelude::*;

verus! {

/// Nanoseconds between two refreshes of the fast metrics.
pub const FAST_REFRESH_NANOS: u128 = 500_000_000;

/// Nanoseconds between two refreshes of the slow metrics.
pub const SLOW_REFRESH_NANOS: u128 = 2_000_000_000;

/// Frame times kept for the FPS counter.
pub const FRAME_WINDOW: usize = 60;

/// Milliseconds after which a frame asks to be drawn again.
pub const REPAINT_AFTER_MILLIS: u64 = 100;

/// Which measurements a frame refreshes.
#[derive(Clone, Copy, PartialEq, Eq, Debug)]
pub struct RefreshPlan {
    pub fast: bool,
    pub slow: bool,
}

/// The refreshes that are due, given the nanoseconds elapsed since the last refresh
/// of the fast and of the slow metrics: each is due once its interval has passed.
pub fn refresh_plan(since_fast: u128, since_slow: u128) -> (plan: RefreshPlan)
    ensures
        plan.fast == (since_fast >= FAST_REFRESH_NANOS),
        plan.slow == (since_slow >= SLOW_REFRESH_NANOS),
{
    RefreshPlan { fast: since_fast >= FAST_REFRESH_NANOS, slow: since_slow >= SLOW_REFRESH_NANOS }
}

} // verus!
