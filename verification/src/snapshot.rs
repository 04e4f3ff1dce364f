//! Snapshots: the delta of two counter reads paired with the elapsed
//! wall-clock interval, and the idle-percentage metric derived from it.

use crate::record::CoreStats;
use crate::record::CoreStatsView;
use crate::record::spec_diff;
use vstd::prelude::*;

verus! {

/// A delta record together with the elapsed wall-clock time, in
/// milliseconds, of the sampling interval it covers.
pub struct CoreSnapshot {
    /// Ticks accumulated during the interval (not ticks since boot).
    pub stats: CoreStats,
    /// Length of the interval in milliseconds.
    pub period_ms: u64,
}

/// The mathematical content of a [`CoreSnapshot`].
pub struct CoreSnapshotView {
    pub stats: CoreStatsView,
    pub period_ms: u64,
}

impl View for CoreSnapshot {
    type V = CoreSnapshotView;

    open spec fn view(&self) -> CoreSnapshotView {
        CoreSnapshotView { stats: self.stats@, period_ms: self.period_ms }
    }
}

impl DeepView for CoreSnapshot {
    type V = CoreSnapshotView;

    open spec fn deep_view(&self) -> CoreSnapshotView {
        self.view()
    }
}

/// The idle percentage of an interval: idle ticks are fixed-rate units
/// (typically hundredths of a second), so `idle * 1000 / period_ms` yields
/// the percentage of the interval's possible busy time spent idle.
pub open spec fn spec_idle_percent(idle_time: u64, period_ms: u64) -> int {
    (idle_time * 1000) / (period_ms as int)
}

impl CoreSnapshot {
    /// Percentage of the covered interval spent idle.  For the aggregate
    /// row this sums across all cores and can exceed 100.
    pub fn idle_percent(&self) -> (r: u64)
        requires
            self.period_ms > 0,
            self.stats.idle_time * 1000 <= u64::MAX,
        ensures
            r == spec_idle_percent(self.stats.idle_time, self.period_ms),
    {
        (self.stats.idle_time * 1000) / self.period_ms
    }
}

/// Law: differencing two identical counter reads yields zero in every
/// differenced field, and an idle percentage of zero over any positive
/// interval.  The one exception is `io_wait`, which is by design carried
/// verbatim from the newer read rather than differenced.
pub proof fn lemma_identical_reads_zero_delta(c: CoreStatsView, period_ms: u64)
    requires
        period_ms > 0,
    ensures
        spec_diff(c, c).user_processes == 0,
        spec_diff(c, c).nice_processes == 0,
        spec_diff(c, c).system_processes == 0,
        spec_diff(c, c).idle_time == 0,
        spec_diff(c, c).io_wait == c.io_wait,
        spec_diff(c, c).irq == 0,
        spec_diff(c, c).soft_irq == 0,
        spec_diff(c, c).steal_time == 0,
        spec_diff(c, c).guest == 0,
        spec_diff(c, c).guest_nice == 0,
        spec_idle_percent(spec_diff(c, c).idle_time, period_ms) == 0,
{
}

} // verus!
