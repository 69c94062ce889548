//! Memory management utilities and analysis.

pub mod analytics;
pub mod utils;
pub mod consolidation;
pub mod versioning;
pub mod graph_analysis;
pub mod search_extensions;
pub mod operations;
pub mod traversal;
pub mod graph_operations;

use vstd::prelude::*;
use crate::time::{now, ts_before, Timestamp};

verus! {

/// Time range for filtering memories and analysis: from `start` to `end`,
/// both included.
#[derive(Debug, Clone, Copy, PartialEq, Eq, Structural)]
pub struct TimeRange {
    pub start: Timestamp,
    pub end: Timestamp,
}

/// Whether `t` lies in the range, ends included.
pub open spec fn in_range(r: TimeRange, t: Timestamp) -> bool {
    !ts_before(t, r.start) && !ts_before(r.end, t)
}

/// The number of nanoseconds since the epoch at `t`.
pub open spec fn epoch_nanos(t: Timestamp) -> int {
    t.secs * 1_000_000_000 + t.nanos
}

/// The instant `secs` seconds before `t`.
pub open spec fn seconds_before(t: Timestamp, secs: int) -> Timestamp {
    Timestamp { secs: (t.secs - secs) as i64, nanos: t.nanos }
}

impl TimeRange {
    /// Create a new time range.
    pub fn new(start: Timestamp, end: Timestamp) -> (r: Self)
        ensures
            r.start == start,
            r.end == end,
    {
        Self { start, end }
    }

    /// The range from `days` days ago to now.
    pub fn last_days(days: i64) -> (r: Self)
        requires
            -80_000_000 <= days <= 80_000_000,
        ensures
            r.start == seconds_before(r.end, days * 86_400),
    {
        let end = now();
        let start = Timestamp { secs: end.secs - days * 86_400, nanos: end.nanos };
        Self { start, end }
    }

    /// The range from `hours` hours ago to now.
    pub fn last_hours(hours: i64) -> (r: Self)
        requires
            -2_000_000_000 <= hours <= 2_000_000_000,
        ensures
            r.start == seconds_before(r.end, hours * 3_600),
    {
        let end = now();
        let start = Timestamp { secs: end.secs - hours * 3_600, nanos: end.nanos };
        Self { start, end }
    }

    /// Check if a timestamp falls within this range.
    pub fn contains(&self, timestamp: Timestamp) -> (r: bool)
        ensures
            r == in_range(*self, timestamp),
    {
        !timestamp.is_before(&self.start) && !self.end.is_before(&timestamp)
    }

    /// The length of this range in nanoseconds (negative when it ends before
    /// it starts).
    pub fn duration(&self) -> (d: i128)
        ensures
            d == epoch_nanos(self.end) - epoch_nanos(self.start),
    {
        let e = self.end.secs as i128 * 1_000_000_000 + self.end.nanos as i128;
        let s = self.start.secs as i128 * 1_000_000_000 + self.start.nanos as i128;
        e - s
    }
}

} // verus!
