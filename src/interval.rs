use vstd::prelude::*;

verus! {

/// Time in whole seconds since a fixed reference instant chosen by the caller.
pub type Timestamp = u64;

/// The assumed gap between two pings of a client, in seconds. An activity
/// window closes this long after the read that opened it.
pub const ASSUMED_PING_INTERVAL_SECS: u64 = 5;

/// One inferred window of client activity, from `start` to `end`.
#[derive(Clone, Copy, Debug, PartialEq, Eq, Structural)]
pub struct ActivityInterval {
    pub start: Timestamp,
    pub end: Timestamp,
}

impl ActivityInterval {
    /// The window never runs backwards.
    pub open spec fn is_ordered(self) -> bool {
        self.start <= self.end
    }

    /// Length of the window in seconds.
    pub open spec fn length(self) -> int {
        self.end - self.start
    }

    /// The window opened by activity observed at `now`.
    pub open spec fn expected_from(now: Timestamp) -> ActivityInterval {
        ActivityInterval { start: now, end: (now + ASSUMED_PING_INTERVAL_SECS) as u64 }
    }

    /// Whether `now` leaves room for the window it would open.
    pub open spec fn fits(now: Timestamp) -> bool {
        now + ASSUMED_PING_INTERVAL_SECS <= u64::MAX
    }

    /// Builds a window; `None` when `end` lies before `start`.
    pub fn new(start: Timestamp, end: Timestamp) -> (r: Option<ActivityInterval>)
        ensures
            start <= end <==> r.is_some(),
            r matches Some(iv) ==> iv.start == start && iv.end == end,
    {
        if start <= end {
            Some(ActivityInterval { start, end })
        } else {
            None
        }
    }

    /// The window for activity observed at `now`: it starts at `now` and
    /// closes one assumed ping interval later.
    pub fn after_activity_at(now: Timestamp) -> (r: ActivityInterval)
        requires
            Self::fits(now),
        ensures
            r == Self::expected_from(now),
            r.is_ordered(),
            r.length() == ASSUMED_PING_INTERVAL_SECS,
    {
        ActivityInterval { start: now, end: now + ASSUMED_PING_INTERVAL_SECS }
    }

    pub fn start(&self) -> (r: Timestamp)
        ensures
            r == self.start,
    {
        self.start
    }

    pub fn end(&self) -> (r: Timestamp)
        ensures
            r == self.end,
    {
        self.end
    }
}

/// Every window of a sequence is ordered.
pub open spec fn all_ordered(ivs: Seq<ActivityInterval>) -> bool {
    forall|t: int| 0 <= t < ivs.len() ==> (#[trigger] ivs[t]).is_ordered()
}

} // verus!
