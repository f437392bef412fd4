use vstd::prelude::*;
use crate::interval::{ActivityInterval, Timestamp};
use crate::registry::ClientRecord;

verus! {

/// Seconds from `now` until `t`: zero when `t` is not later than `now`,
/// and at most `i32::MAX`.
pub open spec fn seconds_ahead(t: Timestamp, now: Timestamp) -> i32 {
    if t <= now {
        0
    } else if t - now > i32::MAX {
        i32::MAX
    } else {
        (t - now) as i32
    }
}

/// The horizontal extent at which a window is drawn, relative to `now`.
pub open spec fn span_of(iv: ActivityInterval, now: Timestamp) -> (i32, i32) {
    (seconds_ahead(iv.start, now), seconds_ahead(iv.end, now))
}

/// Executable form of `seconds_ahead`.
pub fn offset_from(t: Timestamp, now: Timestamp) -> (r: i32)
    ensures
        r == seconds_ahead(t, now),
{
    if t <= now {
        0
    } else if t - now > 2147483647u64 {
        2147483647i32
    } else {
        (t - now) as i32
    }
}

/// The layout a renderer draws from a snapshot at time `now`: row `i`
/// belongs to the `i`-th record and holds one horizontal span per window,
/// in the record's order.
pub fn chart_rows(snapshot: &Vec<ClientRecord>, now: Timestamp) -> (r: Vec<Vec<(i32, i32)>>)
    ensures
        r@.len() == snapshot@.len(),
        forall|i: int|
            0 <= i < r@.len() ==> (#[trigger] r@[i])@.len() == snapshot@[i].intervals@.len(),
        forall|i: int, t: int|
            0 <= i < r@.len() && 0 <= t < r@[i]@.len() ==> (#[trigger] r@[i]@[t]) == span_of(
                snapshot@[i].intervals@[t],
                now,
            ),
{
    let mut rows: Vec<Vec<(i32, i32)>> = Vec::new();
    let mut i: usize = 0;
    while i < snapshot.len()
        invariant
            i <= snapshot@.len(),
            rows@.len() == i,
            forall|a: int|
                0 <= a < i ==> (#[trigger] rows@[a])@.len() == snapshot@[a].intervals@.len(),
            forall|a: int, t: int|
                0 <= a < i && 0 <= t < rows@[a]@.len() ==> (#[trigger] rows@[a]@[t]) == span_of(
                    snapshot@[a].intervals@[t],
                    now,
                ),
        decreases snapshot@.len() - i,
    {
        let ivs = &snapshot[i].intervals;
        let mut row: Vec<(i32, i32)> = Vec::new();
        let mut t: usize = 0;
        while t < ivs.len()
            invariant
                t <= ivs@.len(),
                row@.len() == t,
                forall|u: int| 0 <= u < t ==> (#[trigger] row@[u]) == span_of(ivs@[u], now),
            decreases ivs@.len() - t,
        {
            let iv = ivs[t];
            row.push((offset_from(iv.start, now), offset_from(iv.end, now)));
            t = t + 1;
        }
        rows.push(row);
        i = i + 1;
    }
    rows
}

} // verus!
