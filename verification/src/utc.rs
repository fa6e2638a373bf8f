//! Points in time on the UTC scale, and the age limit on files.
use chrono::{DateTime, Utc};
use std::time::{SystemTime, UNIX_EPOCH};
use vstd::prelude::*;

verus! {

/// A point in time, as whole seconds since the Unix epoch and the nanoseconds
/// past that second. During a leap second the nanoseconds run past
/// 999,999,999.
#[derive(Clone, Copy, Debug)]
pub struct UtcTime {
    pub seconds: i64,
    pub nanos: u32,
}

/// The distance of a system time from the Unix epoch: whether the time is not
/// before the epoch, and the distance in whole seconds and further nanoseconds.
pub uninterp spec fn epoch_distance(time: SystemTime) -> (bool, u64, u32);

/// The whole second, counted from the Unix epoch, in which a system time falls.
pub open spec fn unix_seconds(time: SystemTime) -> int {
    let (after, seconds, nanos) = epoch_distance(time);
    if after {
        seconds as int
    } else if nanos == 0 {
        -(seconds as int)
    } else {
        -(seconds as int) - 1
    }
}

/// The nanoseconds of a system time past its [`unix_seconds`].
pub open spec fn unix_nanos(time: SystemTime) -> int {
    let (after, _, nanos) = epoch_distance(time);
    if after || nanos == 0 {
        nanos as int
    } else {
        1_000_000_000 - nanos
    }
}

/// The first second that `chrono` can express: the start of the year -262143.
pub const MIN_UTC_SECONDS: i64 = -8_334_601_228_800;

/// The last second that `chrono` can express: the end of the year 262142.
pub const MAX_UTC_SECONDS: i64 = 8_210_266_876_799;

/// Whether `chrono` can express a system time.
pub open spec fn is_expressible(time: SystemTime) -> bool {
    MIN_UTC_SECONDS <= unix_seconds(time) <= MAX_UTC_SECONDS
}

/// `SystemTime::duration_since` applied to the Unix epoch, with a failure
/// turned into the distance that it reports. The nanoseconds do not make up a
/// second.
#[verifier::external_body]
fn distance_from_epoch(time: &SystemTime) -> (distance: (bool, u64, u32))
    ensures
        distance == epoch_distance(*time),
        distance.2 < 1_000_000_000,
{
    match time.duration_since(UNIX_EPOCH) {
        Ok(after) => (true, after.as_secs(), after.subsec_nanos()),
        Err(e) => (false, e.duration().as_secs(), e.duration().subsec_nanos()),
    }
}

/// `DateTime::<Utc>::from` applied to a system time, taken apart by
/// `DateTime::timestamp` and `DateTime::timestamp_subsec_nanos`. The conversion
/// keeps the point in time, and it panics on one that `chrono` cannot express.
#[verifier::external_body]
fn utc_from_system_time(time: SystemTime) -> (utc: UtcTime)
    requires
        is_expressible(time),
    ensures
        utc.seconds == unix_seconds(time),
        utc.nanos == unix_nanos(time),
{
    let utc = DateTime::<Utc>::from(time);
    UtcTime { seconds: utc.timestamp(), nanos: utc.timestamp_subsec_nanos() }
}

/// The system time on the UTC scale, or `None` where `chrono` cannot express it.
pub fn utc_time(time: SystemTime) -> (utc: Option<UtcTime>)
    ensures
        utc is Some <==> is_expressible(time),
        utc matches Some(utc) ==> utc.seconds == unix_seconds(time) && utc.nanos == unix_nanos(
            time,
        ),
{
    let (after, seconds, nanos) = distance_from_epoch(&time);
    let whole_seconds: i128 = if after {
        seconds as i128
    } else if nanos == 0 {
        -(seconds as i128)
    } else {
        -(seconds as i128) - 1
    };
    if MIN_UTC_SECONDS as i128 <= whole_seconds && whole_seconds <= MAX_UTC_SECONDS as i128 {
        Some(utc_from_system_time(time))
    } else {
        None
    }
}

impl UtcTime {
    /// The order of points in time: by the second, then by the nanoseconds.
    pub open spec fn precedes(self, other: UtcTime) -> bool {
        self.seconds < other.seconds || (self.seconds == other.seconds && self.nanos < other.nanos)
    }

    /// Whether this point in time lies before another.
    pub fn is_before(&self, other: &UtcTime) -> (before: bool)
        ensures
            before == self.precedes(*other),
    {
        self.seconds < other.seconds || (self.seconds == other.seconds && self.nanos < other.nanos)
    }
}

/// Whether a file is older than the age limit: both the time of its last
/// modification and a limit are known, and the modification lies before the
/// limit.
pub open spec fn older_than_limit(
    modified: Option<UtcTime>,
    ignore_before: Option<UtcTime>,
) -> bool {
    modified matches Some(modified) && ignore_before matches Some(limit) && modified.precedes(limit)
}

/// Decides whether a file is too old to be read.
pub fn is_too_old(modified: Option<UtcTime>, ignore_before: Option<UtcTime>) -> (too_old: bool)
    ensures
        too_old == older_than_limit(modified, ignore_before),
{
    match (modified, ignore_before) {
        (Some(modified), Some(limit)) => modified.is_before(&limit),
        _ => false,
    }
}

} // verus!
