//! Reading the clocks, and the decisions that rest on what they say.
//!
//! What a clock says is no function of any argument, so nothing is promised of
//! it. The functions that decide take the readings as arguments.
use std::time::{Duration, Instant, SystemTime};
use vstd::prelude::*;

verus! {

#[verifier::external_type_specification]
#[verifier::external_body]
pub struct ExInstant(std::time::Instant);

#[verifier::external_type_specification]
#[verifier::external_body]
pub struct ExSystemTime(std::time::SystemTime);

/// The instant that lies `diff` before `instant`, where the clock can express it.
pub uninterp spec fn instant_minus(instant: Instant, diff: Duration) -> Option<Instant>;

/// The time from `earlier` to `later`.
pub uninterp spec fn time_between(later: Instant, earlier: Instant) -> Duration;

/// The time from `earlier` to `later` on the system clock, or `None` where
/// `earlier` is the later one.
pub uninterp spec fn system_time_between(later: SystemTime, earlier: SystemTime) -> Option<
    Duration,
>;

/// The length of a duration in nanoseconds.
pub uninterp spec fn duration_nanos(duration: Duration) -> u128;

/// `Instant::now` reads the monotonic clock. Nothing is claimed of the reading.
pub assume_specification[ Instant::now ]() -> (now: Instant);

/// `SystemTime::now` reads the system clock. Nothing is claimed of the reading.
pub assume_specification[ SystemTime::now ]() -> (now: SystemTime);

/// `Instant::checked_sub` goes back in time. Its result is a function of the
/// two arguments; which one is not said.
pub assume_specification[ Instant::checked_sub ](
    instant: &Instant,
    duration: Duration,
) -> (earlier: Option<Instant>)
    ensures
        earlier == instant_minus(*instant, duration),
;

/// `Instant::saturating_duration_since` measures the time between two instants,
/// which is a function of the two; which one is not said.
pub assume_specification[ Instant::saturating_duration_since ](
    later: &Instant,
    earlier: Instant,
) -> (between: Duration)
    ensures
        between == time_between(*later, earlier),
;

/// `Duration::as_nanos` gives the length of a duration in nanoseconds.
pub assume_specification[ Duration::as_nanos ](duration: &Duration) -> (nanos: u128)
    ensures
        nanos == duration_nanos(*duration),
;

/// `SystemTime::duration_since` measures the time between two system times and
/// fails where the second is the later one. Its result is a function of the two;
/// which one is not said, nor is anything said of a failure.
#[verifier::external_body]
fn system_time_since(later: &SystemTime, earlier: SystemTime) -> (between: Option<Duration>)
    ensures
        between == system_time_between(*later, earlier),
{
    later.duration_since(earlier).ok()
}

/// Reads a clock.
pub(crate) fn read_clock<T, F: Fn() -> T>(clock: F) -> (reading: T)
    requires
        call_requires(clock, ()),
    ensures
        call_ensures(clock, (), reading),
{
    clock()
}

/// The age of a file at the time `wall`, where the time of its modification is
/// known and does not lie ahead.
pub open spec fn age_at(wall: SystemTime, modified: Option<SystemTime>) -> Option<Duration> {
    match modified {
        Some(time) => system_time_between(wall, time),
        None => None,
    }
}

/// The instant from which a file of the given age counts as seen and read: its
/// age before `now`, or `fallback` where the age is not known or the clock
/// cannot express an instant that early.
pub open spec fn start_of_watch(now: Instant, age: Option<Duration>, fallback: Instant) -> Instant {
    match age {
        Some(diff) => match instant_minus(now, diff) {
            Some(start) => start,
            None => fallback,
        },
        None => fallback,
    }
}

/// The instant from which a file last modified at the given time counts as seen
/// and read, given a reading of the system clock and two of the monotonic clock.
pub fn starting_instant_at(
    modified: Option<SystemTime>,
    wall: SystemTime,
    now: Instant,
    fallback: Instant,
) -> (start: Instant)
    ensures
        start == start_of_watch(now, age_at(wall, modified), fallback),
{
    let age = match modified {
        Some(time) => system_time_since(&wall, time),
        None => None,
    };
    match age {
        Some(diff) => match now.checked_sub(diff) {
            Some(start) => start,
            None => fallback,
        },
        None => fallback,
    }
}

/// The instant from which a file last modified at the given time counts as seen
/// and read.
pub fn starting_instant(modified: Option<SystemTime>) -> (start: Instant)
    ensures
        exists|wall: SystemTime, now: Instant, fallback: Instant|
            {
                &&& call_ensures(SystemTime::now, (), wall)
                &&& call_ensures(Instant::now, (), now)
                &&& call_ensures(Instant::now, (), fallback)
                &&& start == #[trigger] start_of_watch(now, age_at(wall, modified), fallback)
            },
{
    let wall = read_clock(SystemTime::now);
    let now = read_clock(Instant::now);
    let fallback = read_clock(Instant::now);
    let start = starting_instant_at(modified, wall, now, fallback);
    assert(start == start_of_watch(now, age_at(wall, modified), fallback));
    start
}

} // verus!
