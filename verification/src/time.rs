//! Clock readings and durations, taken from `std::time`.

use vstd::prelude::*;
use std::time::{Duration, Instant, SystemTime};

verus! {

#[verifier::external_type_specification]
#[verifier::external_body]
pub struct ExInstant(Instant);

#[verifier::external_type_specification]
#[verifier::external_body]
pub struct ExSystemTime(SystemTime);

/// `Instant::clone`: `Instant` is `Copy`, so its clone is the same reading.
pub assume_specification[ <Instant as Clone>::clone ](i: &Instant) -> (r: Instant)
    ensures
        r == *i,
;

/// The duration that `Duration::from_millis` builds from a millisecond count.
pub uninterp spec fn duration_of_millis(ms: u64) -> Duration;

/// The duration that `Duration::from_secs` builds from a second count.
pub uninterp spec fn duration_of_secs(secs: u64) -> Duration;

/// The whole milliseconds that `Duration::as_millis` reads from a duration.
pub uninterp spec fn millis_of(d: Duration) -> u128;

/// The nanoseconds that `Duration::as_nanos` reads from a duration.
pub uninterp spec fn nanos_of(d: Duration) -> u128;

/// `Duration::from_millis`: the result is the duration named by
/// `duration_of_millis`, holding exactly `ms` milliseconds.
#[verifier::external_body]
pub(crate) fn duration_from_millis(ms: u64) -> (d: Duration)
    ensures
        d == duration_of_millis(ms),
        millis_of(d) == ms,
        nanos_of(d) == ms * 1_000_000,
{
    Duration::from_millis(ms)
}

/// `Duration::from_secs`: the result is the duration named by
/// `duration_of_secs`, holding exactly `secs` seconds.
#[verifier::external_body]
pub(crate) fn duration_from_secs(secs: u64) -> (d: Duration)
    ensures
        d == duration_of_secs(secs),
        millis_of(d) == secs * 1000,
        nanos_of(d) == secs * 1_000_000_000,
{
    Duration::from_secs(secs)
}

/// `Duration::as_millis`: the result is the count named by `millis_of`.
#[verifier::external_body]
fn as_millis(d: &Duration) -> (m: u128)
    ensures
        m == millis_of(*d),
{
    d.as_millis()
}

/// `Duration::as_nanos`: the result is the count named by `nanos_of`.
#[verifier::external_body]
fn as_nanos(d: &Duration) -> (n: u128)
    ensures
        n == nanos_of(*d),
{
    d.as_nanos()
}

/// `Instant::now`: a reading of the monotonic clock. Nothing is stated of it.
#[verifier::external_body]
pub(crate) fn instant_now() -> (i: Instant) {
    Instant::now()
}

/// `Instant::duration_since`: the time from `earlier` to `later` (zero when
/// `earlier` is the later one). The readings are opaque, so nothing is stated.
#[verifier::external_body]
pub(crate) fn duration_between(later: &Instant, earlier: &Instant) -> (d: Duration) {
    later.duration_since(*earlier)
}

/// `SystemTime::now`: a reading of the system clock. Nothing is stated of it.
#[verifier::external_body]
fn system_now() -> (t: SystemTime) {
    SystemTime::now()
}

/// `SystemTime::duration_since(UNIX_EPOCH)`: the time since the epoch, or
/// `None` for a reading before it. The reading is opaque, so nothing is stated.
#[verifier::external_body]
fn since_unix_epoch(t: &SystemTime) -> (d: Option<Duration>) {
    match t.duration_since(std::time::UNIX_EPOCH) {
        Ok(d) => Some(d),
        Err(_) => None,
    }
}

/// Milliseconds since the Unix epoch by the system clock, cut to 64 bits,
/// or 0 when the clock reads before the epoch. The reading itself is not
/// stated: the result is the whole milliseconds of some duration, cut to
/// 64 bits, or 0.
pub fn unix_time_millis() -> (ms: u64)
    ensures
        ms == 0 || exists|d: Duration| ms == #[trigger] millis_of(d) as u64,
{
    match since_unix_epoch(&system_now()) {
        Some(d) => {
            let m = as_millis(&d);
            m as u64
        },
        None => 0,
    }
}

/// Nanoseconds since the Unix epoch by the system clock, or `None` when the
/// clock reads before the epoch.
pub fn unix_time_nanos() -> (n: Option<u128>)
    ensures
        n matches Some(x) ==> exists|d: Duration| x == #[trigger] nanos_of(d),
{
    match since_unix_epoch(&system_now()) {
        Some(d) => Some(as_nanos(&d)),
        None => None,
    }
}

} // verus!
