//! The clock.

use std::time::{Duration, Instant, SystemTime};
use vstd::prelude::*;

verus! {

/// `std::time::SystemTime`, opaque here.
#[verifier::external_type_specification]
#[verifier::external_body]
pub struct ExSystemTime(SystemTime);

/// `std::time::Instant`, opaque here.
#[verifier::external_type_specification]
#[verifier::external_body]
pub struct ExInstant(Instant);

/// `SystemTime::now` reads the wall clock; nothing is known of the reading.
pub assume_specification[ SystemTime::now ]() -> (r: SystemTime)
;

/// `Instant::now` reads the monotonic clock; nothing is known of the reading.
pub assume_specification[ Instant::now ]() -> (r: Instant)
;

/// The nanoseconds of a length of time.
pub uninterp spec fn nanos(d: Duration) -> nat;

/// Where an instant stands on the monotonic clock, in nanoseconds.
pub uninterp spec fn instant_nanos(t: Instant) -> int;

/// The nanoseconds from the Unix epoch to a time, negative before the epoch.
pub uninterp spec fn unix_nanos(t: SystemTime) -> int;

/// The nanoseconds from one instant to another, zero where that is not later.
pub open spec fn nanos_between(from: Instant, to: Instant) -> int {
    if instant_nanos(from) <= instant_nanos(to) {
        instant_nanos(to) - instant_nanos(from)
    } else {
        0
    }
}

/// `Instant::saturating_duration_since` gives the time from an earlier instant
/// to this one, and zero where the other is later.
pub assume_specification[ Instant::saturating_duration_since ](
    t: &Instant,
    earlier: Instant,
) -> (r: Duration)
    ensures
        nanos(r) == if instant_nanos(earlier) <= instant_nanos(*t) {
            instant_nanos(*t) - instant_nanos(earlier)
        } else {
            0
        },
;

/// `Duration::as_secs` gives the whole seconds of a length of time.
pub assume_specification[ Duration::as_secs ](d: &Duration) -> (r: u64)
    ensures
        r == nanos(*d) / 1_000_000_000,
;

/// `Duration::as_nanos` gives the nanoseconds of a length of time, whose whole
/// seconds are a `u64`.
pub assume_specification[ Duration::as_nanos ](d: &Duration) -> (r: u128)
    ensures
        r == nanos(*d),
        r < 0x1_0000_0000_0000_0000 * 1_000_000_000,
;

/// `SystemTime::duration_since` the Unix epoch, where the time is not before it.
#[verifier::external_body]
fn since_epoch(t: SystemTime) -> (r: Option<Duration>)
    ensures
        match r {
            Some(d) => nanos(d) == unix_nanos(t),
            None => unix_nanos(t) < 0,
        },
{
    t.duration_since(std::time::UNIX_EPOCH).ok()
}

/// The `Debug` text of a `SystemTime`; its form is documented nowhere and
/// differs between platforms, so nothing is known of it.
#[verifier::external_body]
fn time_text(t: SystemTime) -> (r: String) {
    format!("{:?}", t)
}

/// A text that is made of the current time.
pub fn time_label() -> (r: String) {
    time_text(SystemTime::now())
}

/// Whole seconds from the Unix epoch to a time, zero before the epoch.
pub open spec fn unix_seconds_of(t: SystemTime) -> int {
    if unix_nanos(t) < 0 {
        0
    } else {
        unix_nanos(t) / 1_000_000_000
    }
}

/// Whole seconds from the Unix epoch to a time, zero before the epoch.
pub fn unix_seconds_at(t: SystemTime) -> (r: u64)
    ensures
        r == unix_seconds_of(t),
{
    match since_epoch(t) {
        Some(d) => d.as_secs(),
        None => 0,
    }
}

/// Whole seconds since the Unix epoch, zero for a clock set before it.
pub fn unix_seconds() -> (r: u64)
    ensures
        exists|t: SystemTime| r == #[trigger] unix_seconds_of(t),
{
    unix_seconds_at(SystemTime::now())
}

/// The shape of a local time: a year, then month, day, hour, minute and second
/// of two digits each.
pub open spec fn is_timestamp(s: Seq<char>) -> bool {
    let n = s.len() as int;
    &&& n >= 19
    &&& s[n - 15] == '-'
    &&& s[n - 12] == '-'
    &&& s[n - 9] == ' '
    &&& s[n - 6] == ':'
    &&& s[n - 3] == ':'
    &&& forall|k: int|
        0 <= k < 14 && k != 2 && k != 5 && k != 8 && k != 11 ==> crate::text::is_digit(
            #[trigger] s[n - 14 + k],
        )
}

/// `chrono::Local::now`, formatted by `DateTime::format` as
/// `%Y-%m-%d %H:%M:%S`: a four-digit year, or a signed longer one, and fields
/// of two digits. What time it is is left open.
#[verifier::external_body]
pub fn now_str() -> (r: String)
    ensures
        is_timestamp(r@),
{
    chrono::Local::now().format("%Y-%m-%d %H:%M:%S").to_string()
}

} // verus!
