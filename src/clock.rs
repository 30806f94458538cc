use vstd::prelude::*;

use chrono::{Datelike, Timelike};

verus! {

/// A point in time: microseconds since the Unix epoch, in UTC.
pub type Timestamp = i64;

/// Relies on `chrono::Utc::now` and `DateTime::timestamp_micros`: the current
/// time. Nothing is promised of the value, which depends on the system clock.
#[verifier::external_body]
pub(crate) fn now() -> (r: Timestamp) {
    chrono::Utc::now().timestamp_micros()
}

/// The UTC calendar fields of time `t` (year, month, day, hour, minute,
/// second), or `None` where `t` lies outside the dates that chrono represents.
pub uninterp spec fn utc_fields(t: Timestamp) -> Option<(i32, u32, u32, u32, u32, u32)>;

/// Relies on `chrono::DateTime::from_timestamp_micros`, which gives `None` on an
/// out-of-range value, and on the `Datelike` and `Timelike` accessors, whose
/// documented ranges are month 1 to 12, day 1 to 31, hour 0 to 23, minute and
/// second 0 to 59.
#[verifier::external_body]
pub(crate) fn calendar_fields(t: Timestamp) -> (r: Option<(i32, u32, u32, u32, u32, u32)>)
    ensures
        r == utc_fields(t),
        r matches Some(f) ==> 1 <= f.1 <= 12 && 1 <= f.2 <= 31 && f.3 < 24 && f.4 < 60 && f.5 < 60,
{
    match chrono::DateTime::from_timestamp_micros(t) {
        Some(d) => Some((d.year(), d.month(), d.day(), d.hour(), d.minute(), d.second())),
        None => None,
    }
}

} // verus!
