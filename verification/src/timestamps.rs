//! Whole-second UNIX times, checked against the range that chrono can represent.
use vstd::prelude::*;

verus! {

/// The UNIX time of -262143-01-01 00:00:00 UTC, the first second of chrono's
/// `NaiveDate::MIN`.
pub const FIRST_REPRESENTABLE_SECOND: i64 = -8_334_601_228_800i64;

/// The UNIX time of 262142-12-31 23:59:59 UTC, the last second of chrono's
/// `NaiveDate::MAX`.
pub const LAST_REPRESENTABLE_SECOND: i64 = 8_210_266_876_799i64;

/// Whether chrono can represent the UTC date and time `secs` whole seconds after
/// 1970-01-01 00:00:00 (before it, when negative): whether it falls between the first
/// second of the year -262143 and the last second of the year 262142.
pub open spec fn chrono_represents_unix_seconds(secs: i64) -> bool {
    FIRST_REPRESENTABLE_SECOND <= secs <= LAST_REPRESENTABLE_SECOND
}

/// `chrono::NaiveDateTime::from_timestamp_opt(secs, 0)`, told apart by whether it
/// returned `Some`. chrono splits `secs` into a day number and a second of that day and
/// accepts the day exactly when it lies between `NaiveDate::MIN` (-262143-01-01) and
/// `NaiveDate::MAX` (262142-12-31); with no nanoseconds the time of day is always valid.
#[verifier::external_body]
#[allow(deprecated)]
fn naive_date_time_exists(secs: i64) -> (r: bool)
    ensures
        r == chrono_represents_unix_seconds(secs),
{
    chrono::NaiveDateTime::from_timestamp_opt(secs, 0).is_some()
}

/// The UNIX time `secs` as a date and time that chrono can hold: `Some(secs)` when it
/// can, `None` when `secs` lies outside its range.
pub fn representable_seconds(secs: i64) -> (r: Option<i64>)
    ensures
        r == (if chrono_represents_unix_seconds(secs) {
            Some(secs)
        } else {
            None::<i64>
        }),
{
    if naive_date_time_exists(secs) {
        Some(secs)
    } else {
        None
    }
}

} // verus!
