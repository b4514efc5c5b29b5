//! Reading the system clock and formatting times (through `chrono`).
//!
//! Times are carried as milliseconds since the Unix epoch, UTC.
use vstd::prelude::*;

verus! {

/// Milliseconds in one day.
pub const DAY_MS: i64 = 86_400_000;

/// `SystemTime::now().duration_since(UNIX_EPOCH)`, in whole milliseconds;
/// `None` when the system clock is set before the Unix epoch. Nothing is
/// promised of the value: it is the time at which the clock is read.
#[verifier::external_body]
fn system_clock_millis() -> Option<u128> {
    match std::time::SystemTime::now().duration_since(std::time::UNIX_EPOCH) {
        Ok(d) => Some(d.as_millis()),
        Err(_) => None,
    }
}

/// The clock in milliseconds since the Unix epoch: -1 for a clock set before
/// the epoch, and the largest `i64` for a reading past it. Which value it is
/// depends on the time at which it is read.
pub(crate) fn utc_now_millis() -> (r: i64)
    ensures
        r >= -1,
{
    match system_clock_millis() {
        Some(ms) => if ms <= i64::MAX as u128 {
            ms as i64
        } else {
            i64::MAX
        },
        None => -1,
    }
}

/// What `chrono` writes for the UTC time `ms` milliseconds after the epoch with
/// the given format string; `None` when `DateTime::from_timestamp_millis` cannot
/// represent that time.
pub uninterp spec fn utc_format(ms: int, fmt: Seq<char>) -> Option<Seq<char>>;

/// `chrono::DateTime::from_timestamp_millis`, then `DateTime::format` and
/// `to_string`, for the two formats this library uses (both are plain
/// date/time specifiers, which do not fail to write). The text is named by
/// `utc_format`.
#[verifier::external_body]
pub(crate) fn format_utc_millis(ms: i64, fmt: &str) -> (r: Option<String>)
    requires
        fmt@ == "%Y-%m-%d"@ || fmt@ == "%Y-%m-%d %H:%M:%S UTC"@,
    ensures
        match r {
            Some(s) => utc_format(ms as int, fmt@) == Some(s@),
            None => utc_format(ms as int, fmt@) is None,
        },
{
    match chrono::DateTime::from_timestamp_millis(ms) {
        Some(dt) => Some(dt.format(fmt).to_string()),
        None => None,
    }
}

/// What `chrono` writes as the RFC 3339 form of the UTC time `ms` milliseconds
/// after the epoch; `None` when that time cannot be represented.
pub uninterp spec fn utc_rfc3339(ms: int) -> Option<Seq<char>>;

/// `chrono::DateTime::from_timestamp_millis`, then `DateTime::to_rfc3339`. The
/// text is named by `utc_rfc3339`.
#[verifier::external_body]
pub(crate) fn rfc3339_utc_millis(ms: i64) -> (r: Option<String>)
    ensures
        match r {
            Some(s) => utc_rfc3339(ms as int) == Some(s@),
            None => utc_rfc3339(ms as int) is None,
        },
{
    match chrono::DateTime::from_timestamp_millis(ms) {
        Some(dt) => Some(dt.to_rfc3339()),
        None => None,
    }
}

/// The time one day before `ms`, saturating at the smallest representable time.
pub open spec fn day_before(ms: int) -> int {
    if ms >= i64::MIN + DAY_MS {
        ms - DAY_MS
    } else {
        i64::MIN as int
    }
}

/// The time one day before `ms`, saturating at the smallest representable time.
pub fn one_day_before(ms: i64) -> (r: i64)
    ensures
        r == day_before(ms as int),
{
    if ms >= i64::MIN + DAY_MS {
        ms - DAY_MS
    } else {
        i64::MIN
    }
}

/// The text of a formatted time, empty when there is none.
pub open spec fn text_or_blank(o: Option<Seq<char>>) -> Seq<char> {
    match o {
        Some(s) => s,
        None => Seq::empty(),
    }
}

} // verus!
