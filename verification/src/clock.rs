//! The time that it is.

use crate::outside::{rfc3339_full, rfc3339_full_text, utc_now, LAST_SECOND};
use vstd::prelude::*;

verus! {

/// The last nanosecond of the last second that can be told, counted from the
/// start of 1970.
pub const LAST_NANO: i128 = 8_210_266_876_799_999_999_999;

/// Whole milliseconds of a time in nanoseconds.
pub open spec fn millis_of(now_ns: i128) -> i64 {
    (now_ns as int / 1_000_000) as i64
}

/// Whole milliseconds of a time in nanoseconds.
pub(crate) fn to_millis(now_ns: i128) -> (r: i64)
    requires
        0 <= now_ns <= LAST_NANO,
    ensures
        r == millis_of(now_ns),
        r == now_ns as int / 1_000_000,
{
    (now_ns / 1_000_000) as i64
}

/// The time in nanoseconds since the start of 1970.
pub(crate) fn now_nanos() -> (now: i128)
    ensures
        0 <= now <= LAST_NANO,
{
    let (secs, nanos): (i64, u32) = utc_now();
    secs as i128 * 1_000_000_000 + nanos as i128
}

/// The time in whole milliseconds since the start of 1970.
pub(crate) fn now_millis() -> (now: i64)
    ensures
        0 <= now <= LAST_SECOND * 1000 + 999,
{
    let (secs, nanos): (i64, u32) = utc_now();
    secs * 1000 + (nanos / 1_000_000) as i64
}

/// The time in whole seconds since the start of 1970.
pub(crate) fn now_seconds() -> (now: i64)
    ensures
        0 <= now <= LAST_SECOND,
{
    utc_now().0
}

/// The time, written as RFC 3339 has it.
pub(crate) fn now_rfc3339() -> (s: String)
    ensures
        exists|secs: i64, nanos: u32|
            0 <= secs <= LAST_SECOND && nanos < 1_000_000_000 && s@
                == #[trigger] rfc3339_full_text(secs, nanos),
{
    let (secs, nanos): (i64, u32) = utc_now();
    rfc3339_full(secs, nanos)
}

/// A time in milliseconds is the last full one: less than a millisecond has gone
/// by since.  Later times are not earlier in milliseconds.
pub proof fn milliseconds_are_full(now_ns: i128, later_ns: i128)
    requires
        0 <= now_ns <= LAST_NANO,
    ensures
        millis_of(now_ns) * 1_000_000 <= now_ns < (millis_of(now_ns) + 1) * 1_000_000,
        now_ns <= later_ns <= LAST_NANO ==> millis_of(now_ns) <= millis_of(later_ns),
        LAST_NANO == LAST_SECOND * 1_000_000_000 + 999_999_999,
{
}

} // verus!
