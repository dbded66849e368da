//! Readings of the clocks: the wall clock for calendar dates, the monotonic
//! clock for how long toasts have been shown.

use vstd::prelude::*;
use chrono::Datelike;
use std::time::Instant;

verus! {

/// A point of the monotonic clock, `std::time::Instant`, carried through
/// unopened.
#[verifier::external_type_specification]
#[verifier::external_body]
pub struct ExInstant(std::time::Instant);

/// `Clone` of an `Instant`, a `Copy` type: the copy is the same point of
/// the clock.
pub assume_specification[<std::time::Instant as Clone>::clone](instant: &Instant) -> (copy: Instant)
    ensures
        copy == *instant,
;

/// Today's date (UTC) as a day number: `chrono::Utc::now()` taken to its
/// UTC calendar date and counted with `Datelike::num_days_from_ce`
/// (0001-01-01 is day 1). Nothing is claimed of the value: it depends on
/// the time of the call.
#[verifier::external_body]
pub fn today_day_number() -> i32 {
    chrono::Utc::now().naive_utc().date().num_days_from_ce()
}

/// The current point of the monotonic clock, `Instant::now()`. Nothing is
/// claimed of it: it depends on the time of the call.
#[verifier::external_body]
pub(crate) fn monotonic_now() -> Instant {
    Instant::now()
}

/// Whole milliseconds passed since `start` on the monotonic clock:
/// `Instant::elapsed` read with `Duration::as_millis`. Nothing is claimed of
/// the value: it depends on the time of the call.
#[verifier::external_body]
pub(crate) fn millis_since(start: &Instant) -> u128 {
    start.elapsed().as_millis()
}

/// Milliseconds passed since `start` on the monotonic clock, held at
/// `i64::MAX` beyond that.
pub fn elapsed_millis(start: &Instant) -> (ms: i64)
    ensures
        ms >= 0,
{
    let raw = millis_since(start);
    if raw > 9223372036854775807u128 {
        i64::MAX
    } else {
        raw as i64
    }
}

} // verus!
