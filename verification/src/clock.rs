//! The monotonic timestamp source the operations date their writes with,
//! backed by the chrono crate.

use vstd::prelude::*;

verus! {

/// The UTC calendar year containing Unix timestamp `ts`, as the calendar
/// computes it. Stating the Gregorian calendar here would specify nothing
/// checkable; the name pins only that equal timestamps give equal years.
pub uninterp spec fn year_of(ts: i64) -> i64;

/// Relies on chrono::Utc::now and chrono::DateTime::timestamp: the current
/// time as whole seconds since the Unix epoch. chrono panics rather than
/// return a pre-epoch time, so a result is never negative.
#[verifier::external_body]
fn now_timestamp() -> (ts: i64)
    ensures
        0 <= ts,
{
    chrono::Utc::now().timestamp()
}

/// Relies on chrono::DateTime::from_timestamp and chrono::Datelike::year:
/// the year is computed from the timestamp alone, with zero for the
/// timestamps so far out of range that chrono has no date for them.
#[verifier::external_body]
fn year_of_timestamp(ts: i64) -> (y: i64)
    ensures
        y == year_of(ts),
{
    match chrono::DateTime::from_timestamp(ts, 0) {
        Option::Some(dt) => chrono::Datelike::year(&dt) as i64,
        Option::None => 0,
    }
}

/// The current Unix time in whole seconds, and the UTC calendar year it
/// falls in: what an operation stamps its writes and year-scoped
/// identifiers with.
pub fn current_time_and_year() -> (r: (i64, i64))
    ensures
        0 <= r.0,
        r.1 == year_of(r.0),
{
    let now = now_timestamp();
    let year = year_of_timestamp(now);
    (now, year)
}

} // verus!
