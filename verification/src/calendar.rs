//! Calendar-day identifiers: a timestamp's UTC date as one `YYYYMMDD`
//! integer, used to shard screenshot and process-sample lookups by day.

use vstd::prelude::*;

use chrono::Datelike;

verus! {

/// The UTC calendar date `(year, month, day)` of an epoch-millisecond
/// timestamp.
pub uninterp spec fn civil_of(ts_millis: int) -> (int, int, int);

/// Timestamps within this many milliseconds of the epoch are guaranteed a
/// calendar date (chrono represents dates about 262,000 years around the
/// common era).
pub const CIVIL_SAFE_RANGE_MS: i64 = 8_000_000_000_000_000;

/// Relies on chrono's `DateTime::<Utc>::from_timestamp_millis` together
/// with `Datelike`: the UTC calendar date is a function of the timestamp
/// alone, its month and day are in range, its year lies within chrono's
/// documented representable span, and timestamps well inside that span are
/// never rejected.
#[verifier::external_body]
fn civil_from_timestamp(ts: i64) -> (r: Option<(i32, u32, u32)>)
    ensures
        r matches Some(d) ==> {
            &&& (d.0 as int, d.1 as int, d.2 as int) == civil_of(ts as int)
            &&& -262144 <= d.0 as int <= 262143
            &&& 1 <= d.1 <= 12
            &&& 1 <= d.2 <= 31
        },
        -8_000_000_000_000_000 <= ts <= 8_000_000_000_000_000 ==> r is Some,
{
    match chrono::DateTime::<chrono::Utc>::from_timestamp_millis(ts) {
        Some(dt) => Some((dt.year(), dt.month(), dt.day())),
        None => None,
    }
}

/// The `YYYYMMDD` identifier of a calendar date.
pub open spec fn day_id_of(c: (int, int, int)) -> int {
    c.0 * 10000 + c.1 * 100 + c.2
}

/// The `YYYYMMDD` day identifier of a timestamp's UTC calendar date, or 0
/// for a timestamp so far from the epoch that no date represents it.
pub fn timestamp_to_day_id(ts: i64) -> (r: i64)
    ensures
        -8_000_000_000_000_000 <= ts <= 8_000_000_000_000_000 ==> r as int == day_id_of(
            civil_of(ts as int),
        ),
{
    match civil_from_timestamp(ts) {
        Some(d) => (d.0 as i64) * 10000 + (d.1 as i64) * 100 + (d.2 as i64),
        None => 0,
    }
}

} // verus!
