//! Instants in UTC, and the readings of dates and times that `chrono`
//! performs for the billing records.

use vstd::prelude::*;

verus! {

/// An instant in UTC: whole seconds since the Unix epoch and the fraction
/// of a second in nanoseconds (a leap second shows as a fraction of a
/// second or more).
#[derive(Debug, Clone, Copy, PartialEq, Eq, Structural)]
pub struct Timestamp {
    pub secs: i64,
    pub nanos: u32,
}

/// Whether instant `a` comes strictly before instant `b`.
pub open spec fn before(a: Timestamp, b: Timestamp) -> bool {
    a.secs < b.secs || (a.secs == b.secs && a.nanos < b.nanos)
}

/// Decides `before`.
pub fn is_before(a: Timestamp, b: Timestamp) -> (r: bool)
    ensures
        r == before(a, b),
{
    a.secs < b.secs || (a.secs == b.secs && a.nanos < b.nanos)
}

/// Midnight (UTC) of the day that holds `t`, in seconds.
pub open spec fn day_start_secs(t: Timestamp) -> int {
    (t.secs as int) - (t.secs as int) % 86400
}

/// The earliest second `chrono` represents: the first of January of year
/// -262143, in seconds since the Unix epoch.
pub const EARLIEST_UTC_SECS: i64 = -8334601228800;

/// The latest second `chrono` represents: the last second of the 31st of
/// December of year 262142, in seconds since the Unix epoch.
pub const LATEST_UTC_SECS: i64 = 8210266876799;

/// Whether `chrono` can represent the instant `secs` seconds after the Unix
/// epoch: its dates run from year -262143 to year 262142.
pub open spec fn utc_seconds_valid(secs: i64) -> bool {
    EARLIEST_UTC_SECS <= secs <= LATEST_UTC_SECS
}

/// The instant at `secs` seconds, when `chrono` can represent it, as
/// `Utc.timestamp_opt(secs, 0).single()` gives it.
pub fn utc_from_seconds(secs: i64) -> (r: Option<Timestamp>)
    ensures
        r is Some <==> utc_seconds_valid(secs),
        r matches Some(t) ==> t.secs == secs && t.nanos == 0,
{
    if EARLIEST_UTC_SECS <= secs && secs <= LATEST_UTC_SECS {
        Some(Timestamp { secs, nanos: 0 })
    } else {
        None
    }
}

/// The system clock's reading.
#[verifier::external_type_specification]
#[verifier::external_body]
pub struct ExSystemTime(std::time::SystemTime);

/// Wraps `SystemTime::now`. The reading depends on the clock alone, so
/// nothing is stated of it.
#[verifier::external_body]
fn system_now() -> (r: std::time::SystemTime) {
    std::time::SystemTime::now()
}

/// Wraps `SystemTime::duration_since(UNIX_EPOCH)`: the whole seconds and
/// the nanoseconds elapsed since the Unix epoch, or nothing when `t` lies
/// before it. What the reading is depends on the clock and is not stated;
/// stated is that a `Duration`'s sub-second part is below one second.
#[verifier::external_body]
fn since_unix_epoch(t: &std::time::SystemTime) -> (r: Option<(u64, u32)>)
    ensures
        r matches Some(p) ==> p.1 < 1_000_000_000,
{
    match t.duration_since(std::time::UNIX_EPOCH) {
        Ok(d) => Some((d.as_secs(), d.subsec_nanos())),
        Err(_) => None,
    }
}

/// Reads the clock as a UTC instant; nothing when the clock reads before
/// the Unix epoch or past the latest date `chrono` represents.
pub fn utc_now() -> (r: Option<Timestamp>)
    ensures
        r matches Some(t) ==> t.secs >= 0 && t.nanos < 1_000_000_000 && utc_seconds_valid(t.secs),
{
    let clock = system_now();
    match since_unix_epoch(&clock) {
        Some((secs, nanos)) => {
            if secs > 9223372036854775807u64 {
                return None;
            }
            match utc_from_seconds(secs as i64) {
                Some(_) => Some(Timestamp { secs: secs as i64, nanos }),
                None => None,
            }
        },
        None => None,
    }
}

/// Names what `NaiveDate::parse_from_str(text, format)` reads, as the
/// seconds of that date's midnight in UTC.
pub uninterp spec fn spec_parse_date(text: Seq<char>, format: Seq<char>) -> Option<i64>;

/// Wraps `NaiveDate::parse_from_str`, taking the date to its midnight in UTC.
#[verifier::external_body]
pub(crate) fn parse_date_midnight(text: &str, format: &str) -> (r: Option<Timestamp>)
    ensures
        match r {
            Some(t) => spec_parse_date(text@, format@) == Some(t.secs) && t.nanos == 0,
            None => spec_parse_date(text@, format@) is None,
        },
{
    match chrono::NaiveDate::parse_from_str(text, format) {
        Ok(date) => match date.and_hms_opt(0, 0, 0) {
            Some(dt) => Some(Timestamp { secs: dt.and_utc().timestamp(), nanos: 0 }),
            None => None,
        },
        Err(_) => None,
    }
}

/// Names what `NaiveDateTime::parse_from_str(text, format)` reads, taken as
/// a UTC instant (seconds, fraction).
pub uninterp spec fn spec_parse_date_time(text: Seq<char>, format: Seq<char>) -> Option<(i64, u32)>;

/// Wraps `NaiveDateTime::parse_from_str`, reading the result as UTC.
#[verifier::external_body]
pub(crate) fn parse_date_time(text: &str, format: &str) -> (r: Option<Timestamp>)
    ensures
        match r {
            Some(t) => spec_parse_date_time(text@, format@) == Some((t.secs, t.nanos)),
            None => spec_parse_date_time(text@, format@) is None,
        },
{
    match chrono::NaiveDateTime::parse_from_str(text, format) {
        Ok(dt) => {
            let utc = dt.and_utc();
            Some(Timestamp { secs: utc.timestamp(), nanos: utc.timestamp_subsec_nanos() })
        },
        Err(_) => None,
    }
}

/// Names what `DateTime::parse_from_rfc3339(text)` reads, as a UTC instant.
pub uninterp spec fn spec_parse_rfc3339(text: Seq<char>) -> Option<(i64, u32)>;

/// Wraps `DateTime::parse_from_rfc3339`, converting the result to UTC.
#[verifier::external_body]
pub(crate) fn parse_rfc3339(text: &str) -> (r: Option<Timestamp>)
    ensures
        match r {
            Some(t) => spec_parse_rfc3339(text@) == Some((t.secs, t.nanos)),
            None => spec_parse_rfc3339(text@) is None,
        },
{
    match chrono::DateTime::parse_from_rfc3339(text) {
        Ok(dt) => {
            let utc = dt.with_timezone(&chrono::Utc);
            Some(Timestamp { secs: utc.timestamp(), nanos: utc.timestamp_subsec_nanos() })
        },
        Err(_) => None,
    }
}

} // verus!
