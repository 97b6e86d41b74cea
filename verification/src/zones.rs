//! Civil time in a named time zone, read from the time zone database bundled
//! with `jiff`.
use vstd::prelude::*;

verus! {

/// The Unix time, in seconds, of the civil date and time `local` read in the
/// time zone named `timezone`; `None` when either cannot be read or the time
/// cannot be placed in that zone.
pub uninterp spec fn unix_seconds_of_civil(timezone: Seq<char>, local: Seq<char>) -> Option<i64>;

/// The calendar date, as `YYYY-MM-DD`, of Unix time `at` seconds in the time
/// zone named `timezone`; `None` when the zone is unknown or the time is out of
/// range.
pub uninterp spec fn civil_date_of_unix(timezone: Seq<char>, at: i64) -> Option<Seq<char>>;

/// `jiff`: parses `local` as a `civil::DateTime` (seconds may be left out),
/// looks up `timezone` with `TimeZone::get` in the bundled time zone database,
/// places the civil time there with `DateTime::to_zoned` and returns
/// `Timestamp::as_second` of the result; an error comes back as its text.
#[verifier::external_body]
pub(crate) fn jiff_civil_to_unix(timezone: &str, local: &str) -> (r: Result<i64, String>)
    ensures
        match r {
            Ok(s) => unix_seconds_of_civil(timezone@, local@) == Some(s),
            Err(_) => unix_seconds_of_civil(timezone@, local@) is None,
        },
{
    let dt = match local.parse::<jiff::civil::DateTime>() {
        Ok(dt) => dt,
        Err(e) => return Err(e.to_string()),
    };
    let tz = match jiff::tz::TimeZone::get(timezone) {
        Ok(tz) => tz,
        Err(e) => return Err(e.to_string()),
    };
    match dt.to_zoned(tz) {
        Ok(z) => Ok(z.timestamp().as_second()),
        Err(e) => Err(e.to_string()),
    }
}

/// `jiff`: `Timestamp::from_second(at)`, shown in the zone that
/// `TimeZone::get(timezone)` finds in the bundled time zone database, and the
/// `Display` text of its `Zoned::date`; an error comes back as its text.
#[verifier::external_body]
pub(crate) fn jiff_unix_to_civil_date(timezone: &str, at: i64) -> (r: Result<String, String>)
    ensures
        match r {
            Ok(d) => civil_date_of_unix(timezone@, at) == Some(d@),
            Err(_) => civil_date_of_unix(timezone@, at) is None,
        },
{
    let tz = match jiff::tz::TimeZone::get(timezone) {
        Ok(tz) => tz,
        Err(e) => return Err(e.to_string()),
    };
    match jiff::Timestamp::from_second(at) {
        Ok(t) => Ok(t.to_zoned(tz).date().to_string()),
        Err(e) => Err(e.to_string()),
    }
}

} // verus!
