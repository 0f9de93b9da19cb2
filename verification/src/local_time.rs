//! The calls into chrono: the system's clock and time zone, and the text form
//! of a point in time.
//!
//! Nothing in this file is proved. Each function states what chrono's source
//! shows of the call it makes. What the local time zone decides (an offset,
//! whether a civil time exists at all) is left open.

use crate::calendar::{civil_midnight, is_date};
use crate::timestamp::{Timestamp, DAY};
use chrono::{DateTime, Datelike, FixedOffset, Local, TimeZone, Timelike};
use std::str::FromStr;
use vstd::prelude::*;

verus! {

/// chrono's reason for refusing a text.
#[verifier::external_type_specification]
#[verifier::external_body]
pub struct ExParseError(chrono::ParseError);

/// The RFC 3339 text that chrono writes for a timestamp.
pub uninterp spec fn rfc3339_text(secs: int, nanos: int, offset: int) -> Seq<char>;

/// The instant that chrono reads out of a text, or `None` where it refuses
/// the text.
pub uninterp spec fn parsed_instant(text: Seq<char>) -> Option<(int, int)>;

/// The year that the system's clock shows in the local time zone:
/// `Local::now().year()`. Nothing is promised of it.
#[verifier::external_body]
pub(crate) fn current_year() -> i32 {
    Local::now().year()
}

/// `Local.with_ymd_and_hms(year, month, day, 0, 0, 0).earliest()`.
///
/// chrono builds the civil date and time first, by the proleptic Gregorian
/// calendar, and refuses a day that this calendar does not have. It then asks
/// the time zone for an offset. What comes back shows exactly the civil time
/// asked for; the offset, and whether there is an answer, is the time zone's
/// choice.
#[verifier::external_body]
pub(crate) fn local_midnight(year: i32, month: u32, day: u32) -> (r: Option<Timestamp>)
    ensures
        !is_date(year as int, month as int, day as int) ==> r is None,
        r matches Some(t) ==> {
            &&& t.nanos == 0
            &&& -DAY < t.offset < DAY
            &&& t.local_seconds() == civil_midnight(year as int, month as int, day as int)
            &&& t.seconds_of_day() == 0
        },
{
    let at = Local.with_ymd_and_hms(year, month, day, 0, 0, 0).earliest()?;
    Some(Timestamp { secs: at.timestamp(), nanos: at.timestamp_subsec_nanos(), offset: at.offset().local_minus_utc() })
}

/// `DateTime::<Local>::with_hour`.
///
/// chrono replaces the hour on the local clock, keeps the day, the minute,
/// the second and the nanoseconds, and asks the time zone for the offset at
/// the new civil time. It refuses an hour of 24 or more, and a civil time
/// that the time zone does not have exactly once.
#[verifier::external_body]
pub(crate) fn with_hour(t: &Timestamp, hour: u32) -> (r: Option<Timestamp>)
    requires
        t.wf(),
    ensures
        hour >= 24 ==> r is None,
        r matches Some(u) ==> {
            &&& u.nanos == t.nanos
            &&& -DAY < u.offset < DAY
            &&& u.local_day() == t.local_day()
            &&& u.hour() == hour
            &&& u.minute() == t.minute()
            &&& u.second() == t.second()
        },
{
    let utc = DateTime::from_timestamp(t.secs, 0)?.naive_utc().with_nanosecond(t.nanos)?;
    let at = DateTime::<Local>::from_naive_utc_and_offset(utc, FixedOffset::east_opt(t.offset)?);
    let to = at.with_hour(hour)?;
    Some(Timestamp { secs: to.timestamp(), nanos: to.timestamp_subsec_nanos(), offset: to.offset().local_minus_utc() })
}

/// `DateTime::<Local>::with_minute`.
///
/// As `with_hour`, for the minute: the day, the hour, the second and the
/// nanoseconds stay. chrono refuses a minute of 60 or more.
#[verifier::external_body]
pub(crate) fn with_minute(t: &Timestamp, minute: u32) -> (r: Option<Timestamp>)
    requires
        t.wf(),
    ensures
        minute >= 60 ==> r is None,
        r matches Some(u) ==> {
            &&& u.nanos == t.nanos
            &&& -DAY < u.offset < DAY
            &&& u.local_day() == t.local_day()
            &&& u.hour() == t.hour()
            &&& u.minute() == minute
            &&& u.second() == t.second()
        },
{
    let utc = DateTime::from_timestamp(t.secs, 0)?.naive_utc().with_nanosecond(t.nanos)?;
    let at = DateTime::<Local>::from_naive_utc_and_offset(utc, FixedOffset::east_opt(t.offset)?);
    let to = at.with_minute(minute)?;
    Some(Timestamp { secs: to.timestamp(), nanos: to.timestamp_subsec_nanos(), offset: to.offset().local_minus_utc() })
}

/// `DateTime::<Local>::with_second`.
///
/// As `with_hour`, for the second: the day, the hour, the minute and the
/// nanoseconds stay. chrono refuses a second of 60 or more.
#[verifier::external_body]
pub(crate) fn with_second(t: &Timestamp, second: u32) -> (r: Option<Timestamp>)
    requires
        t.wf(),
    ensures
        second >= 60 ==> r is None,
        r matches Some(u) ==> {
            &&& u.nanos == t.nanos
            &&& -DAY < u.offset < DAY
            &&& u.local_day() == t.local_day()
            &&& u.hour() == t.hour()
            &&& u.minute() == t.minute()
            &&& u.second() == second
        },
{
    let utc = DateTime::from_timestamp(t.secs, 0)?.naive_utc().with_nanosecond(t.nanos)?;
    let at = DateTime::<Local>::from_naive_utc_and_offset(utc, FixedOffset::east_opt(t.offset)?);
    let to = at.with_second(second)?;
    Some(Timestamp { secs: to.timestamp(), nanos: to.timestamp_subsec_nanos(), offset: to.offset().local_minus_utc() })
}

/// `DateTime::to_rfc3339`. The text depends on the instant and the offset
/// alone.
#[verifier::external_body]
pub(crate) fn to_rfc3339(t: &Timestamp) -> (r: String)
    requires
        t.wf(),
    ensures
        r@ == rfc3339_text(t.secs as int, t.nanos as int, t.offset as int),
{
    let utc = DateTime::from_timestamp(t.secs, 0).unwrap().naive_utc().with_nanosecond(t.nanos).unwrap();
    let at = DateTime::<Local>::from_naive_utc_and_offset(utc, FixedOffset::east_opt(t.offset).unwrap());
    at.to_rfc3339()
}

/// `DateTime::<Local>::from_str`.
///
/// chrono reads the text as a date, a time and an offset, which fixes the
/// instant, and then shows that instant in the local time zone. So the instant
/// depends on the text alone and the offset of the result on the time zone.
#[verifier::external_body]
pub(crate) fn parse_date_time(text: &str) -> (r: Result<Timestamp, chrono::ParseError>)
    ensures
        r is Ok <==> parsed_instant(text@) is Some,
        r matches Ok(t) ==> {
            &&& parsed_instant(text@) == Some(t.instant())
            &&& t.nanos < 2_000_000_000
            &&& -DAY < t.offset < DAY
        },
{
    let at = DateTime::<Local>::from_str(text)?;
    Ok(Timestamp { secs: at.timestamp(), nanos: at.timestamp_subsec_nanos(), offset: at.offset().local_minus_utc() })
}

} // verus!
