//! Time-zone facts taken on trust from the `chrono` and `chrono-tz` crates.
//!
//! Everything a time zone decides — whether a name denotes a zone, which UTC
//! offset a zone gives a wall-clock time, which civil date and time an
//! instant has in a zone, and how an instant is displayed there — comes from
//! those crates through the items below. Their results are deterministic:
//! the zone table is compiled into `chrono-tz`, so the same arguments give
//! the same answer on every run. Everything built on the answers is verified.

use vstd::prelude::*;

use crate::time::{Date, Time};
use chrono::{Datelike, TimeZone, Timelike};

verus! {

/// Whether `chrono-tz` knows a zone of this name.
pub uninterp spec fn tz_known(name: Seq<char>) -> bool;

/// The UTC offset, in seconds, that the zone `name` gives the wall-clock
/// time denoted by `local_epoch` (the wall-clock time read as if it were
/// UTC); `None` where the name is unknown, the wall-clock time is skipped
/// or repeated in the zone, or the value is out of chrono's range.
pub uninterp spec fn local_offset_of(name: Seq<char>, local_epoch: int) -> Option<int>;

/// The civil date and time the instant `epoch` has in the zone `name`, as
/// (year, month, day, hour, minute, second); `None` where the name is
/// unknown or the instant falls outside chrono's range or before year 0.
pub uninterp spec fn zone_civil_of(name: Seq<char>, epoch: int) -> Option<
    (int, int, int, int, int, int),
>;

/// The full rendering of the instant `epoch` in the zone `name`.
pub uninterp spec fn zone_display_of(name: Seq<char>, epoch: int) -> Option<Seq<char>>;

/// Relies on chrono-tz's `Tz::from_str`: a lookup in the crate's compiled-in
/// zone table. The table contains the name `UTC`.
#[verifier::external_body]
pub fn tz_exists(name: &str) -> (r: bool)
    ensures
        r == tz_known(name@),
        name@ == "UTC"@ ==> r,
{
    name.parse::<chrono_tz::Tz>().is_ok()
}

/// Relies on chrono-tz's `Tz::offset_from_local_datetime`, with chrono's
/// `DateTime::from_timestamp` rebuilding the wall-clock time from
/// `local_epoch`: the single offset the zone's table gives that wall-clock
/// time. A real zone's offset is strictly within one day (it is built
/// through chrono's `FixedOffset`), and the zone `UTC` has one span of
/// offset zero, so every representable wall-clock time gets `Some(0)` there.
#[verifier::external_body]
pub fn local_offset(name: &str, local_epoch: i64) -> (r: Option<i64>)
    ensures
        match r {
            Some(o) => local_offset_of(name@, local_epoch as int) == Some(o as int) && -86400 < o
                < 86400,
            None => local_offset_of(name@, local_epoch as int) is None,
        },
        name@ == "UTC"@ && -62135596800 <= local_epoch <= 253402300799 ==> r == Some(0i64),
{
    let tz: chrono_tz::Tz = match name.parse() { Ok(t) => t, Err(_) => return None };
    let naive = match chrono::DateTime::from_timestamp(local_epoch, 0) {
        Some(d) => d.naive_utc(),
        None => return None,
    };
    match tz.offset_from_local_datetime(&naive) {
        chrono::LocalResult::Single(o) => Some(chrono::Offset::fix(&o).local_minus_utc() as i64),
        _ => None,
    }
}

/// Relies on chrono's `DateTime::from_timestamp` and `with_timezone` and the
/// `Datelike`/`Timelike` accessors: the civil date and time of the instant in
/// the zone. The accessors document month in 1..=12, day in 1..=31, hour at
/// most 23, minute and second at most 59; instants from year 1 of the
/// calendar on are within chrono's range, and their civil year in any zone
/// is non-negative.
#[verifier::external_body]
pub fn zone_civil(name: &str, epoch: i64) -> (r: Option<(Date, Time)>)
    ensures
        match r {
            Some(p) => {
                &&& zone_civil_of(name@, epoch as int) == Some(
                    (
                        p.0.year as int,
                        p.0.month as int,
                        p.0.day as int,
                        p.1.hour as int,
                        p.1.minute as int,
                        p.1.second as int,
                    ),
                )
                &&& 1 <= p.0.month <= 12
                &&& 1 <= p.0.day <= 31
                &&& p.1.hour <= 23
                &&& p.1.minute <= 59
                &&& p.1.second <= 59
            },
            None => zone_civil_of(name@, epoch as int) is None,
        },
        tz_known(name@) && -62135596800 <= epoch <= 253402214399 ==> r is Some,
{
    let tz: chrono_tz::Tz = match name.parse() { Ok(t) => t, Err(_) => return None };
    let utc = match chrono::DateTime::from_timestamp(epoch, 0) { Some(d) => d, None => return None };
    let dt = utc.with_timezone(&tz);
    let y = dt.year();
    if y < 0 {
        return None;
    }
    let date = Date { year: y as u32, month: dt.month(), day: dt.day() };
    let time = Time { hour: dt.hour(), minute: dt.minute(), second: dt.second() };
    Some((date, time))
}

/// Relies on chrono's `Display` for `DateTime<Tz>`: the wall-clock date and
/// time of the instant in the zone, followed by the zone's abbreviation.
#[verifier::external_body]
pub fn zone_display(name: &str, epoch: i64) -> (r: Option<String>)
    ensures
        match r {
            Some(s) => zone_display_of(name@, epoch as int) == Some(s@),
            None => zone_display_of(name@, epoch as int) is None,
        },
        tz_known(name@) && -62135596800 <= epoch <= 253402214399 ==> r is Some,
{
    let tz: chrono_tz::Tz = match name.parse() { Ok(t) => t, Err(_) => return None };
    match chrono::DateTime::from_timestamp(epoch, 0) {
        Some(utc) => Some(utc.with_timezone(&tz).to_string()),
        None => None,
    }
}

/// Relies on chrono's `Utc::now`: the system clock. Nothing is promised of
/// the value; callers state what holds whatever instant comes back.
#[verifier::external_body]
pub fn epoch_now() -> i64 {
    chrono::Utc::now().timestamp()
}

} // verus!
