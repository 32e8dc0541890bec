//! Civil dates and times: the model every due date is resolved into.
//!
//! A calendar date is held as plain year/month/day fields, a time of day as
//! hour/minute/second fields, and an instant as seconds since the Unix epoch.
//! All calendar arithmetic on these values is done here and verified.

use vstd::prelude::*;

use crate::tz::{epoch_now, tz_exists, tz_known, zone_civil, zone_civil_of, zone_display,
    zone_display_of};

verus! {

/// A calendar date in the proleptic Gregorian calendar.
#[derive(Clone, Copy, Debug, PartialEq, Eq, Structural, Hash)]
pub struct Date {
    pub year: u32,
    pub month: u32,
    pub day: u32,
}

/// A time of day with second precision.
#[derive(Clone, Copy, Debug, PartialEq, Eq, Structural, Hash)]
pub struct Time {
    pub hour: u32,
    pub minute: u32,
    pub second: u32,
}

pub open spec fn is_leap_year(y: int) -> bool {
    (y % 4 == 0 && y % 100 != 0) || y % 400 == 0
}

pub open spec fn days_in_month(y: int, m: int) -> int {
    if m == 2 {
        if is_leap_year(y) {
            29
        } else {
            28
        }
    } else if m == 4 || m == 6 || m == 9 || m == 11 {
        30
    } else {
        31
    }
}

/// A date the four-digit-year grammar can denote and the calendar contains.
pub open spec fn valid_date(d: Date) -> bool {
    &&& d.year <= 9999
    &&& 1 <= d.month <= 12
    &&& 1 <= d.day <= days_in_month(d.year as int, d.month as int)
}

pub open spec fn valid_time(t: Time) -> bool {
    t.hour <= 23 && t.minute <= 59 && t.second <= 59
}

/// Strict calendar order: `a` is an earlier day than `b`.
pub open spec fn date_lt(a: Date, b: Date) -> bool {
    ||| a.year < b.year
    ||| (a.year == b.year && a.month < b.month)
    ||| (a.year == b.year && a.month == b.month && a.day < b.day)
}

pub fn date_before(a: &Date, b: &Date) -> (r: bool)
    ensures
        r == date_lt(*a, *b),
{
    a.year < b.year || (a.year == b.year && (a.month < b.month || (a.month == b.month
        && a.day < b.day)))
}

pub fn date_eq(a: &Date, b: &Date) -> (r: bool)
    ensures
        r == (*a == *b),
{
    a.year == b.year && a.month == b.month && a.day == b.day
}

pub fn month_length(year: u32, month: u32) -> (r: u32)
    ensures
        r == days_in_month(year as int, month as int),
{
    if month == 2 {
        if (year % 4 == 0 && year % 100 != 0) || year % 400 == 0 {
            29
        } else {
            28
        }
    } else if month == 4 || month == 6 || month == 9 || month == 11 {
        30
    } else {
        31
    }
}

pub fn date_is_valid(d: &Date) -> (r: bool)
    ensures
        r == valid_date(*d),
{
    d.year <= 9999 && 1 <= d.month && d.month <= 12 && 1 <= d.day && d.day <= month_length(
        d.year,
        d.month,
    )
}

pub fn time_is_valid(t: &Time) -> (r: bool)
    ensures
        r == valid_time(*t),
{
    t.hour <= 23 && t.minute <= 59 && t.second <= 59
}

/// The day before `d` in the calendar; `d` itself at the calendar's origin.
pub open spec fn spec_previous_date(d: Date) -> Date {
    if d.day > 1 {
        Date { year: d.year, month: d.month, day: (d.day - 1) as u32 }
    } else if d.month > 1 {
        Date {
            year: d.year,
            month: (d.month - 1) as u32,
            day: days_in_month(d.year as int, d.month - 1) as u32,
        }
    } else if d.year > 0 {
        Date { year: (d.year - 1) as u32, month: 12, day: 31 }
    } else {
        d
    }
}

pub fn previous_date(d: &Date) -> (r: Date)
    ensures
        r == spec_previous_date(*d),
{
    if d.day > 1 {
        Date { year: d.year, month: d.month, day: d.day - 1 }
    } else if d.month > 1 {
        Date { year: d.year, month: d.month - 1, day: month_length(d.year, d.month - 1) }
    } else if d.year > 0 {
        Date { year: d.year - 1, month: 12, day: 31 }
    } else {
        Date { year: d.year, month: d.month, day: d.day }
    }
}

/// Days between `d` and 1970-01-01, negative for earlier dates.
///
/// The era arithmetic runs on the year shifted up by 400 so that every
/// intermediate quantity is non-negative; one extra 400-year era of 146097
/// days is taken back out at the end.
pub open spec fn days_from_epoch(d: Date) -> int {
    let y: int = if d.month <= 2 {
        d.year + 399
    } else {
        d.year + 400
    };
    let era: int = y / 400;
    let yoe: int = y - era * 400;
    let mp: int = if d.month > 2 {
        d.month - 3
    } else {
        d.month + 9
    };
    let doy: int = (153 * mp + 2) / 5 + d.day - 1;
    let doe: int = yoe * 365 + yoe / 4 - yoe / 100 + doy;
    era * 146097 + doe - 865565
}

pub fn epoch_days(d: &Date) -> (r: i64)
    requires
        valid_date(*d),
    ensures
        r == days_from_epoch(*d),
{
    let y: u32 = if d.month <= 2 {
        d.year + 399
    } else {
        d.year + 400
    };
    let era: u32 = y / 400;
    let yoe: u32 = y - era * 400;
    let mp: u32 = if d.month > 2 {
        d.month - 3
    } else {
        d.month + 9
    };
    let doy: u32 = (153 * mp + 2) / 5 + d.day - 1;
    let doe: u32 = yoe * 365 + yoe / 4 - yoe / 100 + doy;
    era as i64 * 146097 + doe as i64 - 865565
}

/// Seconds between the civil instant `(d, t)` read as UTC and the Unix epoch.
pub open spec fn epoch_of_civil(d: Date, t: Time) -> int {
    days_from_epoch(d) * 86400 + t.hour * 3600 + t.minute * 60 + t.second
}

pub fn epoch_seconds(d: &Date, t: &Time) -> (r: i64)
    requires
        valid_date(*d),
        valid_time(*t),
    ensures
        r == epoch_of_civil(*d, *t),
{
    epoch_days(d) * 86400 + t.hour as i64 * 3600 + t.minute as i64 * 60 + t.second as i64
}

pub open spec fn digit_char(n: int) -> char {
    if n == 0 {
        '0'
    } else if n == 1 {
        '1'
    } else if n == 2 {
        '2'
    } else if n == 3 {
        '3'
    } else if n == 4 {
        '4'
    } else if n == 5 {
        '5'
    } else if n == 6 {
        '6'
    } else if n == 7 {
        '7'
    } else if n == 8 {
        '8'
    } else {
        '9'
    }
}

/// The decimal digits of `n`, most significant first.
pub open spec fn dec_digits(n: int) -> Seq<char>
    decreases n,
{
    if n < 10 {
        seq![digit_char(n)]
    } else {
        dec_digits(n / 10).push(digit_char(n % 10))
    }
}

pub open spec fn dec_len(n: int) -> int
    decreases n,
{
    if n < 10 {
        1
    } else {
        1 + dec_len(n / 10)
    }
}

/// `n` in decimal, left-padded with zeros to at least `w` characters.
pub open spec fn dec_pad(n: int, w: int) -> Seq<char> {
    if dec_len(n) >= w {
        dec_digits(n)
    } else {
        Seq::new((w - dec_len(n)) as nat, |i: int| '0') + dec_digits(n)
    }
}

proof fn lemma_dec_digits_len(n: int)
    ensures
        dec_digits(n).len() == dec_len(n),
    decreases n,
{
    if n >= 10 {
        lemma_dec_digits_len(n / 10);
    }
}

fn digit_str(d: u32) -> (r: &'static str)
    requires
        d < 10,
    ensures
        r@ =~= seq![digit_char(d as int)],
{
    proof {
        reveal_strlit("0");
        reveal_strlit("1");
        reveal_strlit("2");
        reveal_strlit("3");
        reveal_strlit("4");
        reveal_strlit("5");
        reveal_strlit("6");
        reveal_strlit("7");
        reveal_strlit("8");
        reveal_strlit("9");
    }
    match d {
        0 => "0",
        1 => "1",
        2 => "2",
        3 => "3",
        4 => "4",
        5 => "5",
        6 => "6",
        7 => "7",
        8 => "8",
        _ => "9",
    }
}

fn u32_digits(n: u32) -> (r: String)
    ensures
        r@ == dec_digits(n as int),
        r@.len() == dec_len(n as int),
    decreases n,
{
    proof {
        lemma_dec_digits_len(n as int);
    }
    if n < 10 {
        digit_str(n).to_owned()
    } else {
        let mut s = u32_digits(n / 10);
        s.append(digit_str(n % 10));
        proof {
            assert(s@ =~= dec_digits(n as int));
        }
        s
    }
}

/// The decimal digits of a count.
pub fn u64_digits(n: u64) -> (r: String)
    ensures
        r@ == dec_digits(n as int),
    decreases n,
{
    if n < 10 {
        digit_str(n as u32).to_owned()
    } else {
        let mut s = u64_digits(n / 10);
        s.append(digit_str((n % 10) as u32));
        proof {
            assert(s@ =~= dec_digits(n as int));
        }
        s
    }
}

/// `n` in decimal, zero-padded on the left to at least `w` characters.
pub fn u32_pad(n: u32, w: usize) -> (r: String)
    ensures
        r@ == dec_pad(n as int, w as int),
{
    let digits = u32_digits(n);
    let dlen = digits.as_str().unicode_len();
    if dlen >= w {
        digits
    } else {
        let pad: usize = w - dlen;
        let mut s = String::new();
        let mut k: usize = 0;
        proof {
            reveal_strlit("0");
        }
        while k < pad
            invariant
                k <= pad,
                s@ =~= Seq::new(k as nat, |i: int| '0'),
                "0"@ =~= seq!['0'],
            decreases pad - k,
        {
            s.append("0");
            k = k + 1;
            proof {
                assert(s@ =~= Seq::new(k as nat, |i: int| '0'));
            }
        }
        s.append(digits.as_str());
        proof {
            assert(s@ =~= dec_pad(n as int, w as int));
        }
        s
    }
}

/// The ISO `YYYY-MM-DD` rendering of a date.
pub open spec fn date_str(d: Date) -> Seq<char> {
    dec_pad(d.year as int, 4) + "-"@ + dec_pad(d.month as int, 2) + "-"@ + dec_pad(d.day as int, 2)
}

pub fn format_date_iso(d: &Date) -> (r: String)
    ensures
        r@ == date_str(*d),
{
    let mut s = u32_pad(d.year, 4);
    s.append("-");
    s.append(u32_pad(d.month, 2).as_str());
    s.append("-");
    s.append(u32_pad(d.day, 2).as_str());
    proof {
        assert(s@ =~= date_str(*d));
    }
    s
}

/// The `HH:MM` rendering of a time of day.
pub open spec fn hour_minute_str(t: Time) -> Seq<char> {
    dec_pad(t.hour as int, 2) + ":"@ + dec_pad(t.minute as int, 2)
}

pub fn format_hour_minute(t: &Time) -> (r: String)
    ensures
        r@ == hour_minute_str(*t),
{
    let mut s = u32_pad(t.hour, 2);
    s.append(":");
    s.append(u32_pad(t.minute, 2).as_str());
    proof {
        assert(s@ =~= hour_minute_str(*t));
    }
    s
}

pub open spec fn is_digit(c: char) -> bool {
    48 <= c as int <= 57
}

pub open spec fn digit_val(c: char) -> int {
    c as int - 48
}

/// `YYYY-MM-DD` starting at position `k`.
pub open spec fn date_digits_at(s: Seq<char>, k: int) -> bool {
    &&& is_digit(s[k])
    &&& is_digit(s[k + 1])
    &&& is_digit(s[k + 2])
    &&& is_digit(s[k + 3])
    &&& s[k + 4] == '-'
    &&& is_digit(s[k + 5])
    &&& is_digit(s[k + 6])
    &&& s[k + 7] == '-'
    &&& is_digit(s[k + 8])
    &&& is_digit(s[k + 9])
}

/// `HH:MM:SS` starting at position `k`.
pub open spec fn time_digits_at(s: Seq<char>, k: int) -> bool {
    &&& is_digit(s[k])
    &&& is_digit(s[k + 1])
    &&& s[k + 2] == ':'
    &&& is_digit(s[k + 3])
    &&& is_digit(s[k + 4])
    &&& s[k + 5] == ':'
    &&& is_digit(s[k + 6])
    &&& is_digit(s[k + 7])
}

pub open spec fn date_of_seq_at(s: Seq<char>, k: int) -> Date {
    Date {
        year: (digit_val(s[k]) * 1000 + digit_val(s[k + 1]) * 100 + digit_val(s[k + 2]) * 10
            + digit_val(s[k + 3])) as u32,
        month: (digit_val(s[k + 5]) * 10 + digit_val(s[k + 6])) as u32,
        day: (digit_val(s[k + 8]) * 10 + digit_val(s[k + 9])) as u32,
    }
}

pub open spec fn time_of_seq_at(s: Seq<char>, k: int) -> Time {
    Time {
        hour: (digit_val(s[k]) * 10 + digit_val(s[k + 1])) as u32,
        minute: (digit_val(s[k + 3]) * 10 + digit_val(s[k + 4])) as u32,
        second: (digit_val(s[k + 6]) * 10 + digit_val(s[k + 7])) as u32,
    }
}

/// A ten-character date-only encoding, `YYYY-MM-DD`.
pub open spec fn date_grammar_ok(s: Seq<char>) -> bool {
    s.len() == 10 && date_digits_at(s, 0)
}

/// A nineteen-character local date-time encoding, `YYYY-MM-DDTHH:MM:SS`.
pub open spec fn datetime_grammar_ok(s: Seq<char>) -> bool {
    s.len() == 19 && date_digits_at(s, 0) && s[10] == 'T' && time_digits_at(s, 11)
}

/// A twenty-character UTC date-time encoding, `YYYY-MM-DDTHH:MM:SSZ`.
pub open spec fn datetime_z_grammar_ok(s: Seq<char>) -> bool {
    s.len() == 20 && date_digits_at(s, 0) && s[10] == 'T' && time_digits_at(s, 11) && s[19] == 'Z'
}

/// What a ten-character date string denotes, if anything.
pub open spec fn parse_date_spec(s: Seq<char>) -> Option<Date> {
    if date_grammar_ok(s) && valid_date(date_of_seq_at(s, 0)) {
        Some(date_of_seq_at(s, 0))
    } else {
        None
    }
}

/// What a nineteen- or twenty-character date-time string denotes, if anything.
/// `zulu` selects the twenty-character form with its trailing zone marker.
pub open spec fn parse_datetime_spec(s: Seq<char>, zulu: bool) -> Option<(Date, Time)> {
    let ok = if zulu {
        datetime_z_grammar_ok(s)
    } else {
        datetime_grammar_ok(s)
    };
    if ok && valid_date(date_of_seq_at(s, 0)) && valid_time(time_of_seq_at(s, 11)) {
        Some((date_of_seq_at(s, 0), time_of_seq_at(s, 11)))
    } else {
        None
    }
}

/// The digit value at position `i`, or `None` where another character stands.
fn ascii_digit_at(s: &str, i: usize) -> (r: Option<u32>)
    requires
        s.is_ascii(),
        i < s@.len(),
    ensures
        match r {
            Some(v) => is_digit(s@[i as int]) && v == digit_val(s@[i as int]),
            None => !is_digit(s@[i as int]),
        },
{
    let b = s.get_ascii(i);
    if 48 <= b && b <= 57 {
        Some((b - 48) as u32)
    } else {
        None
    }
}

/// Whether the character at position `i` is exactly the ASCII byte `b`.
fn ascii_char_is(s: &str, i: usize, b: u8) -> (r: bool)
    requires
        s.is_ascii(),
        i < s@.len(),
        b < 128,
    ensures
        r == (s@[i as int] as int == b as int),
{
    s.get_ascii(i) == b
}

/// Reads `YYYY-MM-DD` at position `k`; `None` where the shape is wrong.
fn read_date_at(s: &str, k: usize) -> (r: Option<Date>)
    requires
        s.is_ascii(),
        k + 10 <= s@.len(),
        k <= usize::MAX - 10,
    ensures
        match r {
            Some(d) => date_digits_at(s@, k as int) && d == date_of_seq_at(s@, k as int),
            None => !date_digits_at(s@, k as int),
        },
{
    let d0 = ascii_digit_at(s, k);
    let d1 = ascii_digit_at(s, k + 1);
    let d2 = ascii_digit_at(s, k + 2);
    let d3 = ascii_digit_at(s, k + 3);
    let d5 = ascii_digit_at(s, k + 5);
    let d6 = ascii_digit_at(s, k + 6);
    let d8 = ascii_digit_at(s, k + 8);
    let d9 = ascii_digit_at(s, k + 9);
    if !(ascii_char_is(s, k + 4, 45) && ascii_char_is(s, k + 7, 45)) {
        return None;
    }
    match (d0, d1, d2, d3, d5, d6, d8, d9) {
        (
            Some(y0),
            Some(y1),
            Some(y2),
            Some(y3),
            Some(m0),
            Some(m1),
            Some(a0),
            Some(a1),
        ) => Some(
            Date {
                year: y0 * 1000 + y1 * 100 + y2 * 10 + y3,
                month: m0 * 10 + m1,
                day: a0 * 10 + a1,
            },
        ),
        _ => None,
    }
}

/// Reads `HH:MM:SS` at position `k`; `None` where the shape is wrong.
fn read_time_at(s: &str, k: usize) -> (r: Option<Time>)
    requires
        s.is_ascii(),
        k + 8 <= s@.len(),
        k <= usize::MAX - 8,
    ensures
        match r {
            Some(t) => time_digits_at(s@, k as int) && t == time_of_seq_at(s@, k as int),
            None => !time_digits_at(s@, k as int),
        },
{
    let h0 = ascii_digit_at(s, k);
    let h1 = ascii_digit_at(s, k + 1);
    let m0 = ascii_digit_at(s, k + 3);
    let m1 = ascii_digit_at(s, k + 4);
    let s0 = ascii_digit_at(s, k + 6);
    let s1 = ascii_digit_at(s, k + 7);
    if !(ascii_char_is(s, k + 2, 58) && ascii_char_is(s, k + 5, 58)) {
        return None;
    }
    match (h0, h1, m0, m1, s0, s1) {
        (Some(a), Some(b), Some(c), Some(d), Some(e), Some(f)) => Some(
            Time { hour: a * 10 + b, minute: c * 10 + d, second: e * 10 + f },
        ),
        _ => None,
    }
}

/// Parses a ten-character date-only string.
pub fn parse_civil_date(s: &str) -> (r: Option<Date>)
    ensures
        r == parse_date_spec(s@),
        r matches Some(d) ==> valid_date(d),
{
    if !s.is_ascii() {
        return None;
    }
    if s.unicode_len() != 10 {
        return None;
    }
    match read_date_at(s, 0) {
        Some(d) => {
            if date_is_valid(&d) {
                Some(d)
            } else {
                None
            }
        },
        None => None,
    }
}

/// Parses a nineteen-character local or twenty-character UTC date-time string.
pub fn parse_civil_datetime(s: &str, zulu: bool) -> (r: Option<(Date, Time)>)
    ensures
        r == parse_datetime_spec(s@, zulu),
        r matches Some(p) ==> valid_date(p.0) && valid_time(p.1),
{
    if !s.is_ascii() {
        return None;
    }
    let want: usize = if zulu {
        20
    } else {
        19
    };
    if s.unicode_len() != want {
        return None;
    }
    if !ascii_char_is(s, 10, 84) {
        return None;
    }
    if zulu && !ascii_char_is(s, 19, 90) {
        return None;
    }
    let d = match read_date_at(s, 0) {
        Some(d) => d,
        None => {
            return None;
        },
    };
    let t = match read_time_at(s, 11) {
        Some(t) => t,
        None => {
            return None;
        },
    };
    if date_is_valid(&d) && time_is_valid(&t) {
        Some((d, t))
    } else {
        None
    }
}

/// A due-date failure: the raw string fits no recognized shape, or a named
/// time zone is unknown.
#[derive(Debug, PartialEq, Eq)]
pub enum TimeError {
    ParseError { input: String },
    TimezoneError { name: String },
}

impl Clone for TimeError {
    fn clone(&self) -> (r: Self)
        ensures
            r == *self,
    {
        match self {
            TimeError::ParseError { input } => TimeError::ParseError { input: input.clone() },
            TimeError::TimezoneError { name } => TimeError::TimezoneError { name: name.clone() },
        }
    }
}

/// The diagnostic text a failure carries into a rendered task.
pub open spec fn time_error_message(e: TimeError) -> Seq<char> {
    match e {
        TimeError::ParseError { input } => if input@.len() == 10 {
            "could not parse Date"@
        } else {
            "cannot parse DateTime: "@ + input@
        },
        TimeError::TimezoneError { name } => "failed to parse timezone: "@ + name@,
    }
}

impl TimeError {
    pub fn message(&self) -> (r: String)
        ensures
            r@ == time_error_message(*self),
    {
        match self {
            TimeError::ParseError { input } => {
                if input.as_str().unicode_len() == 10 {
                    "could not parse Date".to_owned()
                } else {
                    let mut s = "cannot parse DateTime: ".to_owned();
                    s.append(input.as_str());
                    proof {
                        assert(s@ =~= time_error_message(*self));
                    }
                    s
                }
            },
            TimeError::TimezoneError { name } => {
                let mut s = "failed to parse timezone: ".to_owned();
                s.append(name.as_str());
                proof {
                    assert(s@ =~= time_error_message(*self));
                }
                s
            },
        }
    }
}

/// An instant together with its wall-clock reading in the zone that anchored
/// it: `epoch_s` seconds since the Unix epoch, shown there as `date`/`time`.
#[derive(Clone, Copy, Debug, PartialEq, Eq, Structural, Hash)]
pub struct ZonedDateTime {
    pub epoch_s: i64,
    pub date: Date,
    pub time: Time,
}

/// The ambient configuration every resolution and ranking call receives: the
/// default zone name, the current instant, and the current civil date in the
/// resolved zone. It is built once by the caller, so every computation on it
/// is deterministic.
pub struct Context {
    pub timezone: Option<String>,
    pub now_epoch_s: i64,
    pub today: Date,
}

impl Clone for Context {
    fn clone(&self) -> (r: Self)
        ensures
            r == *self,
    {
        Context {
            timezone: match &self.timezone {
                Some(s) => Some(s.clone()),
                None => None,
            },
            now_epoch_s: self.now_epoch_s,
            today: self.today,
        }
    }
}

/// The zone a context's instants are displayed in: its own zone where that
/// is known, UTC everywhere else.
pub open spec fn effective_zone_name(ctx: Context) -> Seq<char> {
    match ctx.timezone {
        Some(s) => if tz_known(s@) {
            s@
        } else {
            "UTC"@
        },
        None => "UTC"@,
    }
}

/// The context's display zone as a string, with the fact that the name is a
/// known zone.
pub fn effective_zone(ctx: &Context) -> (r: &str)
    ensures
        r@ == effective_zone_name(*ctx),
        tz_known(r@),
{
    let utc: &str = "UTC";
    let known_utc = tz_exists(utc);
    assert(known_utc);
    match &ctx.timezone {
        Some(s) => {
            if tz_exists(s.as_str()) {
                s.as_str()
            } else {
                utc
            }
        },
        None => utc,
    }
}

pub fn today_date(ctx: &Context) -> (r: Date)
    ensures
        r == ctx.today,
{
    ctx.today
}

/// Today's date as `YYYY-MM-DD`.
pub fn today_string(ctx: &Context) -> (r: String)
    ensures
        r@ == date_str(ctx.today),
{
    format_date_iso(&ctx.today)
}

pub fn date_is_today(date: Date, ctx: &Context) -> (r: bool)
    ensures
        r == (date == ctx.today),
{
    date_eq(&date, &ctx.today)
}

pub fn datetime_is_today(datetime: &ZonedDateTime, ctx: &Context) -> (r: bool)
    ensures
        r == (datetime.date == ctx.today),
{
    date_eq(&datetime.date, &ctx.today)
}

pub fn is_date_in_past(date: Date, ctx: &Context) -> (r: bool)
    ensures
        r == date_lt(date, ctx.today),
{
    date_before(&date, &ctx.today)
}

/// How a date-only due date is rendered: the literal `Today` on the current
/// date, the ISO form on any other.
pub open spec fn spec_format_date(d: Date, ctx: Context) -> Seq<char> {
    if d == ctx.today {
        "Today"@
    } else {
        date_str(d)
    }
}

pub fn format_date(date: &Date, ctx: &Context) -> (r: String)
    ensures
        r@ == spec_format_date(*date, *ctx),
{
    if date_is_today(*date, ctx) {
        "Today".to_owned()
    } else {
        format_date_iso(date)
    }
}

/// How a date-time due date is rendered: `HH:MM` in the context's display
/// zone when its own wall-clock date is today, the zone's full rendering on
/// any other day; where the zone data cannot place the instant, its stored
/// wall-clock reading stands in.
pub open spec fn spec_format_datetime(dt: ZonedDateTime, ctx: Context) -> Seq<char> {
    let z = effective_zone_name(ctx);
    if dt.date == ctx.today {
        match zone_civil_of(z, dt.epoch_s as int) {
            Some(c) => dec_pad(c.3, 2) + ":"@ + dec_pad(c.4, 2),
            None => date_str(dt.date) + " "@ + hour_minute_str(dt.time),
        }
    } else {
        match zone_display_of(z, dt.epoch_s as int) {
            Some(s) => s,
            None => date_str(dt.date) + " "@ + hour_minute_str(dt.time),
        }
    }
}

pub fn format_datetime(datetime: &ZonedDateTime, ctx: &Context) -> (r: String)
    ensures
        r@ == spec_format_datetime(*datetime, *ctx),
{
    let zone = effective_zone(ctx);
    if datetime_is_today(datetime, ctx) {
        match zone_civil(zone, datetime.epoch_s) {
            Some((_d, t)) => format_hour_minute(&t),
            None => {
                let mut s = format_date_iso(&datetime.date);
                s.append(" ");
                s.append(format_hour_minute(&datetime.time).as_str());
                proof {
                    assert(s@ =~= spec_format_datetime(*datetime, *ctx));
                }
                s
            },
        }
    } else {
        match zone_display(zone, datetime.epoch_s) {
            Some(s) => s,
            None => {
                let mut s = format_date_iso(&datetime.date);
                s.append(" ");
                s.append(format_hour_minute(&datetime.time).as_str());
                proof {
                    assert(s@ =~= spec_format_datetime(*datetime, *ctx));
                }
                s
            },
        }
    }
}

/// Builds a context from the system clock: the current instant, and today's
/// date in the given zone. Fails where the zone name is unknown.
pub fn context_now(timezone: Option<String>) -> (r: Result<Context, TimeError>)
    ensures
        r matches Err(e) ==> (e matches TimeError::TimezoneError { name } && (
        timezone matches Some(n) && name@ == n@ && !tz_known(n@))) || (e matches
            TimeError::ParseError { input }),
        r matches Ok(ctx) ==> ctx.timezone == timezone,
{
    let now = epoch_now();
    let zone: &str = match &timezone {
        Some(s) => {
            if !tz_exists(s.as_str()) {
                return Err(TimeError::TimezoneError { name: s.clone() });
            }
            s.as_str()
        },
        None => "UTC",
    };
    match zone_civil(zone, now) {
        Some((d, _t)) => Ok(Context { timezone, now_epoch_s: now, today: d }),
        None => Err(
            TimeError::ParseError { input: String::new() },
        ),
    }
}

/// The wall-clock date any of the three due-date encodings denotes.
pub open spec fn spec_date_from_str(s: Seq<char>) -> Option<Date> {
    if s.len() == 10 {
        parse_date_spec(s)
    } else if s.len() == 19 {
        match parse_datetime_spec(s, false) {
            Some(p) => Some(p.0),
            None => None,
        }
    } else if s.len() == 20 {
        match parse_datetime_spec(s, true) {
            Some(p) => Some(p.0),
            None => None,
        }
    } else {
        None
    }
}

/// Reads the calendar date out of a raw due string of any recognized length.
pub fn date_from_str(s: &str) -> (r: Result<Date, TimeError>)
    ensures
        match r {
            Ok(d) => spec_date_from_str(s@) == Some(d) && valid_date(d),
            Err(e) => spec_date_from_str(s@) is None && (e matches TimeError::ParseError { input }
                && input@ == s@),
        },
{
    if s.is_ascii() {
        let n = s.unicode_len();
        if n == 10 {
            match parse_civil_date(s) {
                Some(d) => {
                    return Ok(d);
                },
                None => {},
            }
        } else if n == 19 {
            match parse_civil_datetime(s, false) {
                Some((d, _t)) => {
                    return Ok(d);
                },
                None => {},
            }
        } else if n == 20 {
            match parse_civil_datetime(s, true) {
                Some((d, _t)) => {
                    return Ok(d);
                },
                None => {},
            }
        }
    }
    Err(TimeError::ParseError { input: s.to_owned() })
}

/// Whether a string is a date in the form `YYYY-MM-DD`.
pub fn is_date(s: &str) -> (r: bool)
    ensures
        r == date_grammar_ok(s@),
{
    if !s.is_ascii() {
        return false;
    }
    if s.unicode_len() != 10 {
        return false;
    }
    match read_date_at(s, 0) {
        Some(_) => true,
        None => false,
    }
}

/// A sixteen-character schedule entry, `YYYY-MM-DD HH:MM`.
pub open spec fn schedule_grammar_ok(s: Seq<char>) -> bool {
    &&& s.len() == 16
    &&& date_digits_at(s, 0)
    &&& s[10] == ' '
    &&& is_digit(s[11])
    &&& is_digit(s[12])
    &&& s[13] == ':'
    &&& is_digit(s[14])
    &&& is_digit(s[15])
}

/// Whether a string is a date-time in the form `YYYY-MM-DD HH:MM`.
pub fn is_datetime(s: &str) -> (r: bool)
    ensures
        r == schedule_grammar_ok(s@),
{
    if !s.is_ascii() {
        return false;
    }
    if s.unicode_len() != 16 {
        return false;
    }
    let date_part = match read_date_at(s, 0) {
        Some(_) => true,
        None => false,
    };
    date_part && ascii_char_is(s, 10, 32) && ascii_digit_at(s, 11).is_some() && ascii_digit_at(
        s,
        12,
    ).is_some() && ascii_char_is(s, 13, 58) && ascii_digit_at(s, 14).is_some() && ascii_digit_at(
        s,
        15,
    ).is_some()
}

} // verus!
