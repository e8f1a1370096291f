//! Local dates and times to the second, with their offset from UTC, and the
//! steps the date selector takes: by calendar months and days on the wall
//! clock, and by exact seconds on the time line.
//!
//! The steps are computed by chrono. What each returns is stated here over
//! the proleptic Gregorian calendar, in chrono's range of years. Which offset
//! the local time zone has at a given time depends on the machine: of that
//! only its bound is known.

use chrono::{Datelike, TimeZone, Timelike};
use vstd::prelude::*;

verus! {

/// The first year chrono's dates cover.
pub const MIN_YEAR: i32 = -262143;

/// The last year chrono's dates cover.
pub const MAX_YEAR: i32 = 262142;

pub open spec fn is_leap_year(y: int) -> bool {
    (y % 4 == 0 && y % 100 != 0) || y % 400 == 0
}

pub open spec fn days_in_month(y: int, m: int) -> int {
    if m == 2 {
        if is_leap_year(y) {
            29
        } else {
            28
        }
    } else if m == 4 || m == 6 || m == 9 || m == 11 {
        30
    } else {
        31
    }
}

pub open spec fn year_in_range(y: int) -> bool {
    MIN_YEAR <= y <= MAX_YEAR
}

/// A local date and time to the second: the wall clock, and how far it is
/// ahead of UTC.
#[derive(Clone, Copy, Debug, PartialEq, Eq, Structural)]
pub struct Timestamp {
    pub year: i32,
    pub month: u32,
    pub day: u32,
    pub hour: u32,
    pub minute: u32,
    pub second: u32,
    /// Seconds of local time minus UTC.
    pub offset: i32,
}

impl Timestamp {
    /// A real date in chrono's range, a time of day, and an offset of less
    /// than a day either way.
    pub open spec fn wf(self) -> bool {
        &&& -86400 < self.offset < 86400
        &&& year_in_range(self.year as int)
        &&& 1 <= self.month <= 12
        &&& 1 <= self.day <= days_in_month(self.year as int, self.month as int)
        &&& self.hour < 24
        &&& self.minute < 60
        &&& self.second < 60
    }

    /// The same time of day on another date.
    pub open spec fn on(self, y: int, m: int, d: int) -> Timestamp {
        Timestamp { year: y as i32, month: m as u32, day: d as u32, ..self }
    }

    /// Seconds since midnight.
    pub open spec fn second_of_day(self) -> int {
        self.hour * 3600 + self.minute * 60 + self.second
    }

    /// A timestamp from its fields; `None` unless they form a real date in
    /// chrono's range, a time of day and an offset of less than a day.
    pub fn new(
        year: i32,
        month: u32,
        day: u32,
        hour: u32,
        minute: u32,
        second: u32,
        offset: i32,
    ) -> (r: Option<Timestamp>)
        ensures
            r == (if (Timestamp { year, month, day, hour, minute, second, offset }).wf() {
                Some(Timestamp { year, month, day, hour, minute, second, offset })
            } else {
                None
            }),
    {
        let t = Timestamp { year, month, day, hour, minute, second, offset };
        if -86400 < offset && offset < 86400 && MIN_YEAR <= year && year <= MAX_YEAR && 1 <= month && month <= 12 && 1 <= day && day
            <= month_length(year, month) && hour < 24 && minute < 60 && second < 60 {
            Some(t)
        } else {
            None
        }
    }
}

/// The number of days of month `m` of year `y`.
pub fn month_length(y: i32, m: u32) -> (r: u32)
    ensures
        r == days_in_month(y as int, m as int),
{
    if m == 2 {
        if (y % 4 == 0 && y % 100 != 0) || y % 400 == 0 {
            29
        } else {
            28
        }
    } else if m == 4 || m == 6 || m == 9 || m == 11 {
        30
    } else {
        31
    }
}

/// The month count of `t` moved by `n` months, as a year.
pub open spec fn months_year(t: Timestamp, n: int) -> int {
    (t.year * 12 + t.month - 1 + n) / 12
}

/// `t` moved by `n` months; a day past the end of the new month becomes its
/// last day.
pub open spec fn months_shifted(t: Timestamp, n: int) -> Timestamp {
    let y = months_year(t, n);
    let m = (t.year * 12 + t.month - 1 + n) % 12 + 1;
    let d = if t.day <= days_in_month(y, m) {
        t.day as int
    } else {
        days_in_month(y, m)
    };
    t.on(y, m, d)
}

/// `t` moved by `n` months, or `None` when that leaves chrono's range.
pub open spec fn shift_months(t: Timestamp, n: int) -> Option<Timestamp> {
    if year_in_range(months_year(t, n)) {
        Some(months_shifted(t, n))
    } else {
        None
    }
}

/// The same time on the next day.
pub open spec fn next_day(t: Timestamp) -> Timestamp {
    if t.day < days_in_month(t.year as int, t.month as int) {
        t.on(t.year as int, t.month as int, t.day + 1)
    } else if t.month < 12 {
        t.on(t.year as int, t.month + 1, 1)
    } else {
        t.on(t.year + 1, 1, 1)
    }
}

/// The same time on the day before.
pub open spec fn prev_day(t: Timestamp) -> Timestamp {
    if t.day > 1 {
        t.on(t.year as int, t.month as int, t.day - 1)
    } else if t.month > 1 {
        t.on(t.year as int, t.month - 1, days_in_month(t.year as int, t.month - 1))
    } else {
        t.on(t.year - 1, 12, 31)
    }
}

/// `t`, unless its year lies outside chrono's range.
pub open spec fn within(t: Timestamp) -> Option<Timestamp> {
    if year_in_range(t.year as int) {
        Some(t)
    } else {
        None
    }
}

/// `t` moved by `k` seconds, for `k` under a day either way.
pub open spec fn seconds_shifted(t: Timestamp, k: int) -> Timestamp {
    let total = t.second_of_day() + k;
    let base = if total >= 86400 {
        next_day(t)
    } else if total < 0 {
        prev_day(t)
    } else {
        t
    };
    let sod = if total >= 86400 {
        total - 86400
    } else if total < 0 {
        total + 86400
    } else {
        total
    };
    Timestamp {
        hour: (sod / 3600) as u32,
        minute: (sod % 3600 / 60) as u32,
        second: (sod % 60) as u32,
        ..base
    }
}

/// Relies on `NaiveDate::checked_add_months`: the month count moves by `n`,
/// the day is clamped to the new month's length, and `None` comes when the
/// year leaves the range.
#[verifier::external_body]
pub(crate) fn add_months(t: &Timestamp, n: u32) -> (r: Option<Timestamp>)
    requires
        t.wf(),
        n <= i32::MAX,
    ensures
        r == shift_months(*t, n as int),
{
    let d = chrono::NaiveDate::from_ymd_opt(t.year, t.month, t.day)?;
    let s = d.checked_add_months(chrono::Months::new(n))?;
    Some(Timestamp { year: s.year(), month: s.month(), day: s.day(), ..*t })
}

/// Relies on `NaiveDate::checked_sub_months`: as `add_months`, backwards.
#[verifier::external_body]
pub(crate) fn sub_months(t: &Timestamp, n: u32) -> (r: Option<Timestamp>)
    requires
        t.wf(),
        n <= i32::MAX,
    ensures
        r == shift_months(*t, -(n as int)),
{
    let d = chrono::NaiveDate::from_ymd_opt(t.year, t.month, t.day)?;
    let s = d.checked_sub_months(chrono::Months::new(n))?;
    Some(Timestamp { year: s.year(), month: s.month(), day: s.day(), ..*t })
}

/// Relies on `NaiveDate::checked_add_days`: one day on is the next calendar
/// day, `None` past the last date chrono covers.
#[verifier::external_body]
pub(crate) fn add_days(t: &Timestamp, days: u64) -> (r: Option<Timestamp>)
    requires
        t.wf(),
        days == 1,
    ensures
        r == within(next_day(*t)),
{
    let d = chrono::NaiveDate::from_ymd_opt(t.year, t.month, t.day)?;
    let s = d.checked_add_days(chrono::Days::new(days))?;
    Some(Timestamp { year: s.year(), month: s.month(), day: s.day(), ..*t })
}

/// Relies on `NaiveDate::checked_sub_days`: one day back is the calendar day
/// before, `None` before the first date chrono covers.
#[verifier::external_body]
pub(crate) fn sub_days(t: &Timestamp, days: u64) -> (r: Option<Timestamp>)
    requires
        t.wf(),
        days == 1,
    ensures
        r == within(prev_day(*t)),
{
    let d = chrono::NaiveDate::from_ymd_opt(t.year, t.month, t.day)?;
    let s = d.checked_sub_days(chrono::Days::new(days))?;
    Some(Timestamp { year: s.year(), month: s.month(), day: s.day(), ..*t })
}

/// Relies on `NaiveDateTime::checked_add_signed` with `TimeDelta::seconds`:
/// the time moves by `secs` seconds, into the next or previous day when it
/// passes midnight, and `None` comes when the date leaves the range.
#[verifier::external_body]
pub(crate) fn add_seconds(t: &Timestamp, secs: i64) -> (r: Option<Timestamp>)
    requires
        t.wf(),
        -86400 < secs < 86400,
    ensures
        r == within(seconds_shifted(*t, secs as int)),
{
    let d = chrono::NaiveDate::from_ymd_opt(t.year, t.month, t.day)?;
    let dt = d.and_hms_opt(t.hour, t.minute, t.second)?;
    let s = dt.checked_add_signed(chrono::TimeDelta::seconds(secs))?;
    Some(Timestamp {
        year: s.year(),
        month: s.month(),
        day: s.day(),
        hour: s.hour(),
        minute: s.minute(),
        second: s.second(),
        offset: t.offset,
    })
}

/// Relies on `SystemTime::now`, chrono's `From<SystemTime> for DateTime<Utc>`
/// and `with_timezone(&Local)`: the machine's local time now, with its offset.
/// Nothing but its validity is known of it.
#[verifier::external_body]
pub(crate) fn local_now() -> (r: Timestamp)
    ensures
        r.wf(),
{
    let d = chrono::DateTime::<chrono::Utc>::from(std::time::SystemTime::now())
        .with_timezone(&chrono::Local);
    let n = d.naive_local();
    Timestamp {
        year: n.year(),
        month: n.month(),
        day: n.day(),
        hour: n.hour(),
        minute: n.minute(),
        second: n.second(),
        offset: d.offset().local_minus_utc(),
    }
}

/// Relies on `Local::from_local_datetime` and `LocalResult::single`: the
/// offset of the local time zone at the wall-clock time of `t`, or `None`
/// when that time is skipped or occurs twice there. It depends on the
/// machine's time zone; chrono's `FixedOffset` keeps it under a day.
#[verifier::external_body]
pub(crate) fn local_offset_at(t: &Timestamp) -> (r: Option<i32>)
    requires
        t.wf(),
    ensures
        r matches Some(o) ==> -86400 < o < 86400,
{
    let d = chrono::NaiveDate::from_ymd_opt(t.year, t.month, t.day)?;
    let n = d.and_hms_opt(t.hour, t.minute, t.second)?;
    match chrono::Local.from_local_datetime(&n).single() {
        Some(l) => Some(l.offset().local_minus_utc()),
        None => None,
    }
}

/// Relies on `Local::offset_from_utc_datetime`: the offset of the local time
/// zone at the instant whose UTC wall clock is `u`. It depends on the
/// machine's time zone; chrono's `FixedOffset` keeps it under a day.
#[verifier::external_body]
pub(crate) fn utc_offset_at(u: &Timestamp) -> (r: i32)
    requires
        u.wf(),
    ensures
        -86400 < r < 86400,
{
    let d = chrono::NaiveDate::from_ymd_opt(u.year, u.month, u.day).unwrap();
    let n = d.and_hms_opt(u.hour, u.minute, u.second).unwrap();
    chrono::Local.offset_from_utc_datetime(&n).local_minus_utc()
}

/// The UTC wall clock of the instant `t` stands for, with offset 0.
pub open spec fn utc_of(t: Timestamp) -> Timestamp {
    Timestamp { offset: 0, ..seconds_shifted(t, -t.offset) }
}

/// The character of a decimal digit.
pub open spec fn digit(d: int) -> char {
    seq!['0', '1', '2', '3', '4', '5', '6', '7', '8', '9'][d]
}

/// `n` in two digits, zero-padded.
pub open spec fn two_digits(n: int) -> Seq<char> {
    seq![digit(n / 10), digit(n % 10)]
}

/// `YYYY-MM-DD`, for a year of at most four digits.
pub open spec fn date_text(t: Timestamp) -> Seq<char> {
    seq![
        digit(t.year as int / 1000),
        digit(t.year as int / 100 % 10),
        digit(t.year as int / 10 % 10),
        digit(t.year as int % 10),
        '-',
    ] + two_digits(t.month as int) + seq!['-'] + two_digits(t.day as int)
}

/// `HH:MM:SS`.
pub open spec fn time_text(t: Timestamp) -> Seq<char> {
    two_digits(t.hour as int) + seq![':'] + two_digits(t.minute as int) + seq![':'] + two_digits(
        t.second as int,
    )
}

/// The pattern of a date alone.
pub const DATE_PATTERN: &'static str = "%Y-%m-%d";

/// The pattern of a date and a time of day.
pub const DATETIME_PATTERN: &'static str = "%Y-%m-%d %H:%M:%S";

/// What chrono's `format` writes for `t` with the strftime-style `pattern`.
pub uninterp spec fn formatted(t: Timestamp, pattern: Seq<char>) -> Seq<char>;

/// Relies on `NaiveDateTime::format`: the text depends on the wall clock and
/// the pattern alone; `%Y` writes a year of 0 to 9999 in four digits, and
/// `%m`, `%d`, `%H`, `%M`, `%S` write two zero-padded digits.
#[verifier::external_body]
pub(crate) fn format_stamp(t: &Timestamp, pattern: &str) -> (r: String)
    requires
        t.wf(),
        pattern@ == DATE_PATTERN@ || pattern@ == DATETIME_PATTERN@,
    ensures
        r@ == formatted(*t, pattern@),
        0 <= t.year <= 9999 && pattern@ == DATE_PATTERN@ ==> r@ == date_text(*t),
        0 <= t.year <= 9999 && pattern@ == DATETIME_PATTERN@ ==> r@ == date_text(*t) + seq![' ']
            + time_text(*t),
{
    let d = chrono::NaiveDate::from_ymd_opt(t.year, t.month, t.day).unwrap();
    let dt = d.and_hms_opt(t.hour, t.minute, t.second).unwrap();
    dt.format(pattern).to_string()
}


/// A month step within the range gives a valid timestamp.
pub proof fn lemma_months_shifted_wf(t: Timestamp, n: int)
    requires
        t.wf(),
    ensures
        year_in_range(months_year(t, n)) ==> months_shifted(t, n).wf(),
{
}

/// A day step within the range gives a valid timestamp.
pub proof fn lemma_day_steps_wf(t: Timestamp)
    requires
        t.wf(),
    ensures
        year_in_range(next_day(t).year as int) ==> next_day(t).wf(),
        year_in_range(prev_day(t).year as int) ==> prev_day(t).wf(),
{
}

/// A step of under a day within the range gives a valid timestamp.
pub proof fn lemma_seconds_shifted_wf(t: Timestamp, k: int)
    requires
        t.wf(),
        -86400 < k < 86400,
    ensures
        year_in_range(seconds_shifted(t, k).year as int) ==> seconds_shifted(t, k).wf(),
{
    lemma_day_steps_wf(t);
}


/// The next day of the day before is the day itself.
pub proof fn lemma_next_of_prev(t: Timestamp)
    requires
        t.wf(),
        year_in_range(prev_day(t).year as int),
    ensures
        next_day(prev_day(t)) == t,
{
}

/// The day before the next day is the day itself.
pub proof fn lemma_prev_of_next(t: Timestamp)
    requires
        t.wf(),
    ensures
        prev_day(next_day(t)) == t,
{
}

proof fn lemma_hms(h: int, m: int, s: int)
    requires
        0 <= h < 24,
        0 <= m < 60,
        0 <= s < 60,
    ensures
        (h * 3600 + m * 60 + s) / 3600 == h,
        (h * 3600 + m * 60 + s) % 3600 / 60 == m,
        (h * 3600 + m * 60 + s) % 60 == s,
{
}

proof fn lemma_sod(x: int)
    requires
        0 <= x < 86400,
    ensures
        0 <= x / 3600 < 24,
        0 <= x % 3600 / 60 < 60,
        0 <= x % 60 < 60,
        (x / 3600) * 3600 + (x % 3600 / 60) * 60 + x % 60 == x,
{
}

/// Moving a timestamp by `k` seconds and back gives it back.
pub proof fn lemma_seconds_inverse(t: Timestamp, k: int)
    requires
        t.wf(),
        -86400 < k < 86400,
        year_in_range(seconds_shifted(t, k).year as int),
    ensures
        seconds_shifted(seconds_shifted(t, k), -k) == t,
{
    let sod = t.second_of_day();
    lemma_hms(t.hour as int, t.minute as int, t.second as int);
    let total = sod + k;
    let sod2 = if total >= 86400 {
        total - 86400
    } else if total < 0 {
        total + 86400
    } else {
        total
    };
    lemma_sod(sod2);
    let t2 = seconds_shifted(t, k);
    assert(t2.second_of_day() == sod2);
    lemma_prev_of_next(t);
    if total < 0 {
        lemma_next_of_prev(t);
    }
    assert(seconds_shifted(t2, -k) == t);
}

/// A step of under a day moves the year by at most one.
pub proof fn lemma_seconds_shifted_year(t: Timestamp, k: int)
    requires
        t.wf(),
        -86400 < k < 86400,
    ensures
        t.year - 1 <= seconds_shifted(t, k).year <= t.year + 1,
        seconds_shifted(t, k).offset == t.offset,
{
}

} // verus!
