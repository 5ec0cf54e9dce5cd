//! Calendar values: dates, times of day and instants in the proleptic
//! Gregorian calendar, with the chrono operations the scheduling rules use.

use vstd::prelude::*;

use chrono::{Datelike, Timelike};

use crate::text::{push_four_digits, push_two_digits, zero_padded};

verus! {

/// Earliest year chrono's `NaiveDate` represents.
pub const MIN_YEAR: i32 = -262143;

/// Latest year chrono's `NaiveDate` represents.
pub const MAX_YEAR: i32 = 262142;

/// A calendar date (year, month 1-12, day of month).
#[derive(Debug, Clone, Copy, PartialEq, Eq, Structural)]
pub struct Date {
    pub year: i32,
    pub month: u32,
    pub day: u32,
}

/// An instant without time zone: a date, the second of that day and the
/// sub-second part in nanoseconds (values of one billion and more stand for
/// a leap second, as in chrono).
#[derive(Debug, Clone, Copy, PartialEq, Eq, Structural)]
pub struct DateTime {
    pub date: Date,
    pub secs: u32,
    pub frac: u32,
}

pub open spec fn is_leap_year(y: int) -> bool {
    y % 4 == 0 && (y % 100 != 0 || y % 400 == 0)
}

pub open spec fn days_in_month(y: int, m: int) -> int {
    if m == 2 {
        if is_leap_year(y) { 29 } else { 28 }
    } else if m == 4 || m == 6 || m == 9 || m == 11 {
        30
    } else {
        31
    }
}

/// Days of the year before the first of month `m`.
pub open spec fn days_before_month(y: int, m: int) -> int
    decreases m,
{
    if m <= 1 {
        0
    } else {
        days_before_month(y, m - 1) + days_in_month(y, m - 1)
    }
}

/// The day number counted from 0001-01-01 (day 1) in the proleptic
/// Gregorian calendar, as chrono's `num_days_from_ce` returns it.
pub open spec fn days_from_ce(year: int, month: int, day: int) -> int {
    let y = year - 1;
    days_before_month(year, month) + day + 365 * y + y / 4 - y / 100 + y / 400
}

/// Day of the week counted from Monday (0) to Sunday (6); 0001-01-01 was a
/// Monday.
pub open spec fn weekday_index(year: int, month: int, day: int) -> int {
    (days_from_ce(year, month, day) - 1) % 7
}

impl Date {
    /// The date exists in the calendar and lies in chrono's range.
    pub open spec fn valid(self) -> bool {
        &&& MIN_YEAR <= self.year <= MAX_YEAR
        &&& 1 <= self.month <= 12
        &&& 1 <= self.day <= days_in_month(self.year as int, self.month as int)
    }

    pub open spec fn day_number(self) -> int {
        days_from_ce(self.year as int, self.month as int, self.day as int)
    }

    pub open spec fn weekday(self) -> int {
        weekday_index(self.year as int, self.month as int, self.day as int)
    }

    /// Chronological order on dates: by year, then month, then day.
    pub open spec fn spec_le(self, other: Date) -> bool {
        ||| self.year < other.year
        ||| self.year == other.year && self.month < other.month
        ||| self.year == other.year && self.month == other.month && self.day <= other.day
    }

    /// `self` comes no later than `other`.
    pub fn le(&self, other: &Date) -> (r: bool)
        ensures
            r == self.spec_le(*other),
    {
        self.year < other.year || (self.year == other.year && self.month < other.month) || (
        self.year == other.year && self.month == other.month && self.day <= other.day)
    }

    /// The date as chrono prints it: `YYYY-MM-DD` (see `iso_text`).
    pub fn iso_string(&self) -> (r: String)
        requires
            self.valid(),
        ensures
            r@ == self.iso_text(),
    {
        let mut s = String::new();
        let y = self.year;
        if 0 <= y && y <= 9999 {
            push_four_digits(&mut s, y as u64);
        } else if y < 0 {
            proof { reveal_strlit("-"); }
            s.append("-");
            push_four_digits(&mut s, (-(y as i64)) as u64);
        } else {
            proof { reveal_strlit("+"); }
            s.append("+");
            push_four_digits(&mut s, y as u64);
        }
        proof { reveal_strlit("-"); }
        s.append("-");
        push_two_digits(&mut s, self.month as u64);
        s.append("-");
        push_two_digits(&mut s, self.day as u64);
        assert(s@ =~= self.iso_text());
        s
    }

    /// The ISO-8601 text that chrono prints for a date: `YYYY-MM-DD`, with
    /// an explicit sign and at least four digits for years outside 0..=9999.
    pub open spec fn iso_text(self) -> Seq<char> {
        let y = self.year as int;
        let year_text = if 0 <= y <= 9999 {
            zero_padded(y as nat, 4)
        } else if y < 0 {
            seq!['-'] + zero_padded((-y) as nat, 4)
        } else {
            seq!['+'] + zero_padded(y as nat, 4)
        };
        year_text + seq!['-'] + zero_padded(self.month as nat, 2) + seq!['-'] + zero_padded(
            self.day as nat,
            2,
        )
    }
}

impl DateTime {
    pub open spec fn valid(self) -> bool {
        &&& self.date.valid()
        &&& self.secs < 86400
        &&& self.frac < 2_000_000_000
        &&& self.frac >= 1_000_000_000 ==> self.secs % 60 == 59
    }

    /// Chronological order: by date, then second, then sub-second part.
    pub open spec fn spec_le(self, other: DateTime) -> bool {
        ||| self.date.spec_le(other.date) && self.date != other.date
        ||| self.date == other.date && self.secs < other.secs
        ||| self.date == other.date && self.secs == other.secs && self.frac <= other.frac
    }

    /// `self` comes no later than `other`.
    pub fn le(&self, other: &DateTime) -> (r: bool)
        ensures
            r == self.spec_le(*other),
    {
        if self.date == other.date {
            self.secs < other.secs || (self.secs == other.secs && self.frac <= other.frac)
        } else {
            self.date.le(&other.date)
        }
    }

    pub open spec fn hour(self) -> int {
        self.secs as int / 3600
    }

    pub open spec fn minute(self) -> int {
        (self.secs as int % 3600) / 60
    }
}

/// What chrono's `NaiveDate::parse_from_str(s, "%Y-%m-%d")` yields, as
/// (year, month, day).
pub uninterp spec fn chrono_parse_ymd(s: Seq<char>) -> Option<(i32, u32, u32)>;

/// What chrono's `NaiveTime::parse_from_str(s, "%H:%M")` yields, as
/// (hour, minute).
pub uninterp spec fn chrono_parse_hm(s: Seq<char>) -> Option<(u32, u32)>;

/// What chrono's `NaiveDateTime::parse_from_str(s, "%Y-%m-%d %H:%M:%S")`
/// yields, as (year, month, day, second of day, nanoseconds).
pub uninterp spec fn chrono_parse_ymd_hms(s: Seq<char>) -> Option<(i32, u32, u32, u32, u32)>;

/// What parsing `s` as chrono's `DateTime<Utc>` yields, as (year, month,
/// day, second of day, nanoseconds) in UTC.
pub uninterp spec fn chrono_parse_utc(s: Seq<char>) -> Option<(i32, u32, u32, u32, u32)>;

/// What chrono's `DateTime::parse_from_rfc3339` yields for `s`, converted to
/// UTC, as (year, month, day, second of day, nanoseconds).
pub uninterp spec fn chrono_parse_rfc3339(s: Seq<char>) -> Option<(i32, u32, u32, u32, u32)>;

/// What chrono's `DateTime<Utc>::to_rfc3339` prints for the UTC instant
/// given as (year, month, day, second of day, nanoseconds).
pub uninterp spec fn chrono_rfc3339(year: i32, month: u32, day: u32, secs: u32, frac: u32) -> Seq<
    char,
>;

pub open spec fn date_of(t: (i32, u32, u32)) -> Date {
    Date { year: t.0, month: t.1, day: t.2 }
}

pub open spec fn datetime_of(t: (i32, u32, u32, u32, u32)) -> DateTime {
    DateTime { date: Date { year: t.0, month: t.1, day: t.2 }, secs: t.3, frac: t.4 }
}

pub open spec fn opt_date(o: Option<(i32, u32, u32)>) -> Option<Date> {
    match o {
        Some(t) => Some(date_of(t)),
        None => None,
    }
}

pub open spec fn opt_datetime(o: Option<(i32, u32, u32, u32, u32)>) -> Option<DateTime> {
    match o {
        Some(t) => Some(datetime_of(t)),
        None => None,
    }
}

/// Minutes after midnight of a parsed (hour, minute).
pub open spec fn opt_minutes(o: Option<(u32, u32)>) -> Option<u32> {
    match o {
        Some(t) => Some((t.0 * 60 + t.1) as u32),
        None => None,
    }
}

/// chrono's `NaiveDate::parse_from_str(s, "%Y-%m-%d")`. The accepted texts
/// are left to the name `chrono_parse_ymd`; what is stated is that a parsed
/// date is a valid one.
#[verifier::external_body]
pub(crate) fn parse_ymd(s: &str) -> (r: Option<Date>)
    ensures
        r == opt_date(chrono_parse_ymd(s@)),
        r matches Some(d) ==> d.valid(),
{
    chrono::NaiveDate::parse_from_str(s, "%Y-%m-%d").ok().map(
        |d| Date { year: d.year(), month: d.month(), day: d.day() },
    )
}

/// chrono's `NaiveTime::parse_from_str(s, "%H:%M")`, as (hour, minute).
/// The accepted texts are left to the name `chrono_parse_hm`; a parsed time
/// has hour < 24 and minute < 60.
#[verifier::external_body]
pub(crate) fn parse_hm(s: &str) -> (r: Option<(u32, u32)>)
    ensures
        r == chrono_parse_hm(s@),
        r matches Some(t) ==> t.0 < 24 && t.1 < 60,
{
    chrono::NaiveTime::parse_from_str(s, "%H:%M").ok().map(|t| (t.hour(), t.minute()))
}

/// The message chrono's `ParseError` prints when
/// `NaiveDateTime::parse_from_str(s, "%Y-%m-%d %H:%M:%S")` fails.
pub uninterp spec fn chrono_ymd_hms_error(s: Seq<char>) -> Seq<char>;

/// chrono's `NaiveDateTime::parse_from_str(s, "%Y-%m-%d %H:%M:%S")`. The
/// accepted texts are left to the name `chrono_parse_ymd_hms` and the
/// failure message to `chrono_ymd_hms_error`; a parsed instant is valid.
#[verifier::external_body]
pub(crate) fn parse_ymd_hms(s: &str) -> (r: Result<DateTime, String>)
    ensures
        match r {
            Ok(d) => chrono_parse_ymd_hms(s@) == Some(
                (d.date.year, d.date.month, d.date.day, d.secs, d.frac),
            ) && d.valid(),
            Err(e) => chrono_parse_ymd_hms(s@) is None && e@ == chrono_ymd_hms_error(s@),
        },
{
    match chrono::NaiveDateTime::parse_from_str(s, "%Y-%m-%d %H:%M:%S") {
        Ok(d) => Ok(DateTime {
            date: Date { year: d.year(), month: d.month(), day: d.day() },
            secs: d.num_seconds_from_midnight(),
            frac: d.nanosecond(),
        }),
        Err(e) => Err(e.to_string()),
    }
}

/// `s.parse::<chrono::DateTime<chrono::Utc>>()`. The accepted texts are left
/// to the name `chrono_parse_utc`; a parsed instant is valid.
#[verifier::external_body]
pub(crate) fn parse_utc(s: &str) -> (r: Option<DateTime>)
    ensures
        r == opt_datetime(chrono_parse_utc(s@)),
        r matches Some(d) ==> d.valid(),
{
    s.parse::<chrono::DateTime<chrono::Utc>>().ok().map(
        |d| DateTime {
            date: Date { year: d.year(), month: d.month(), day: d.day() },
            secs: d.num_seconds_from_midnight(),
            frac: d.nanosecond(),
        },
    )
}

/// chrono's `DateTime::parse_from_rfc3339`, with the instant converted to
/// UTC. The accepted texts are left to the name `chrono_parse_rfc3339`; a
/// parsed instant is valid.
#[verifier::external_body]
pub(crate) fn parse_rfc3339(s: &str) -> (r: Option<DateTime>)
    ensures
        r == opt_datetime(chrono_parse_rfc3339(s@)),
        r matches Some(d) ==> d.valid(),
{
    chrono::DateTime::parse_from_rfc3339(s).ok().map(|d| d.with_timezone(&chrono::Utc)).map(
        |d| DateTime {
            date: Date { year: d.year(), month: d.month(), day: d.day() },
            secs: d.num_seconds_from_midnight(),
            frac: d.nanosecond(),
        },
    )
}

/// chrono's `DateTime<Utc>::to_rfc3339` for the UTC instant `t`; the text is
/// left to the name `chrono_rfc3339`.
#[verifier::external_body]
pub(crate) fn rfc3339(t: &DateTime) -> (r: String)
    requires
        t.valid(),
    ensures
        r@ == chrono_rfc3339(t.date.year, t.date.month, t.date.day, t.secs, t.frac),
{
    let d = chrono::NaiveDate::from_ymd_opt(t.date.year, t.date.month, t.date.day).unwrap();
    let tm = chrono::NaiveTime::from_num_seconds_from_midnight_opt(t.secs, t.frac).unwrap();
    chrono::DateTime::<chrono::Utc>::from_naive_utc_and_offset(
        chrono::NaiveDateTime::new(d, tm),
        chrono::Utc,
    ).to_rfc3339()
}

/// chrono's `(a - b).num_days()` on two dates: the difference of their day
/// numbers.
#[verifier::external_body]
pub(crate) fn days_between(a: &Date, b: &Date) -> (r: i64)
    requires
        a.valid(),
        b.valid(),
    ensures
        r == a.day_number() - b.day_number(),
{
    let x = chrono::NaiveDate::from_ymd_opt(a.year, a.month, a.day).unwrap();
    let y = chrono::NaiveDate::from_ymd_opt(b.year, b.month, b.day).unwrap();
    (x - y).num_days()
}

/// chrono's `d.weekday().num_days_from_monday()`: 0 for Monday to 6 for
/// Sunday.
#[verifier::external_body]
pub(crate) fn weekday_from_monday(d: &Date) -> (r: u32)
    requires
        d.valid(),
    ensures
        r == d.weekday(),
{
    chrono::NaiveDate::from_ymd_opt(d.year, d.month, d.day).unwrap().weekday().num_days_from_monday()
}

/// The last date chrono represents.
pub open spec fn last_date() -> Date {
    Date { year: MAX_YEAR, month: 12, day: 31 }
}

/// chrono's `d + Duration::days(n)`: the valid date whose day number is `n`
/// more than that of `d`. chrono panics past its last date, which the
/// precondition leaves out.
#[verifier::external_body]
pub(crate) fn add_days(d: &Date, n: i64) -> (r: Date)
    requires
        d.valid(),
        0 <= n,
        d.day_number() + n <= last_date().day_number(),
    ensures
        r.valid(),
        r.day_number() == d.day_number() + n,
{
    let x = chrono::NaiveDate::from_ymd_opt(d.year, d.month, d.day).unwrap()
        + chrono::Duration::days(n);
    Date { year: x.year(), month: x.month(), day: x.day() }
}

/// chrono's `Utc::now().date_naive()`: today's date in UTC. It depends on
/// the clock, so only its validity is stated.
#[verifier::external_body]
pub(crate) fn today_utc() -> (r: Date)
    ensures
        r.valid(),
{
    let d = chrono::Utc::now().date_naive();
    Date { year: d.year(), month: d.month(), day: d.day() }
}

/// Whole years from `dob` to `on`: the difference of the years, one less
/// when the birthday has not yet come round in the year of `on`.
pub open spec fn age_between(dob: Date, on: Date) -> int {
    let years = on.year - dob.year;
    if on.month < dob.month || (on.month == dob.month && on.day < dob.day) {
        years - 1
    } else {
        years
    }
}

/// The age in whole years on the date `on` of someone born on `dob`.
pub fn age_on(dob: &Date, on: &Date) -> (r: i64)
    ensures
        r == age_between(*dob, *on),
{
    let mut years: i64 = on.year as i64 - dob.year as i64;
    if on.month < dob.month || (on.month == dob.month && on.day < dob.day) {
        years = years - 1;
    }
    years
}


// ---------------------------------------------------------------------------
// The calendar order
// ---------------------------------------------------------------------------

/// Days before 0001-01-01's year count for the first day of year `y`.
spec fn days_before_year(y: int) -> int {
    let t = y - 1;
    365 * t + t / 4 - t / 100 + t / 400
}

proof fn lemma_year_length(y: int)
    ensures
        days_before_year(y + 1) - days_before_year(y) == if is_leap_year(y) { 366int } else { 365int },
{
    let t = y - 1;
    assert((t + 1) / 4 - t / 4 == if y % 4 == 0 { 1int } else { 0int });
    assert((t + 1) / 100 - t / 100 == if y % 100 == 0 { 1int } else { 0int });
    assert((t + 1) / 400 - t / 400 == if y % 400 == 0 { 1int } else { 0int });
}

proof fn lemma_years_increase(y1: int, y2: int)
    requires
        y1 < y2,
    ensures
        days_before_year(y1 + 1) <= days_before_year(y2),
    decreases y2 - y1,
{
    if y2 > y1 + 1 {
        lemma_years_increase(y1, y2 - 1);
        lemma_year_length(y2 - 1);
    }
}

proof fn lemma_months_increase(y: int, m1: int, m2: int)
    requires
        1 <= m1 <= m2,
    ensures
        days_before_month(y, m1) + days_in_month(y, m1) <= days_before_month(y, m2) || m1 == m2,
        days_before_month(y, m1) <= days_before_month(y, m2),
    decreases m2 - m1,
{
    if m2 > m1 {
        lemma_months_increase(y, m1, m2 - 1);
    }
}

proof fn lemma_days_in_year(y: int)
    ensures
        days_before_month(y, 12) + days_in_month(y, 12) == if is_leap_year(y) { 366int } else { 365int },
{
    reveal_with_fuel(days_before_month, 13);
}

/// The last day of a valid date's year is no earlier than the date.
proof fn lemma_within_year(d: Date)
    requires
        d.valid(),
    ensures
        d.day_number() <= days_before_year(d.year as int + 1),
{
    let y = d.year as int;
    lemma_months_increase(y, d.month as int, 12);
    lemma_days_in_year(y);
    lemma_year_length(y);
}

/// Dates in calendar order have increasing day numbers.
proof fn lemma_date_order_days(a: Date, b: Date)
    requires
        a.valid(),
        b.valid(),
        a.spec_le(b),
        a != b,
    ensures
        a.day_number() < b.day_number(),
{
    if a.year < b.year {
        lemma_within_year(a);
        lemma_years_increase(a.year as int, b.year as int);
        lemma_months_increase(b.year as int, 1, b.month as int);
        assert(days_before_month(b.year as int, 1) == 0);
    } else if a.month < b.month {
        lemma_months_increase(a.year as int, a.month as int, b.month as int);
    }
}

/// The order of dates is the order of their day numbers: a date comes no
/// later than another exactly when its day number is no greater, and dates
/// with the same day number are the same date.
pub proof fn law_date_order_is_chronological(a: Date, b: Date)
    requires
        a.valid(),
        b.valid(),
    ensures
        a.spec_le(b) <==> a.day_number() <= b.day_number(),
        a.day_number() == b.day_number() ==> a == b,
{
    if a != b {
        if a.spec_le(b) {
            lemma_date_order_days(a, b);
        } else {
            lemma_date_order_days(b, a);
        }
    }
}

/// Instants are ordered in time: an instant comes no later than another
/// only if its day is no later, one on an earlier day always comes first,
/// and on the same day the earlier second (then the earlier sub-second part)
/// comes first. Any two instants are ordered one way or the other.
pub proof fn law_datetime_order_is_chronological(a: DateTime, b: DateTime)
    requires
        a.valid(),
        b.valid(),
    ensures
        a.spec_le(b) ==> a.date.day_number() <= b.date.day_number(),
        a.date.day_number() < b.date.day_number() ==> a.spec_le(b) && !b.spec_le(a),
        a.date == b.date ==> (a.spec_le(b) <==> (a.secs < b.secs || (a.secs == b.secs && a.frac <= b.frac))),
        a.spec_le(b) || b.spec_le(a),
{
    law_date_order_is_chronological(a.date, b.date);
    law_date_order_is_chronological(b.date, a.date);
}

/// Weekdays run in a cycle of seven with the days: two dates a whole number
/// of weeks apart share their weekday, the next day has the next weekday,
/// and 2026-03-30 is a Monday (weekday 0).
pub proof fn law_weekdays_cycle(a: Date, b: Date)
    ensures
        0 <= a.weekday() < 7,
        (b.day_number() - a.day_number()) % 7 == 0 ==> a.weekday() == b.weekday(),
        b.day_number() == a.day_number() + 1 ==> b.weekday() == (a.weekday() + 1) % 7,
        (Date { year: 2026, month: 3, day: 30 }).weekday() == 0,
{
    reveal_with_fuel(days_before_month, 3);
    let x = a.day_number() - 1;
    let y = b.day_number() - 1;
    assert((y - x) % 7 == 0 ==> x % 7 == y % 7) by (nonlinear_arith);
    assert(y == x + 1 ==> y % 7 == (x % 7 + 1) % 7) by (nonlinear_arith);
}

} // verus!
