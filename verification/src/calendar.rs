//! Calendar dates and UTC timestamps: the values, their order and their texts.
//!
//! A [`Date`] is a day of the proleptic Gregorian calendar, a [`Timestamp`] a
//! UTC instant. Date arithmetic and the reading of date texts are those of the
//! `chrono` crate.

use chrono::Datelike;
use vstd::prelude::*;

use crate::text::{is_digit, padded, padded_denotes};

verus! {

/// The first and the last year of the calendar.
pub const MIN_YEAR: i32 = -262143;

pub const MAX_YEAR: i32 = 262142;

/// Number of the day 1970-01-01, counted from 0001-01-01 as day one.
pub const UNIX_EPOCH_DAY: i64 = 719163;

pub open spec fn is_leap(year: int) -> bool {
    year % 4 == 0 && (year % 100 != 0 || year % 400 == 0)
}

/// Days of the given month of the given year.
pub open spec fn month_length(year: int, month: int) -> int {
    if month == 2 {
        if is_leap(year) {
            29
        } else {
            28
        }
    } else if month == 4 || month == 6 || month == 9 || month == 11 {
        30
    } else {
        31
    }
}

/// Whether the calendar has the given day.
pub open spec fn is_date(year: int, month: int, day: int) -> bool {
    &&& MIN_YEAR <= year <= MAX_YEAR
    &&& 1 <= month <= 12
    &&& 1 <= day <= month_length(year, month)
}

/// Days of the year before the first of the given month.
pub open spec fn days_before_month(year: int, month: int) -> int
    decreases month,
{
    if month <= 1 {
        0
    } else {
        days_before_month(year, month - 1) + month_length(year, month - 1)
    }
}

/// Days from 0001-01-01 to the first of January of the given year.
pub open spec fn days_before_year(year: int) -> int {
    365 * (year - 1) + (year - 1) / 4 - (year - 1) / 100 + (year - 1) / 400
}

/// The number of a day, counted from 0001-01-01 as day one.
pub open spec fn day_number(year: int, month: int, day: int) -> int {
    days_before_year(year) + days_before_month(year, month) + day
}

/// Number of the calendar's first day.
pub open spec fn first_day() -> int {
    day_number(MIN_YEAR as int, 1, 1)
}

/// Number of the calendar's last day.
pub open spec fn last_day() -> int {
    day_number(MAX_YEAR as int, 12, 31)
}

/// A day of the calendar.
#[derive(Debug, Clone, Copy, PartialEq, Eq, Hash, Structural)]
pub struct Date {
    year: i32,
    month: u32,
    day: u32,
}

impl Date {
    /// Every date handed out is a day of the calendar.
    #[verifier::type_invariant]
    pub open spec fn in_calendar(self) -> bool {
        is_date(self.y(), self.m(), self.d())
    }

    pub closed spec fn y(self) -> int {
        self.year as int
    }

    pub closed spec fn m(self) -> int {
        self.month as int
    }

    pub closed spec fn d(self) -> int {
        self.day as int
    }

    /// The number of the day; dates are ordered by it.
    pub open spec fn number(self) -> int {
        day_number(self.y(), self.m(), self.d())
    }

    /// The date as `YYYY-MM-DD`; a year of other than four digits has a sign.
    pub open spec fn text(self) -> Seq<char> {
        year_text(self.y()) + "-"@ + padded(self.m() as nat, 2) + "-"@ + padded(self.d() as nat, 2)
    }

    /// The given day, where the calendar has it.
    pub fn from_ymd_opt(year: i32, month: u32, day: u32) -> (r: Option<Date>)
        ensures
            r is Some <==> is_date(year as int, month as int, day as int),
            r matches Some(d) ==> d.y() == year && d.m() == month && d.d() == day,
    {
        if year < MIN_YEAR || year > MAX_YEAR || month < 1 || month > 12 || day < 1 {
            return None;
        }
        let leap = year % 4 == 0 && (year % 100 != 0 || year % 400 == 0);
        let length: u32 = if month == 2 {
            if leap {
                29
            } else {
                28
            }
        } else if month == 4 || month == 6 || month == 9 || month == 11 {
            30
        } else {
            31
        };
        if day <= length {
            Some(Date { year, month, day })
        } else {
            None
        }
    }

    pub fn year(&self) -> (r: i32)
        ensures
            r == self.y(),
    {
        self.year
    }

    pub fn month(&self) -> (r: u32)
        ensures
            r == self.m(),
    {
        self.month
    }

    pub fn day(&self) -> (r: u32)
        ensures
            r == self.d(),
    {
        self.day
    }

    /// Whether this day comes before `other`.
    pub fn is_before(&self, other: &Date) -> (r: bool)
        ensures
            r == (self.number() < other.number()),
    {
        proof {
            use_type_invariant(self);
            use_type_invariant(other);
            number_follows_fields(*self, *other);
        }
        if self.year != other.year {
            self.year < other.year
        } else if self.month != other.month {
            self.month < other.month
        } else {
            self.day < other.day
        }
    }

    /// The day `days` days later, or earlier where `days` is negative, unless
    /// the calendar ends before.
    pub fn plus_days(&self, days: i32) -> (r: Option<Date>)
        ensures
            r is Some <==> first_day() <= self.number() + days <= last_day(),
            r matches Some(d) ==> d.in_calendar() && d.number() == self.number() + days,
    {
        chrono_add_days(*self, days)
    }

    /// Days from `earlier` to this day; negative where `earlier` is later.
    pub fn days_since(&self, earlier: &Date) -> (r: i64)
        ensures
            r == self.number() - earlier.number(),
    {
        chrono_days_between(*self, *earlier)
    }

    /// The same day of the month `months` months later, or that month's last
    /// day where it is shorter, unless the calendar ends before.
    pub fn plus_months(&self, months: u32) -> (r: Option<Date>)
        ensures
            r is Some <==> months_later(*self, months as int).0 <= MAX_YEAR,
            r matches Some(d) ==> d.in_calendar() && (d.y(), d.m(), d.d()) == months_later(
                *self,
                months as int,
            ),
    {
        chrono_add_months(*self, months)
    }

    /// The date as `YYYY-MM-DD`.
    pub fn to_text(&self) -> (r: String)
        ensures
            r@ == self.text(),
    {
        chrono_date_text(*self)
    }
}

/// A year of at least four digits, with a sign outside `0..=9999`.
pub open spec fn year_text(year: int) -> Seq<char> {
    if year < 0 {
        "-"@ + padded((-year) as nat, 4)
    } else if year > 9999 {
        "+"@ + padded(year as nat, 4)
    } else {
        padded(year as nat, 4)
    }
}

/// Year, month and day of the date `months` months after `date`, the day
/// clamped to the length of the month reached.
pub open spec fn months_later(date: Date, months: int) -> (int, int, int) {
    let total = date.y() * 12 + (date.m() - 1) + months;
    let year = total / 12;
    let month = total % 12 + 1;
    let length = month_length(year, month);
    (year, month, if date.d() <= length {
        date.d()
    } else {
        length
    })
}

/// `chrono::NaiveDate::checked_add_signed` with a duration of whole days: the
/// date that many days on, `None` where it is outside the calendar.
#[verifier::external_body]
fn chrono_add_days(date: Date, days: i32) -> (r: Option<Date>)
    ensures
        r is Some <==> first_day() <= date.number() + days <= last_day(),
        r matches Some(d) ==> d.in_calendar() && d.number() == date.number() + days,
{
    let from = chrono::NaiveDate::from_ymd_opt(date.year, date.month, date.day)?;
    let to = from.checked_add_signed(chrono::TimeDelta::days(i64::from(days)))?;
    Some(Date { year: to.year(), month: to.month(), day: to.day() })
}

/// `chrono::NaiveDate::signed_duration_since` and `TimeDelta::num_days`: the
/// days from the second date to the first.
#[verifier::external_body]
fn chrono_days_between(date: Date, earlier: Date) -> (r: i64)
    ensures
        r == date.number() - earlier.number(),
{
    let to = chrono::NaiveDate::from_ymd_opt(date.year, date.month, date.day).unwrap();
    let from = chrono::NaiveDate::from_ymd_opt(earlier.year, earlier.month, earlier.day).unwrap();
    to.signed_duration_since(from).num_days()
}

/// `chrono::NaiveDate::checked_add_months`: the date that many months on, the
/// day clamped to the end of the month, `None` past the calendar's end.
#[verifier::external_body]
fn chrono_add_months(date: Date, months: u32) -> (r: Option<Date>)
    ensures
        r is Some <==> months_later(date, months as int).0 <= MAX_YEAR,
        r matches Some(d) ==> d.in_calendar() && (d.y(), d.m(), d.d()) == months_later(
            date,
            months as int,
        ),
{
    let from = chrono::NaiveDate::from_ymd_opt(date.year, date.month, date.day)?;
    let to = from.checked_add_months(chrono::Months::new(months))?;
    Some(Date { year: to.year(), month: to.month(), day: to.day() })
}

/// `chrono::NaiveDate` shown through its `Display`: year, month and day joined
/// by hyphens, zero-padded, the year signed outside `0..=9999`.
#[verifier::external_body]
fn chrono_date_text(date: Date) -> (r: String)
    ensures
        r@ == date.text(),
{
    chrono::NaiveDate::from_ymd_opt(date.year, date.month, date.day).unwrap().to_string()
}

/// Each year is as long as its months.
proof fn year_length(year: int)
    ensures
        days_before_year(year + 1) == days_before_year(year) + days_before_month(year, 13),
{
    let leap: int = if is_leap(year) {
        1
    } else {
        0
    };
    assert(days_before_month(year, 1) == 0);
    assert(days_before_month(year, 2) == 31);
    assert(days_before_month(year, 3) == 59 + leap);
    assert(days_before_month(year, 4) == 90 + leap);
    assert(days_before_month(year, 5) == 120 + leap);
    assert(days_before_month(year, 6) == 151 + leap);
    assert(days_before_month(year, 7) == 181 + leap);
    assert(days_before_month(year, 8) == 212 + leap);
    assert(days_before_month(year, 9) == 243 + leap);
    assert(days_before_month(year, 10) == 273 + leap);
    assert(days_before_month(year, 11) == 304 + leap);
    assert(days_before_month(year, 12) == 334 + leap);
    assert(days_before_month(year, 13) == 365 + leap);
    assert(year / 4 - (year - 1) / 4 == (if year % 4 == 0 {
        1int
    } else {
        0
    }));
    assert(year / 100 - (year - 1) / 100 == (if year % 100 == 0 {
        1int
    } else {
        0
    }));
    assert(year / 400 - (year - 1) / 400 == (if year % 400 == 0 {
        1int
    } else {
        0
    }));
}

proof fn months_accumulate(year: int, m: int, n: int)
    requires
        1 <= m <= n,
    ensures
        days_before_month(year, m) <= days_before_month(year, n),
    decreases n,
{
    if m < n {
        months_accumulate(year, m, n - 1);
    }
}

proof fn years_accumulate(y: int, z: int)
    requires
        y <= z,
    ensures
        days_before_year(y) <= days_before_year(z),
    decreases z - y,
{
    if y < z {
        years_accumulate(y, z - 1);
        year_length(z - 1);
        months_accumulate(z - 1, 1, 13);
    }
}

/// Order of two days by year, then by month, then by day.
pub open spec fn fields_before(a: Date, b: Date) -> bool {
    a.y() < b.y() || (a.y() == b.y() && (a.m() < b.m() || (a.m() == b.m() && a.d() < b.d())))
}

proof fn fields_before_number(a: Date, b: Date)
    requires
        a.in_calendar(),
        b.in_calendar(),
        fields_before(a, b),
    ensures
        a.number() < b.number(),
{
    if a.y() < b.y() {
        months_accumulate(a.y(), a.m() + 1, 13);
        year_length(a.y());
        years_accumulate(a.y() + 1, b.y());
        months_accumulate(b.y(), 1, b.m());
    } else if a.m() < b.m() {
        months_accumulate(a.y(), a.m() + 1, b.m());
    }
}

/// A day comes before another exactly when its year, month and day do.
pub proof fn number_follows_fields(a: Date, b: Date)
    requires
        a.in_calendar(),
        b.in_calendar(),
    ensures
        fields_before(a, b) <==> a.number() < b.number(),
{
    if fields_before(a, b) {
        fields_before_number(a, b);
    } else if fields_before(b, a) {
        fields_before_number(b, a);
    }
}

/// A day of a later year or month has a higher number.
pub proof fn later_fields(a: Date, y: int, m: int, d: int)
    requires
        a.in_calendar(),
        is_date(y, m, d),
        a.y() < y || (a.y() == y && a.m() < m),
    ensures
        a.number() < day_number(y, m, d) <= last_day(),
{
    let b = Date { year: y as i32, month: m as u32, day: d as u32 };
    number_follows_fields(a, b);
    number_in_range(b);
}

/// A day's number determines the day.
pub proof fn number_is_injective(a: Date, b: Date)
    requires
        a.in_calendar(),
        b.in_calendar(),
        a.number() == b.number(),
    ensures
        a == b,
{
    number_follows_fields(a, b);
    number_follows_fields(b, a);
}

/// Every date lies between the calendar's first and last day.
pub proof fn number_in_range(a: Date)
    requires
        a.in_calendar(),
    ensures
        first_day() <= a.number() <= last_day(),
{
    years_accumulate(MIN_YEAR as int, a.y());
    months_accumulate(a.y(), 1, a.m());
    months_accumulate(a.y(), a.m() + 1, 13);
    year_length(a.y());
    years_accumulate(a.y() + 1, MAX_YEAR + 1);
    year_length(MAX_YEAR as int);
    reveal_with_fuel(days_before_month, 13);
}

/// A UTC instant: seconds since 1970-01-01T00:00:00, and the nanoseconds within
/// the second. A leap second has the nanoseconds of two seconds.
#[derive(Debug, Clone, Copy, PartialEq, Eq, Hash, Structural)]
pub struct Timestamp {
    secs: i64,
    nanos: u32,
}

impl Timestamp {
    /// Every instant handed out lies on a day of the calendar.
    #[verifier::type_invariant]
    pub open spec fn in_calendar(self) -> bool {
        is_instant(self.unix(), self.subsec())
    }

    /// Whole seconds since 1970-01-01T00:00:00.
    pub closed spec fn unix(self) -> int {
        self.secs as int
    }

    /// Nanoseconds within the second.
    pub closed spec fn subsec(self) -> int {
        self.nanos as int
    }

    /// Number of the day the instant lies on.
    pub open spec fn day(self) -> int {
        UNIX_EPOCH_DAY + self.unix() / 86400
    }

    /// Order of instants.
    pub open spec fn earlier_than(self, other: Timestamp) -> bool {
        self.unix() < other.unix() || (self.unix() == other.unix() && self.subsec()
            < other.subsec())
    }

    pub fn is_before(&self, other: &Timestamp) -> (r: bool)
        ensures
            r == self.earlier_than(*other),
    {
        self.secs < other.secs || (self.secs == other.secs && self.nanos < other.nanos)
    }

    /// The instant so many seconds and nanoseconds after 1970-01-01T00:00:00.
    pub fn from_unix(secs: i64, nanos: u32) -> (r: Option<Timestamp>)
        ensures
            r is Some <==> is_instant(secs as int, nanos as int),
            r matches Some(t) ==> t.unix() == secs && t.subsec() == nanos,
    {
        chrono_from_timestamp(secs, nanos)
    }

    /// Whole seconds since 1970-01-01T00:00:00.
    pub fn unix_secs(&self) -> (r: i64)
        ensures
            r == self.unix(),
    {
        self.secs
    }

    /// Nanoseconds within the second.
    pub fn subsec_nanos(&self) -> (r: u32)
        ensures
            r == self.subsec(),
    {
        self.nanos
    }

    /// The day the instant lies on.
    pub fn date(&self) -> (r: Date)
        ensures
            r == self.on_date(),
            r.number() == self.day(),
    {
        let r = chrono_date_of(*self);
        proof {
            number_is_injective(r, date_numbered(self.day()));
        }
        r
    }

    /// The date the instant lies on.
    pub open spec fn on_date(self) -> Date {
        date_numbered(self.day())
    }

    /// Hour, minute and second of the day; a leap second is number sixty.
    pub open spec fn clock(self) -> (int, int, int) {
        let s = self.unix() % 86400;
        (s / 3600, s / 60 % 60, s % 60 + self.subsec() / 1_000_000_000)
    }

    /// Date and time to the second, as `YYYY-MM-DDTHH:MM:SS`.
    pub open spec fn second_text(self) -> Seq<char> {
        self.on_date().text() + "T"@ + padded(self.clock().0 as nat, 2) + ":"@ + padded(
            self.clock().1 as nat,
            2,
        ) + ":"@ + padded(self.clock().2 as nat, 2)
    }

    /// Date and time to the second, as `YYYYMMDDTHHMMSSZ`.
    pub open spec fn compact_text(self) -> Seq<char> {
        let d = self.on_date();
        year_text(d.y()) + padded(d.m() as nat, 2) + padded(d.d() as nat, 2) + "T"@ + padded(
            self.clock().0 as nat,
            2,
        ) + padded(self.clock().1 as nat, 2) + padded(self.clock().2 as nat, 2) + "Z"@
    }

    /// The fraction of the second, in the fewest of none, three, six or nine
    /// digits that show it whole.
    pub open spec fn fraction_text(self) -> Seq<char> {
        let n = self.subsec() % 1_000_000_000;
        if n == 0 {
            ""@
        } else if n % 1_000_000 == 0 {
            "."@ + padded((n / 1_000_000) as nat, 3)
        } else if n % 1_000 == 0 {
            "."@ + padded((n / 1_000) as nat, 6)
        } else {
            "."@ + padded(n as nat, 9)
        }
    }

    /// The instant in RFC 3339 form.
    pub open spec fn rfc3339_text(self) -> Seq<char> {
        self.second_text() + self.fraction_text() + "+00:00"@
    }

    /// The instant as documents show it, e.g. `2026-06-17T03:00:01Z`.
    pub open spec fn zulu_text(self) -> Seq<char> {
        self.second_text() + self.fraction_text() + "Z"@
    }

    /// The instant as messages show it, e.g. `2026-06-17 03:00:01 UTC`.
    pub open spec fn display_text(self) -> Seq<char> {
        self.on_date().text() + " "@ + padded(self.clock().0 as nat, 2) + ":"@ + padded(
            self.clock().1 as nat,
            2,
        ) + ":"@ + padded(self.clock().2 as nat, 2) + self.fraction_text() + " UTC"@
    }

    pub fn to_display(&self) -> (r: String)
        ensures
            r@ == self.display_text(),
    {
        chrono_display(*self)
    }

    /// Milliseconds since 1970-01-01T00:00:00.
    pub fn unix_millis(&self) -> (r: i64)
        ensures
            r == self.unix() * 1000 + self.subsec() / 1_000_000,
    {
        proof {
            use_type_invariant(self);
            seconds_in_range(*self);
        }
        self.secs * 1000 + (self.nanos / 1_000_000) as i64
    }

    pub fn to_second_text(&self) -> (r: String)
        ensures
            r@ == self.second_text(),
    {
        chrono_format(*self, "%Y-%m-%dT%H:%M:%S")
    }

    pub fn to_compact_text(&self) -> (r: String)
        ensures
            r@ == self.compact_text(),
    {
        chrono_format(*self, "%Y%m%dT%H%M%SZ")
    }

    pub fn to_rfc3339(&self) -> (r: String)
        ensures
            r@ == self.rfc3339_text(),
    {
        chrono_rfc3339(*self)
    }

    /// The instant as documents show it.
    pub fn to_zulu_text(&self) -> (r: String)
        ensures
            r@ == self.zulu_text(),
    {
        chrono_zulu(*self)
    }

    /// The instant so many milliseconds after 1970-01-01T00:00:00.
    pub fn from_unix_millis(millis: i64) -> (r: Option<Timestamp>)
        ensures
            r is Some <==> is_instant(millis as int / 1000, 0),
            r matches Some(t) ==> t.unix() == millis as int / 1000 && t.subsec() == (millis as int
                % 1000) * 1_000_000,
    {
        if millis >= 0 {
            Timestamp::from_unix(millis / 1000, (millis % 1000) as u32 * 1_000_000)
        } else {
            let back: i64 = -1 - millis;
            Timestamp::from_unix(-1 - back / 1000, (999 - back % 1000) as u32 * 1_000_000)
        }
    }

    /// The instant so many seconds later, or earlier where negative, unless the
    /// calendar ends before.
    pub fn plus_seconds(&self, seconds: i64) -> (r: Option<Timestamp>)
        ensures
            r is Some <==> is_instant(
                seconds_later(*self, seconds as int).0,
                seconds_later(*self, seconds as int).1,
            ),
            r matches Some(t) ==> (t.unix(), t.subsec()) == seconds_later(*self, seconds as int),
    {
        chrono_add_seconds(*self, seconds)
    }

    /// Whole seconds from `earlier` to this instant, rounded towards zero.
    pub fn seconds_since(&self, earlier: &Timestamp) -> (r: i64)
        ensures
            r == seconds_between(*self, *earlier),
    {
        chrono_seconds_between(*self, *earlier)
    }

    /// Midnight at the start of the given day.
    pub fn midnight(date: &Date) -> (r: Timestamp)
        ensures
            r.unix() == (date.number() - UNIX_EPOCH_DAY) * 86400,
            r.subsec() == 0,
    {
        chrono_midnight(*date)
    }

    /// The current instant.
    pub fn now() -> Timestamp {
        chrono_now()
    }
}

/// Whether the second lies on a day of the calendar and the nanoseconds are
/// within it. Only the last second of a minute can be a leap second.
pub open spec fn is_instant(secs: int, nanos: int) -> bool {
    &&& first_day() <= UNIX_EPOCH_DAY + secs / 86400 <= last_day()
    &&& 0 <= nanos < 2_000_000_000
    &&& nanos >= 1_000_000_000 ==> secs % 60 == 59
}

/// `chrono::DateTime::<Utc>::from_timestamp`: the instant, `None` where its day
/// is outside the calendar or the nanoseconds are not those of a second.
#[verifier::external_body]
fn chrono_from_timestamp(secs: i64, nanos: u32) -> (r: Option<Timestamp>)
    ensures
        r is Some <==> is_instant(secs as int, nanos as int),
        r matches Some(t) ==> t.unix() == secs && t.subsec() == nanos,
{
    let t = chrono::DateTime::<chrono::Utc>::from_timestamp(secs, nanos)?;
    Some(Timestamp { secs: t.timestamp(), nanos: t.timestamp_subsec_nanos() })
}

/// `chrono::DateTime::date_naive` of a UTC instant: the day it lies on.
#[verifier::external_body]
fn chrono_date_of(at: Timestamp) -> (r: Date)
    ensures
        r.in_calendar(),
        r.number() == at.day(),
{
    let t = chrono::DateTime::<chrono::Utc>::from_timestamp(at.secs, at.nanos).unwrap();
    let date = t.date_naive();
    Date { year: date.year(), month: date.month(), day: date.day() }
}

/// The date with the given number.
pub open spec fn date_numbered(n: int) -> Date {
    choose|d: Date| #[trigger] d.in_calendar() && d.number() == n
}

/// `chrono::DateTime::format` with one of two patterns, written out. Another
/// pattern might not be one, and showing it would panic.
#[verifier::external_body]
fn chrono_format(at: Timestamp, pattern: &str) -> (r: String)
    requires
        pattern@ == "%Y-%m-%dT%H:%M:%S"@ || pattern@ == "%Y%m%dT%H%M%SZ"@,
    ensures
        pattern@ == "%Y-%m-%dT%H:%M:%S"@ ==> r@ == at.second_text(),
        pattern@ == "%Y%m%dT%H%M%SZ"@ ==> r@ == at.compact_text(),
{
    let t = chrono::DateTime::<chrono::Utc>::from_timestamp(at.secs, at.nanos).unwrap();
    t.format(pattern).to_string()
}

/// `chrono::DateTime::to_rfc3339` of a UTC instant.
#[verifier::external_body]
fn chrono_rfc3339(at: Timestamp) -> (r: String)
    ensures
        r@ == at.rfc3339_text(),
{
    chrono::DateTime::<chrono::Utc>::from_timestamp(at.secs, at.nanos).unwrap().to_rfc3339()
}

/// `chrono::DateTime::to_rfc3339_opts` of a UTC instant, with as many digits of the
/// second as it needs and `Z` for the offset.
#[verifier::external_body]
fn chrono_zulu(at: Timestamp) -> (r: String)
    ensures
        r@ == at.zulu_text(),
{
    let t = chrono::DateTime::<chrono::Utc>::from_timestamp(at.secs, at.nanos).unwrap();
    t.to_rfc3339_opts(chrono::SecondsFormat::AutoSi, true)
}

/// `chrono::DateTime<Utc>` shown through its `Display`.
#[verifier::external_body]
fn chrono_display(at: Timestamp) -> (r: String)
    ensures
        r@ == at.display_text(),
{
    chrono::DateTime::<chrono::Utc>::from_timestamp(at.secs, at.nanos).unwrap().to_string()
}

/// `chrono::NaiveDate::and_hms_opt` at 00:00:00, read as UTC.
#[verifier::external_body]
fn chrono_midnight(date: Date) -> (r: Timestamp)
    ensures
        r.unix() == (date.number() - UNIX_EPOCH_DAY) * 86400,
        r.subsec() == 0,
{
    let day = chrono::NaiveDate::from_ymd_opt(date.year, date.month, date.day).unwrap();
    let t = day.and_hms_opt(0, 0, 0).unwrap().and_utc();
    Timestamp { secs: t.timestamp(), nanos: t.timestamp_subsec_nanos() }
}

/// `chrono::Utc::now`: the system clock. Nothing is claimed of the reading but
/// that it is an instant of the calendar.
#[verifier::external_body]
fn chrono_now() -> Timestamp {
    let t = chrono::Utc::now();
    Timestamp { secs: t.timestamp(), nanos: t.timestamp_subsec_nanos() }
}

/// Seconds and nanoseconds of an instant read from a text.
pub open spec fn parts(t: Option<Timestamp>) -> Option<(int, int)> {
    match t {
        Some(t) => Some((t.unix(), t.subsec())),
        None => None,
    }
}

/// The number of a day read from a text.
pub open spec fn numbered(d: Option<Date>) -> Option<int> {
    match d {
        Some(d) => Some(d.number()),
        None => None,
    }
}

/// What `chrono::DateTime::parse_from_rfc3339` reads from a text: seconds and
/// nanoseconds of the instant, `None` where the text is no RFC 3339 instant.
pub uninterp spec fn rfc3339_instant(text: Seq<char>) -> Option<(int, int)>;

/// What `chrono::NaiveDate::parse_from_str` reads from a text with the pattern
/// `%Y-%m-%d`: the number of the day, `None` where the text does not match.
pub uninterp spec fn ymd_day(text: Seq<char>) -> Option<int>;

/// What `chrono::NaiveDateTime::parse_from_str` reads from a text with the
/// pattern `%Y-%m-%dT%H:%M:%S`: the number of the day, `None` where the text
/// does not match.
pub uninterp spec fn local_second_day(text: Seq<char>) -> Option<int>;

/// `chrono::DateTime::parse_from_rfc3339`, the instant taken to UTC.
#[verifier::external_body]
pub(crate) fn parse_rfc3339(text: &str) -> (r: Option<Timestamp>)
    ensures
        parts(r) == rfc3339_instant(text@),
{
    let t = chrono::DateTime::parse_from_rfc3339(text).ok()?.with_timezone(&chrono::Utc);
    Some(Timestamp { secs: t.timestamp(), nanos: t.timestamp_subsec_nanos() })
}

/// `chrono::NaiveDate::parse_from_str` with the pattern `%Y-%m-%d`.
#[verifier::external_body]
pub(crate) fn parse_ymd(text: &str) -> (r: Option<Date>)
    ensures
        numbered(r) == ymd_day(text@),
{
    let d = chrono::NaiveDate::parse_from_str(text, "%Y-%m-%d").ok()?;
    Some(Date { year: d.year(), month: d.month(), day: d.day() })
}

/// `chrono::NaiveDateTime::parse_from_str` with the pattern `%Y-%m-%dT%H:%M:%S`.
#[verifier::external_body]
pub(crate) fn parse_local_second(text: &str) -> (r: Option<Date>)
    ensures
        numbered(r) == local_second_day(text@),
{
    let d = chrono::NaiveDateTime::parse_from_str(text, "%Y-%m-%dT%H:%M:%S").ok()?.date();
    Some(Date { year: d.year(), month: d.month(), day: d.day() })
}

/// Seconds and nanoseconds of the instant `seconds` later. What is reached from
/// a leap second is no leap second.
pub open spec fn seconds_later(at: Timestamp, seconds: int) -> (int, int) {
    if seconds == 0 || at.subsec() < 1_000_000_000 {
        (at.unix() + seconds, at.subsec())
    } else if seconds > 0 {
        (at.unix() + seconds, at.subsec() - 1_000_000_000)
    } else {
        (at.unix() + 1 + seconds, at.subsec() - 1_000_000_000)
    }
}

/// `chrono::DateTime::checked_add_signed` with a duration of whole seconds: the
/// instant that much later, `None` where it is outside the calendar.
#[verifier::external_body]
fn chrono_add_seconds(at: Timestamp, seconds: i64) -> (r: Option<Timestamp>)
    ensures
        r is Some <==> is_instant(
            seconds_later(at, seconds as int).0,
            seconds_later(at, seconds as int).1,
        ),
        r matches Some(t) ==> (t.unix(), t.subsec()) == seconds_later(at, seconds as int),
{
    let t = chrono::DateTime::<chrono::Utc>::from_timestamp(at.secs, at.nanos)?;
    let later = t.checked_add_signed(chrono::TimeDelta::try_seconds(seconds)?)?;
    Some(Timestamp { secs: later.timestamp(), nanos: later.timestamp_subsec_nanos() })
}

/// What a leap second adds to the distance of two instants, by their times of day.
pub open spec fn leap_between(later: Timestamp, earlier: Timestamp) -> int {
    if later.unix() % 86400 > earlier.unix() % 86400 && earlier.subsec() >= 1_000_000_000 {
        1
    } else if later.unix() % 86400 < earlier.unix() % 86400 && later.subsec() >= 1_000_000_000 {
        -1
    } else {
        0
    }
}

/// The time between two instants in whole seconds, rounded towards zero.
pub open spec fn seconds_between(later: Timestamp, earlier: Timestamp) -> int {
    let seconds = later.unix() - earlier.unix() + leap_between(later, earlier);
    let nanos = seconds * 1_000_000_000 + (later.subsec() - earlier.subsec());
    if nanos >= 0 {
        nanos / 1_000_000_000
    } else {
        -((-nanos) / 1_000_000_000)
    }
}

/// `chrono::DateTime::signed_duration_since` and `TimeDelta::num_seconds`: the
/// time between two instants in whole seconds, rounded towards zero. A leap second that
/// lies between them by their times of day is counted.
#[verifier::external_body]
fn chrono_seconds_between(later: Timestamp, earlier: Timestamp) -> (r: i64)
    ensures
        r == seconds_between(later, earlier),
{
    let to = chrono::DateTime::<chrono::Utc>::from_timestamp(later.secs, later.nanos).unwrap();
    let from = chrono::DateTime::<chrono::Utc>::from_timestamp(earlier.secs, earlier.nanos).unwrap();
    to.signed_duration_since(from).num_seconds()
}

/// The seconds of every instant stay far from the limits of 64 bits.
pub proof fn seconds_in_range(at: Timestamp)
    requires
        at.in_calendar(),
    ensures
        -9_000_000_000_000 < at.unix() < 9_000_000_000_000,
{
    reveal_with_fuel(days_before_month, 13);
}

/// Day numbers stay far from the limits of 32 bits.
pub proof fn numbers_in_range()
    ensures
        -100_000_000 < first_day(),
        last_day() < 100_000_000,
        first_day() < UNIX_EPOCH_DAY < last_day(),
{
    reveal_with_fuel(days_before_month, 13);
}

/// What `chrono::NaiveDate`'s `FromStr` reads from a text: the number of the
/// day, `None` where the text is no date.
pub uninterp spec fn iso_day(text: Seq<char>) -> Option<int>;

/// Whether a reading of a text is that of the day which the text shows, where it
/// shows one.
pub open spec fn reads_day_text(text: Seq<char>, day: Option<int>) -> bool {
    forall|d: Date| d.in_calendar() && text == #[trigger] d.text() ==> day == Some(d.number())
}

/// `chrono::NaiveDate`'s `FromStr`. It reads a date as `Display` shows it as that
/// date.
#[verifier::external_body]
pub(crate) fn parse_iso_date(text: &str) -> (r: Option<Date>)
    ensures
        numbered(r) == iso_day(text@),
        reads_day_text(text@, numbered(r)),
{
    let d = text.parse::<chrono::NaiveDate>().ok()?;
    Some(Date { year: d.year(), month: d.month(), day: d.day() })
}

/// A year's text determines the year.
proof fn year_text_is_injective(a: int, b: int)
    requires
        year_text(a) == year_text(b),
    ensures
        a == b,
{
    reveal_strlit("-");
    reveal_strlit("+");
    let x: nat = if a < 0 {
        (-a) as nat
    } else {
        a as nat
    };
    let y: nat = if b < 0 {
        (-b) as nat
    } else {
        b as nat
    };
    padded_denotes(x, 4);
    padded_denotes(y, 4);
    let s = year_text(a);
    let t = year_text(b);
    let signed_a = a < 0 || a > 9999;
    let signed_b = b < 0 || b > 9999;
    assert(signed_a ==> s.skip(1) =~= padded(x, 4) && !is_digit(s[0]));
    assert(signed_b ==> t.skip(1) =~= padded(y, 4) && !is_digit(t[0]));
    assert(is_digit(padded(x, 4)[0]));
    assert(is_digit(padded(y, 4)[0]));
    assert(s[0] == t[0]);
    assert(signed_a == signed_b);
    assert(padded(x, 4) == padded(y, 4));
    assert(x == y);
    if a < 0 {
        assert(s[0] == '-');
        if b > 9999 {
            assert(t[0] == '+');
        }
    } else if a > 9999 {
        assert(s[0] == '+');
        if b < 0 {
            assert(t[0] == '-');
        }
    }
}

/// Two digits for a number below a hundred.
proof fn two_digits(n: nat)
    requires
        n < 100,
    ensures
        padded(n, 2).len() == 2,
{
    if n >= 10 {
        assert(crate::text::numeral(n / 10).len() == 1);
        assert(crate::text::numeral(n).len() == 2);
    } else {
        assert(crate::text::numeral(n).len() == 1);
    }
}

/// A date's text determines the date.
pub proof fn date_text_is_injective(a: Date, b: Date)
    requires
        a.in_calendar(),
        b.in_calendar(),
        a.text() == b.text(),
    ensures
        a == b,
{
    reveal_strlit("-");
    two_digits(a.m() as nat);
    two_digits(a.d() as nat);
    two_digits(b.m() as nat);
    two_digits(b.d() as nat);
    padded_denotes(a.m() as nat, 2);
    padded_denotes(a.d() as nat, 2);
    padded_denotes(b.m() as nat, 2);
    padded_denotes(b.d() as nat, 2);
    let s = a.text();
    let t = b.text();
    let n = s.len() as int;
    assert(s.subrange(n - 2, n) =~= padded(a.d() as nat, 2));
    assert(t.subrange(n - 2, n) =~= padded(b.d() as nat, 2));
    assert(s.subrange(n - 5, n - 3) =~= padded(a.m() as nat, 2));
    assert(t.subrange(n - 5, n - 3) =~= padded(b.m() as nat, 2));
    assert(s.subrange(0, n - 6) =~= year_text(a.y()));
    assert(t.subrange(0, n - 6) =~= year_text(b.y()));
    year_text_is_injective(a.y(), b.y());
}

/// Whether a character can stand in a date's text.
pub open spec fn is_date_char(c: char) -> bool {
    is_digit(c) || c == '-' || c == '+'
}

/// A date's text holds digits, hyphens and signs only, and is not empty.
pub proof fn date_text_is_plain(date: Date)
    requires
        date.in_calendar(),
    ensures
        date.text().len() > 0,
        forall|i: int| 0 <= i < date.text().len() ==> is_date_char(#[trigger] date.text()[i]),
{
    let y = year_text(date.y());
    let m = padded(date.m() as nat, 2);
    let d = padded(date.d() as nat, 2);
    reveal_strlit("-");
    reveal_strlit("+");
    if date.y() < 0 {
        padded_denotes((-date.y()) as nat, 4);
    } else {
        padded_denotes(date.y() as nat, 4);
    }
    padded_denotes(date.m() as nat, 2);
    padded_denotes(date.d() as nat, 2);
    assert forall|i: int| 0 <= i < date.text().len() implies is_date_char(
        #[trigger] date.text()[i],
    ) by {
        let t = date.text();
        if i < y.len() {
            assert(t[i] == y[i]);
            if date.y() < 0 && i > 0 {
                assert(is_digit(padded((-date.y()) as nat, 4)[i - 1]));
            } else if date.y() > 9999 && i > 0 {
                assert(is_digit(padded(date.y() as nat, 4)[i - 1]));
            } else if 0 <= date.y() <= 9999 {
                assert(is_digit(padded(date.y() as nat, 4)[i]));
            }
        } else if i == y.len() {
        } else if i < y.len() + 1 + m.len() {
            assert(t[i] == m[i - y.len() - 1]);
            assert(is_digit(m[i - y.len() - 1]));
        } else if i == y.len() + 1 + m.len() {
        } else {
            assert(t[i] == d[i - y.len() - m.len() - 2]);
            assert(is_digit(d[i - y.len() - m.len() - 2]));
        }
    }
}

/// The calendar has no gaps: before each of its days but the first there is a day
/// with the number before, one day earlier in its month or the last of the month
/// before.
pub proof fn days_have_predecessors(date: Date) -> (r: Date)
    requires
        date.in_calendar(),
        date.number() > first_day(),
    ensures
        r.in_calendar(),
        r.number() == date.number() - 1,
        date.d() > 1 ==> r.y() == date.y() && r.m() == date.m() && r.d() == date.d() - 1,
        date.d() == 1 && date.m() > 1 ==> r.y() == date.y() && r.m() == date.m() - 1 && r.d()
            == month_length(date.y(), date.m() - 1),
        date.d() == 1 && date.m() == 1 ==> r.y() == date.y() - 1 && r.m() == 12 && r.d() == 31,
{
    if date.d() > 1 {
        Date { year: date.year, month: date.month, day: (date.d() - 1) as u32 }
    } else if date.m() > 1 {
        Date {
            year: date.year,
            month: (date.m() - 1) as u32,
            day: month_length(date.y(), date.m() - 1) as u32,
        }
    } else {
        year_length(date.y() - 1);
        assert(days_before_month(date.y() - 1, 13) == days_before_month(date.y() - 1, 12) + 31);
        assert(date.y() > MIN_YEAR);
        Date { year: (date.y() - 1) as i32, month: 12, day: 31 }
    }
}

/// Each number from the calendar's first day to its last is that of one date.
pub proof fn every_day_has_a_date(n: int)
    requires
        first_day() <= n <= last_day(),
    ensures
        date_numbered(n).in_calendar(),
        date_numbered(n).number() == n,
    decreases last_day() - n,
{
    if n == last_day() {
        let d = Date { year: MAX_YEAR, month: 12, day: 31 };
        assert(d.in_calendar() && d.number() == n);
    } else {
        every_day_has_a_date(n + 1);
        let d = days_have_predecessors(date_numbered(n + 1));
        assert(d.in_calendar() && d.number() == n);
    }
}

/// A year starts on the day after the last of December.
pub proof fn year_starts_after_december(year: int)
    ensures
        day_number(year + 1, 1, 1) == day_number(year, 12, 31) + 1,
{
    year_length(year);
    assert(days_before_month(year, 13) == days_before_month(year, 12) + 31);
    assert(days_before_month(year + 1, 1) == 0);
}

/// The year, and so the calendar, repeats itself every four hundred years; every fourth
/// year is a leap year but three in four of those that start a century.
pub proof fn leap_years_repeat(year: int)
    ensures
        is_leap(year) <==> is_leap(year + 400),
        days_before_year(year + 1) - days_before_year(year) == (if is_leap(year) {
            366int
        } else {
            365
        }),
        days_before_year(year + 400) - days_before_year(year) == 146_097,
        days_before_month(year, 13) == days_before_year(year + 1) - days_before_year(year),
{
    year_length(year);
    assert(year / 4 - (year - 1) / 4 == (if year % 4 == 0 {
        1int
    } else {
        0
    }));
    assert(year / 100 - (year - 1) / 100 == (if year % 100 == 0 {
        1int
    } else {
        0
    }));
    assert(year / 400 - (year - 1) / 400 == (if year % 400 == 0 {
        1int
    } else {
        0
    }));
    assert((year + 399) / 4 == (year - 1) / 4 + 100);
    assert((year + 399) / 100 == (year - 1) / 100 + 4);
    assert((year + 399) / 400 == (year - 1) / 400 + 1);
}

/// Instants are ordered by their seconds and then by what is within the second: no
/// instant is before itself, and of two others one is before the other.
pub proof fn instants_are_ordered(a: Timestamp, b: Timestamp, c: Timestamp)
    ensures
        !a.earlier_than(a),
        a.earlier_than(b) ==> !b.earlier_than(a),
        a.earlier_than(b) && b.earlier_than(c) ==> a.earlier_than(c),
        !a.earlier_than(b) && !b.earlier_than(a) ==> a == b,
        a.unix() < b.unix() ==> a.earlier_than(b),
{
}

/// Seconds that are added can be taken away again, outside leap seconds; and the time
/// between two such instants is what was added.
pub proof fn seconds_add_up(at: Timestamp, later: Timestamp, seconds: int)
    requires
        at.subsec() < 1_000_000_000,
        (later.unix(), later.subsec()) == seconds_later(at, seconds),
    ensures
        seconds_later(later, -seconds) == (at.unix(), at.subsec()),
        seconds_between(later, at) == seconds,
        seconds > 0 ==> at.earlier_than(later),
{
}

/// So many months later is the same day of the month that lies so many months ahead, or its
/// last day where it is shorter; twelve months later is a year later.
pub proof fn months_keep_the_day(date: Date, months: int)
    requires
        date.in_calendar(),
    ensures
        ({
            let (y, m, d) = months_later(date, months);
            &&& 1 <= m <= 12
            &&& y * 12 + m == date.y() * 12 + date.m() + months
            &&& 1 <= d <= month_length(y, m)
            &&& date.d() <= month_length(y, m) ==> d == date.d()
            &&& date.d() > month_length(y, m) ==> d == month_length(y, m)
        }),
        months_later(date, 0) == (date.y(), date.m(), date.d()),
        months_later(date, 12).0 == date.y() + 1 && months_later(date, 12).1 == date.m(),
{
}

} // verus!
