//! Dates and times of day without a time zone, in the proleptic Gregorian
//! calendar.

use chrono::{Datelike, NaiveDate, NaiveDateTime, NaiveTime};
use vstd::prelude::*;

verus! {

/// The first year that can be represented.
pub const FIRST_YEAR: i32 = -262143;

/// The last year that can be represented.
pub const LAST_YEAR: i32 = 262142;

/// A date.
#[derive(Clone, Copy, Debug, PartialEq, Eq, Structural)]
pub struct Date {
    pub year: i32,
    /// From 1 to 12.
    pub month: u32,
    /// From 1 on.
    pub day: u32,
}

/// A date and the seconds passed since its midnight.
#[derive(Clone, Copy, Debug, PartialEq, Eq, Structural)]
pub struct DateTime {
    pub date: Date,
    pub second: u32,
}

/// Whether the year `y` has a February 29.
pub open spec fn is_leap(y: int) -> bool {
    y % 4 == 0 && (y % 100 != 0 || y % 400 == 0)
}

/// The number of days of a month.
pub open spec fn month_days(y: int, m: int) -> int {
    if m == 2 {
        if is_leap(y) {
            29
        } else {
            28
        }
    } else if m == 4 || m == 6 || m == 9 || m == 11 {
        30
    } else {
        31
    }
}

/// The number of days of the year `y` before its month `m`.
pub open spec fn days_before_month(y: int, m: int) -> int
    decreases m,
{
    if m <= 1 {
        0
    } else {
        days_before_month(y, m - 1) + month_days(y, m - 1)
    }
}

/// The number of days between January 1 of year 1 and January 1 of year `y`.
pub open spec fn days_before_year(y: int) -> int {
    365 * (y - 1) + (y - 1) / 4 - (y - 1) / 100 + (y - 1) / 400
}

impl Date {
    /// Whether the date exists and can be represented.
    pub open spec fn valid(self) -> bool {
        &&& FIRST_YEAR <= self.year <= LAST_YEAR
        &&& 1 <= self.month <= 12
        &&& 1 <= self.day <= month_days(self.year as int, self.month as int)
    }

    /// The number of the day, where January 1 of year 1 is day 1, a Monday.
    pub open spec fn number(self) -> int {
        days_before_year(self.year as int) + days_before_month(self.year as int, self.month as int)
            + self.day
    }

    /// `self` comes before `other`.
    pub open spec fn before(self, other: Date) -> bool {
        self.year < other.year || (self.year == other.year && (self.month < other.month || (
        self.month == other.month && self.day < other.day)))
    }
}

impl DateTime {
    /// Whether the date exists and the time lies within it.
    pub open spec fn valid(self) -> bool {
        self.date.valid() && self.second < 86400
    }

    /// The seconds passed since the midnight before day 0.
    pub open spec fn instant(self) -> int {
        86400 * self.date.number() + self.second
    }
}

/// The number of the first day that can be represented.
pub open spec fn first_day() -> int {
    days_before_year(FIRST_YEAR as int) + 1
}

/// The number of the last day that can be represented.
pub open spec fn last_day() -> int {
    days_before_year(LAST_YEAR + 1)
}

/// Calls `NaiveDate::weekday` and `Weekday::num_days_from_sunday`. Claimed: the
/// days are numbered so that the multiples of seven are the Sundays.
#[verifier::external_body]
pub(crate) fn days_from_sunday(d: Date) -> (n: u32)
    requires
        d.valid(),
    ensures
        n == d.number() % 7,
{
    let date = NaiveDate::from_ymd_opt(d.year, d.month, d.day).expect("the date exists");
    date.weekday().num_days_from_sunday()
}

/// Calls `NaiveDate + TimeDelta::days`. Claimed: the result is the date `n`
/// days later.
#[verifier::external_body]
pub(crate) fn add_days(d: Date, n: i64) -> (r: Date)
    requires
        d.valid(),
        first_day() <= d.number() + n <= last_day(),
    ensures
        r.valid(),
        r.number() == d.number() + n,
{
    let date = NaiveDate::from_ymd_opt(d.year, d.month, d.day).expect("the date exists");
    let moved = date + chrono::TimeDelta::days(n);
    Date { year: moved.year(), month: moved.month(), day: moved.day() }
}

/// Calls `NaiveDateTime - NaiveDateTime` and `TimeDelta::num_seconds`. Claimed:
/// the result is the number of seconds from the second time to the first.
#[verifier::external_body]
pub(crate) fn seconds_between(later: DateTime, earlier: DateTime) -> (n: i64)
    requires
        later.valid(),
        earlier.valid(),
    ensures
        n == later.instant() - earlier.instant(),
{
    let x = NaiveDate::from_ymd_opt(later.date.year, later.date.month, later.date.day);
    let y = NaiveDate::from_ymd_opt(earlier.date.year, earlier.date.month, earlier.date.day);
    let t = NaiveTime::from_num_seconds_from_midnight_opt(later.second, 0);
    let u = NaiveTime::from_num_seconds_from_midnight_opt(earlier.second, 0);
    let end = NaiveDateTime::new(x.expect("the date exists"), t.expect("the time exists"));
    let start = NaiveDateTime::new(y.expect("the date exists"), u.expect("the time exists"));
    (end - start).num_seconds()
}

/// `s` with zeros before it up to `n` characters.
pub open spec fn padded(s: Seq<char>, n: int) -> Seq<char>
    decreases n - s.len(),
{
    if s.len() >= n {
        s
    } else {
        padded(seq!['0'] + s, n)
    }
}

/// A year in ISO 8601: four digits, or a sign and at least four digits outside
/// the years 0 to 9999.
pub open spec fn iso_year(y: int) -> Seq<char> {
    if 0 <= y <= 9999 {
        padded(crate::text::decimal(y as nat), 4)
    } else if y < 0 {
        seq!['-'] + padded(crate::text::decimal((-y) as nat), 4)
    } else {
        seq!['+'] + padded(crate::text::decimal(y as nat), 4)
    }
}

/// A date in ISO 8601.
pub open spec fn iso(d: Date) -> Seq<char> {
    iso_year(d.year as int) + seq!['-'] + padded(crate::text::decimal(d.month as nat), 2)
        + seq!['-'] + padded(crate::text::decimal(d.day as nat), 2)
}

/// Calls the `Display` of `NaiveDate`. Claimed: the result is the date in ISO
/// 8601.
#[verifier::external_body]
pub(crate) fn iso_date(d: Date) -> (out: String)
    requires
        d.valid(),
    ensures
        out@ == iso(d),
{
    let date = NaiveDate::from_ymd_opt(d.year, d.month, d.day).expect("the date exists");
    date.to_string()
}

/// The instant that an RFC 3339 text names, if it is one: seconds since the
/// beginning of 1970 in UTC and nanoseconds.
pub uninterp spec fn rfc3339_instant(text: Seq<char>) -> Option<(i64, u32)>;

/// Calls `DateTime::parse_from_rfc3339`, `timestamp` and
/// `timestamp_subsec_nanos`. Claimed: the result is the instant that the text
/// names.
#[verifier::external_body]
pub(crate) fn parse_rfc3339(text: &str) -> (r: Option<(i64, u32)>)
    ensures
        r == rfc3339_instant(text@),
{
    let instant = chrono::DateTime::parse_from_rfc3339(text).ok()?;
    Some((instant.timestamp(), instant.timestamp_subsec_nanos()))
}

proof fn lemma_year_length(y: int)
    ensures
        days_before_year(y + 1) == days_before_year(y) + days_before_month(y, 12) + month_days(
            y,
            12,
        ),
        days_before_month(y, 12) + month_days(y, 12) == if is_leap(y) {
            366int
        } else {
            365
        },
{
    reveal_with_fuel(days_before_month, 13);
}

proof fn lemma_years_apart(y: int, z: int)
    requires
        y <= z,
    ensures
        days_before_year(y) <= days_before_year(z),
    decreases z - y,
{
    if y < z {
        lemma_years_apart(y, z - 1);
        lemma_year_length(z - 1);
    }
}

proof fn lemma_months_apart(y: int, m: int, n: int)
    requires
        1 <= m <= n,
    ensures
        0 <= days_before_month(y, m) <= days_before_month(y, n),
    decreases n,
{
    if m < n {
        lemma_months_apart(y, m, n - 1);
    } else if m > 1 {
        lemma_months_apart(y, m - 1, m - 1);
    }
}

/// A date that exists lies between the first and the last day.
pub proof fn lemma_within_range(d: Date)
    requires
        d.valid(),
    ensures
        first_day() <= d.number() <= last_day(),
{
    let y = d.year as int;
    let m = d.month as int;
    lemma_years_apart(FIRST_YEAR as int, y);
    lemma_years_apart(y + 1, LAST_YEAR + 1);
    lemma_year_length(y);
    lemma_months_apart(y, 1, m);
    lemma_months_apart(y, m, 12);
    if m < 12 {
        lemma_months_apart(y, m + 1, 12);
    }
}

/// The numbers of the days follow the calendar: an earlier date has a smaller
/// number.
pub proof fn law_numbers_in_order(a: Date, b: Date)
    requires
        a.valid(),
        b.valid(),
        a.before(b),
    ensures
        a.number() < b.number(),
{
    let y = a.year as int;
    let m = a.month as int;
    lemma_months_apart(b.year as int, 1, b.month as int);
    if a.year < b.year {
        lemma_year_length(y);
        lemma_years_apart(y + 1, b.year as int);
        lemma_months_apart(y, m, 12);
        if m < 12 {
            lemma_months_apart(y, m + 1, 12);
        }
    } else if a.month < b.month {
        lemma_months_apart(y, m + 1, b.month as int);
    }
}

/// Two dates with the same number are the same date.
pub proof fn law_number_names_the_date(a: Date, b: Date)
    requires
        a.valid(),
        b.valid(),
        a.number() == b.number(),
    ensures
        a == b,
{
    if a.before(b) {
        law_numbers_in_order(a, b);
    } else if b.before(a) {
        law_numbers_in_order(b, a);
    }
}

proof fn lemma_padded(s: Seq<char>, n: int)
    requires
        crate::text::all_digits(s),
    ensures
        crate::text::all_digits(padded(s, n)),
        crate::text::digits_value(padded(s, n)) == crate::text::digits_value(s),
        padded(s, n).len() == if s.len() >= n {
            s.len() as int
        } else {
            n
        },
    decreases n - s.len(),
{
    if s.len() < n {
        let more = seq!['0'] + s;
        assert(crate::text::all_digits(more));
        crate::text::lemma_leading_zero(s);
        lemma_padded(more, n);
    }
}

proof fn lemma_two_digits(n: nat)
    requires
        n < 100,
    ensures
        padded(crate::text::decimal(n), 2).len() == 2,
        crate::text::digits_value(padded(crate::text::decimal(n), 2)) == n,
{
    crate::text::lemma_decimal(n);
    if n >= 10 {
        assert(crate::text::decimal(n / 10).len() == 1);
    }
    lemma_padded(crate::text::decimal(n), 2);
}

proof fn lemma_iso_year(y: int)
    ensures
        iso_year(y).len() > 0,
        0 <= y <= 9999 ==> crate::text::all_digits(iso_year(y)) && crate::text::digits_value(
            iso_year(y),
        ) == y,
        y < 0 ==> iso_year(y)[0] == '-' && crate::text::digits_value(iso_year(y).drop_first())
            == -y,
        y > 9999 ==> iso_year(y)[0] == '+' && crate::text::digits_value(iso_year(y).drop_first())
            == y,
{
    let n = if y < 0 {
        (-y) as nat
    } else {
        y as nat
    };
    crate::text::lemma_decimal(n);
    lemma_padded(crate::text::decimal(n), 4);
    let p = padded(crate::text::decimal(n), 4);
    assert((seq!['-'] + p).drop_first() =~= p);
    assert((seq!['+'] + p).drop_first() =~= p);
}

/// Two dates with the same ISO 8601 notation are the same date.
pub proof fn law_iso_names_the_date(a: Date, b: Date)
    requires
        a.valid(),
        b.valid(),
        iso(a) == iso(b),
    ensures
        a == b,
{
    lemma_two_digits(a.month as nat);
    lemma_two_digits(b.month as nat);
    lemma_two_digits(a.day as nat);
    lemma_two_digits(b.day as nat);
    lemma_iso_year(a.year as int);
    lemma_iso_year(b.year as int);
    let s = iso(a);
    let k = s.len() - 6;
    assert(s.skip(k + 4) =~= padded(crate::text::decimal(a.day as nat), 2));
    assert(s.skip(k + 4) =~= padded(crate::text::decimal(b.day as nat), 2));
    assert(s.subrange(k + 1, k + 3) =~= padded(crate::text::decimal(a.month as nat), 2));
    assert(s.subrange(k + 1, k + 3) =~= padded(crate::text::decimal(b.month as nat), 2));
    assert(s.take(k) =~= iso_year(a.year as int));
    assert(s.take(k) =~= iso_year(b.year as int));
    let y = iso_year(a.year as int);
    if crate::text::all_digits(y) {
        assert(crate::text::is_digit(y[0]));
    }
}

/// A date of a year with four digits is written as the year, the month and the day
/// with two digits each, with a hyphen between them.
pub proof fn law_iso_form(d: Date)
    requires
        d.valid(),
        1000 <= d.year <= 9999,
    ensures
        iso(d).len() == 10,
        iso(d)[4] == '-' && iso(d)[7] == '-',
        crate::text::digits_value(iso(d).subrange(0, 4)) == d.year,
        crate::text::digits_value(iso(d).subrange(5, 7)) == d.month,
        crate::text::digits_value(iso(d).subrange(8, 10)) == d.day,
{
    let y = d.year as nat;
    let s = iso(d);
    lemma_two_digits(d.month as nat);
    lemma_two_digits(d.day as nat);
    crate::text::lemma_decimal(y);
    reveal_with_fuel(crate::text::decimal, 5);
    lemma_padded(crate::text::decimal(y), 4);
    let p = padded(crate::text::decimal(y), 4);
    assert(p.len() == 4);
    assert(s.subrange(0, 4) =~= p);
    assert(s.subrange(5, 7) =~= padded(crate::text::decimal(d.month as nat), 2));
    assert(s.subrange(8, 10) =~= padded(crate::text::decimal(d.day as nat), 2));
}

/// The days are numbered without gaps: the next day of a month, the first day of
/// the next month and the first day of the next year have the next number.
pub proof fn law_next_day(d: Date, e: Date)
    requires
        d.valid(),
        e.valid(),
        ({
            ||| e == (Date { day: (d.day + 1) as u32, ..d })
            ||| d.day == month_days(d.year as int, d.month as int) && e == (Date {
                year: d.year,
                month: (d.month + 1) as u32,
                day: 1,
            })
            ||| d.month == 12 && d.day == 31 && e == (Date {
                year: (d.year + 1) as i32,
                month: 1,
                day: 1,
            })
        }),
    ensures
        e.number() == d.number() + 1,
{
    lemma_year_length(d.year as int);
}

} // verus!
