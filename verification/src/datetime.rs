//! Calendar dates and local date-times as plain values, with the calls into
//! `chrono` that parse, format and subtract them.

use vstd::prelude::*;
use crate::text::{decimal, digit_char, str_eq, string_from_chars};

verus! {

/// A calendar date (proleptic Gregorian).
#[derive(Debug, Clone, Copy, PartialEq, Eq)]
pub struct CivilDate {
    pub year: i32,
    pub month: u32,
    pub day: u32,
}

/// A local date and time of day, without a time zone.
#[derive(Debug, Clone, Copy, PartialEq, Eq)]
pub struct LocalDateTime {
    pub date: CivilDate,
    pub hour: u32,
    pub minute: u32,
    pub second: u32,
}

/// Gregorian leap year.
pub open spec fn is_leap_year(y: int) -> bool {
    (y % 4 == 0 && y % 100 != 0) || y % 400 == 0
}

/// Number of days of a month.
pub open spec fn days_in_month(y: int, m: int) -> int {
    if m == 2 {
        if is_leap_year(y) { 29 } else { 28 }
    } else if m == 4 || m == 6 || m == 9 || m == 11 {
        30
    } else {
        31
    }
}

/// A date that `chrono::NaiveDate` can hold.
pub open spec fn valid_date(d: CivilDate) -> bool {
    &&& -262143 <= d.year <= 262142
    &&& 1 <= d.month <= 12
    &&& 1 <= d.day <= days_in_month(d.year as int, d.month as int)
}

/// A date-time that `chrono::NaiveDateTime` can hold (without leap seconds).
pub open spec fn valid_datetime(t: LocalDateTime) -> bool {
    valid_date(t.date) && t.hour < 24 && t.minute < 60 && t.second < 60
}

/// Whether `a` is a later day than `b`.
pub open spec fn date_after(a: CivilDate, b: CivilDate) -> bool {
    a.year > b.year || (a.year == b.year && (a.month > b.month || (a.month == b.month && a.day
        > b.day)))
}

/// The `chrono` format strings this application uses.
pub open spec fn known_format(f: Seq<char>) -> bool {
    f == "%Y-%m-%d %H:%M"@ || f == "%A, %B %-d"@ || f == "%-I:%M%p"@ || f == "%B %-d, %Y"@
        || f == "%Y%m%d_%H%M%S"@ || f == "%Y-%m-%dT%H:%M"@ || f == "%Y-%m-%d"@
}

/// Two digits, zero-padded (`%m`, `%d`, `%H`, `%M`, `%S`).
pub open spec fn two_digits(n: nat) -> Seq<char> {
    seq![digit_char((n / 10) % 10), digit_char(n % 10)]
}

/// `n` zero-padded to at least four digits.
pub open spec fn four_digits(n: nat) -> Seq<char> {
    let d = decimal(n);
    if d.len() >= 4 {
        d
    } else {
        Seq::new((4 - d.len()) as nat, |i: int| '0') + d
    }
}

/// `%Y`: four digits for years 0 to 9999, otherwise a sign and at least
/// four digits.
pub open spec fn year_text(y: int) -> Seq<char> {
    if 0 <= y <= 9999 {
        four_digits(y as nat)
    } else if y > 9999 {
        seq!['+'] + four_digits(y as nat)
    } else {
        seq!['-'] + four_digits((-y) as nat)
    }
}

/// `%B`: the English name of a month.
pub open spec fn month_name(m: int) -> Seq<char> {
    if m == 1 { "January"@ } else if m == 2 { "February"@ } else if m == 3 { "March"@ }
    else if m == 4 { "April"@ } else if m == 5 { "May"@ } else if m == 6 { "June"@ }
    else if m == 7 { "July"@ } else if m == 8 { "August"@ } else if m == 9 { "September"@ }
    else if m == 10 { "October"@ } else if m == 11 { "November"@ } else { "December"@ }
}

/// `%A`: the English name of the weekday of a day number (0000-01-01 was a
/// Saturday).
pub open spec fn weekday_name(day: int) -> Seq<char> {
    let w = (day + 5) % 7;
    if w == 0 { "Monday"@ } else if w == 1 { "Tuesday"@ } else if w == 2 { "Wednesday"@ }
    else if w == 3 { "Thursday"@ } else if w == 4 { "Friday"@ } else if w == 5 { "Saturday"@ }
    else { "Sunday"@ }
}

/// `%-I`: the hour on a twelve-hour clock, unpadded.
pub open spec fn hour12(h: u32) -> Seq<char> {
    decimal((if h % 12 == 0 { 12 } else { h % 12 }) as nat)
}

/// `%p`: `AM` before noon, `PM` after.
pub open spec fn am_pm(h: u32) -> Seq<char> {
    if h < 12 { "AM"@ } else { "PM"@ }
}

/// What `chrono` writes for a date-time under each of the format strings
/// this application uses.
pub open spec fn chrono_formatted(
    year: i32,
    month: u32,
    day: u32,
    hour: u32,
    minute: u32,
    second: u32,
    fmt: Seq<char>,
) -> Seq<char> {
    let y = year_text(year as int);
    let mo = two_digits(month as nat);
    let d = two_digits(day as nat);
    let h = two_digits(hour as nat);
    let mi = two_digits(minute as nat);
    let se = two_digits(second as nat);
    let dn = day_number(CivilDate { year, month, day });
    if fmt == "%Y-%m-%d %H:%M"@ {
        y + "-"@ + mo + "-"@ + d + " "@ + h + ":"@ + mi
    } else if fmt == "%A, %B %-d"@ {
        weekday_name(dn) + ", "@ + month_name(month as int) + " "@ + decimal(day as nat)
    } else if fmt == "%-I:%M%p"@ {
        hour12(hour) + ":"@ + mi + am_pm(hour)
    } else if fmt == "%B %-d, %Y"@ {
        month_name(month as int) + " "@ + decimal(day as nat) + ", "@ + y
    } else if fmt == "%Y%m%d_%H%M%S"@ {
        y + mo + d + "_"@ + h + mi + se
    } else if fmt == "%Y-%m-%dT%H:%M"@ {
        y + "-"@ + mo + "-"@ + d + "T"@ + h + ":"@ + mi
    } else {
        y + "-"@ + mo + "-"@ + d
    }
}

/// `NaiveDateTime::format(fmt).to_string()` of `chrono` for the given
/// date-time, under one of the format strings this application uses.
#[verifier::external_body]
pub(crate) fn format_datetime(t: &LocalDateTime, fmt: &str) -> (s: String)
    requires
        valid_datetime(*t),
        known_format(fmt@),
    ensures
        s@ == chrono_formatted(
            t.date.year,
            t.date.month,
            t.date.day,
            t.hour,
            t.minute,
            t.second,
            fmt@,
        ),
{
    chrono::NaiveDate::from_ymd_opt(t.date.year, t.date.month, t.date.day).unwrap().and_hms_opt(
        t.hour,
        t.minute,
        t.second,
    ).unwrap().format(fmt).to_string()
}

/// Formats a date (at midnight) under a format string.
pub fn format_date(d: &CivilDate, fmt: &str) -> (s: String)
    requires
        valid_date(*d),
        known_format(fmt@),
    ensures
        s@ == chrono_formatted(d.year, d.month, d.day, 0, 0, 0, fmt@),
{
    format_datetime(&LocalDateTime { date: *d, hour: 0, minute: 0, second: 0 }, fmt)
}

/// What `chrono` parses from a text under a format string, as
/// `(year, month, day, hour, minute, second)`.
pub uninterp spec fn chrono_parsed(s: Seq<char>, fmt: Seq<char>) -> Option<
    (i32, u32, u32, u32, u32, u32),
>;

/// The parse error text `chrono` reports for a text and a format string.
pub uninterp spec fn chrono_parse_error(s: Seq<char>, fmt: Seq<char>) -> Seq<char>;

/// `NaiveDateTime::parse_from_str(s, fmt)` of `chrono`: on success the parts
/// of the parsed value (a value `chrono` can hold, so a valid date and
/// time); on failure the error's text. What `chrono` accepts is its own
/// business and is not restated.
#[verifier::external_body]
pub(crate) fn parse_datetime(s: &str, fmt: &str) -> (r: Result<LocalDateTime, String>)
    ensures
        r matches Ok(t) ==> chrono_parsed(s@, fmt@) == Some(
            (t.date.year, t.date.month, t.date.day, t.hour, t.minute, t.second),
        ) && valid_datetime(t),
        r matches Err(e) ==> chrono_parsed(s@, fmt@) is None && e@ == chrono_parse_error(
            s@,
            fmt@,
        ),
{
    match chrono::NaiveDateTime::parse_from_str(s, fmt) {
        Ok(t) => Ok(LocalDateTime {
            date: CivilDate {
                year: chrono::Datelike::year(&t),
                month: chrono::Datelike::month(&t),
                day: chrono::Datelike::day(&t),
            },
            hour: chrono::Timelike::hour(&t),
            minute: chrono::Timelike::minute(&t),
            second: chrono::Timelike::second(&t),
        }),
        Err(e) => Err(e.to_string()),
    }
}

/// What `chrono` parses from a date text under a format string, as
/// `(year, month, day)`.
pub uninterp spec fn chrono_parsed_date(s: Seq<char>, fmt: Seq<char>) -> Option<(i32, u32, u32)>;

/// The parse error text `chrono` reports for a date text and a format.
pub uninterp spec fn chrono_date_parse_error(s: Seq<char>, fmt: Seq<char>) -> Seq<char>;

/// `NaiveDate::parse_from_str(s, fmt)` of `chrono`: on success the parsed
/// date (a date `chrono` can hold), on failure the error's text.
#[verifier::external_body]
pub(crate) fn parse_date(s: &str, fmt: &str) -> (r: Result<CivilDate, String>)
    ensures
        r matches Ok(d) ==> chrono_parsed_date(s@, fmt@) == Some((d.year, d.month, d.day))
            && valid_date(d),
        r matches Err(e) ==> chrono_parsed_date(s@, fmt@) is None && e@
            == chrono_date_parse_error(s@, fmt@),
{
    match chrono::NaiveDate::parse_from_str(s, fmt) {
        Ok(d) => Ok(CivilDate {
            year: chrono::Datelike::year(&d),
            month: chrono::Datelike::month(&d),
            day: chrono::Datelike::day(&d),
        }),
        Err(e) => Err(e.to_string()),
    }
}

/// Days of the months before month `m` of year `y`.
pub open spec fn days_before_month(y: int, m: int) -> int
    decreases m,
{
    if m <= 1 {
        0
    } else {
        days_before_month(y, m - 1) + days_in_month(y, m - 1)
    }
}

/// Days of the (proleptic Gregorian) years from year 0 up to, not
/// including, year `y`; negative for years before 0.
pub open spec fn days_before_year(y: int) -> int {
    365 * y + (y + 3) / 4 - (y + 99) / 100 + (y + 399) / 400
}

/// The day number of a date: days since 0000-01-01.
pub open spec fn day_number(d: CivilDate) -> int {
    days_before_year(d.year as int) + days_before_month(d.year as int, d.month as int) + d.day - 1
}

/// The number of days of year `y`.
pub open spec fn year_length(y: int) -> int {
    if is_leap_year(y) { 366 } else { 365 }
}

proof fn lemma_step_div(y: int, k: int)
    requires
        k > 0,
    ensures
        (y + k) / k - (y + k - 1) / k == (if y % k == 0 { 1int } else { 0int }),
{
    let q = y / k;
    let r = y % k;
    vstd::arithmetic::div_mod::lemma_fundamental_div_mod(y, k);
    assert(0 <= r < k);
    assert(y + k == k * (q + 1) + r) by (nonlinear_arith)
        requires
            y == k * q + r,
    ;
    vstd::arithmetic::div_mod::lemma_div_multiples_vanish_fancy(q + 1, r, k);
    if r == 0 {
        assert(y + k - 1 == k * q + (k - 1)) by (nonlinear_arith)
            requires
                y == k * q + r,
                r == 0,
        ;
        vstd::arithmetic::div_mod::lemma_div_multiples_vanish_fancy(q, k - 1, k);
    } else {
        assert(y + k - 1 == k * (q + 1) + (r - 1)) by (nonlinear_arith)
            requires
                y == k * q + r,
        ;
        vstd::arithmetic::div_mod::lemma_div_multiples_vanish_fancy(q + 1, r - 1, k);
    }
}

proof fn lemma_months_of_year(y: int)
    ensures
        days_before_month(y, 13) == year_length(y),
{
    reveal_with_fuel(days_before_month, 13);
}

proof fn lemma_year_length(y: int)
    ensures
        days_before_year(y + 1) == days_before_year(y) + year_length(y),
        days_before_month(y, 13) == year_length(y),
{
    lemma_step_div(y, 4);
    lemma_step_div(y, 100);
    lemma_step_div(y, 400);
    assert(days_before_year(y + 1) == 365 * y + 365 + (y + 4) / 4 - (y + 100) / 100 + (y + 400)
        / 400);
    lemma_months_of_year(y);
}

proof fn lemma_years_increase(a: int, b: int)
    requires
        a < b,
    ensures
        days_before_year(a) + year_length(a) <= days_before_year(b),
    decreases b - a,
{
    lemma_year_length(a);
    if a + 1 < b {
        lemma_years_increase(a + 1, b);
        lemma_year_length(a + 1);
    }
}

proof fn lemma_months_increase(y: int, a: int, b: int)
    requires
        1 <= a < b,
    ensures
        days_before_month(y, a) + days_in_month(y, a) <= days_before_month(y, b),
    decreases b - a,
{
    if a + 1 < b {
        lemma_months_increase(y, a + 1, b);
    }
}

proof fn lemma_day_within_year(d: CivilDate)
    requires
        valid_date(d),
    ensures
        0 <= days_before_month(d.year as int, d.month as int) + d.day - 1 < year_length(
            d.year as int,
        ),
{
    let y = d.year as int;
    let m = d.month as int;
    lemma_year_length(y);
    if m < 13 {
        if m > 1 {
            lemma_months_increase(y, 1, m);
        }
        if m < 12 {
            lemma_months_increase(y, m, 13);
        } else {
            reveal_with_fuel(days_before_month, 2);
        }
    }
}

/// A later day has a larger day number.
pub proof fn lemma_day_number_order(a: CivilDate, b: CivilDate)
    requires
        valid_date(a),
        valid_date(b),
        date_after(a, b),
    ensures
        day_number(a) > day_number(b),
{
    lemma_day_within_year(a);
    lemma_day_within_year(b);
    if a.year > b.year {
        lemma_years_increase(b.year as int, a.year as int);
    } else if a.month > b.month {
        lemma_months_increase(a.year as int, b.month as int, a.month as int);
    }
}

/// Day numbers of dates `chrono` can hold are far inside `i64`.
pub proof fn lemma_day_number_bounds(d: CivilDate)
    requires
        valid_date(d),
    ensures
        -100_000_000 < day_number(d) < 100_000_000,
{
    lemma_day_within_year(d);
    let y = d.year as int;
    assert(-100_000_000 < days_before_year(y) < 99_000_000) by (nonlinear_arith)
        requires
            -262143 <= y <= 262142,
    {
        assert(-262143 * 365 <= 365 * y <= 262142 * 365);
    }
}

/// `(target - today).num_days()` of `chrono`: the difference of the two
/// dates' day numbers.
#[verifier::external_body]
pub(crate) fn days_between(target: &CivilDate, today: &CivilDate) -> (d: i64)
    requires
        valid_date(*target),
        valid_date(*today),
    ensures
        d == day_number(*target) - day_number(*today),
{
    let t = chrono::NaiveDate::from_ymd_opt(target.year, target.month, target.day).unwrap();
    let n = chrono::NaiveDate::from_ymd_opt(today.year, today.month, today.day).unwrap();
    (t - n).num_days()
}

/// The sign of a day difference tells the order of the dates.
pub proof fn law_day_difference_sign(target: CivilDate, today: CivilDate)
    requires
        valid_date(target),
        valid_date(today),
    ensures
        day_number(target) - day_number(today) > 0 <==> date_after(target, today),
        day_number(target) - day_number(today) == 0 <==> target == today,
{
    if date_after(target, today) {
        lemma_day_number_order(target, today);
    } else if target != today {
        assert(date_after(today, target));
        lemma_day_number_order(today, target);
    }
}

} // verus!
