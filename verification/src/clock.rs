//! The time stamp of an audit line: seconds since the Unix epoch turned into
//! a calendar date and a time of day in UTC.

use crate::text::{decimal, push_decimal, push_two_digits, zero_padded};
use vstd::prelude::*;
use vstd::string::*;

verus! {

/// The system clock's point in time, carried from the clock to the function
/// that measures it.
#[verifier::external_type_specification]
#[verifier::external_body]
pub struct ExSystemTime(std::time::SystemTime);

/// `SystemTime::now`: the clock's present reading. Nothing is known of it.
#[verifier::external_body]
fn now() -> std::time::SystemTime {
    std::time::SystemTime::now()
}

/// `SystemTime::duration_since` the Unix epoch, in whole seconds; zero for
/// a reading before the epoch. Nothing is known of the number.
#[verifier::external_body]
fn seconds_since_epoch(at: std::time::SystemTime) -> u64 {
    at.duration_since(std::time::UNIX_EPOCH).unwrap_or_default().as_secs()
}

/// A date and a time of day.
#[derive(Clone, Copy, Debug, PartialEq, Eq)]
pub struct CivilTime {
    pub year: u64,
    pub month: u64,
    pub day: u64,
    pub hour: u64,
    pub minute: u64,
    pub second: u64,
}

pub open spec fn is_leap(year: int) -> bool {
    year % 4 == 0 && (year % 100 != 0 || year % 400 == 0)
}

pub open spec fn days_in_year(year: int) -> int {
    if is_leap(year) {
        366
    } else {
        365
    }
}

pub open spec fn days_in_month(year: int, month: int) -> int {
    if month == 2 {
        if is_leap(year) {
            29
        } else {
            28
        }
    } else if month == 4 || month == 6 || month == 9 || month == 11 {
        30
    } else {
        31
    }
}

/// The days from 1 January 1970 to 1 January of `year`.
pub open spec fn days_before_year(year: int) -> int
    decreases year - 1970,
{
    if year <= 1970 {
        0
    } else {
        days_before_year(year - 1) + days_in_year(year - 1)
    }
}

/// The days from 1 January of `year` to the first of `month`.
pub open spec fn days_before_month(year: int, month: int) -> int
    decreases month,
{
    if month <= 1 {
        0
    } else {
        days_before_month(year, month - 1) + days_in_month(year, month - 1)
    }
}

/// The seconds from the epoch to the given date and time.
pub open spec fn seconds_at(t: CivilTime) -> int {
    let days = days_before_year(t.year as int) + days_before_month(t.year as int, t.month as int) + (
    t.day - 1);
    ((days * 24 + t.hour) * 60 + t.minute) * 60 + t.second
}

/// Whether the fields name a date of the calendar, from 1970 on, and a time
/// of day.
pub open spec fn is_valid_civil(t: CivilTime) -> bool {
    &&& t.year >= 1970
    &&& 1 <= t.month <= 12
    &&& 1 <= t.day <= days_in_month(t.year as int, t.month as int)
    &&& t.hour < 24
    &&& t.minute < 60
    &&& t.second < 60
}

/// Whether `t` is the date and time that lies `secs` seconds after the
/// epoch.
pub open spec fn is_civil_time_of(secs: int, t: CivilTime) -> bool {
    is_valid_civil(t) && seconds_at(t) == secs
}

/// The text of a date and time: `YYYY-MM-DD HH:MM:SS`, every field filled
/// with zeros to its width.
pub open spec fn rendered(t: CivilTime) -> Seq<char> {
    zero_padded(t.year as nat, 4) + seq!['-'] + zero_padded(t.month as nat, 2) + seq!['-']
        + zero_padded(t.day as nat, 2) + seq![' '] + zero_padded(t.hour as nat, 2) + seq![':']
        + zero_padded(t.minute as nat, 2) + seq![':'] + zero_padded(t.second as nat, 2)
}

fn leap(year: u64) -> (l: bool)
    ensures
        l == is_leap(year as int),
{
    year % 4 == 0 && (year % 100 != 0 || year % 400 == 0)
}

fn month_length(year: u64, month: u64) -> (n: u64)
    ensures
        n == days_in_month(year as int, month as int),
{
    if month == 2 {
        if leap(year) {
            29
        } else {
            28
        }
    } else if month == 4 || month == 6 || month == 9 || month == 11 {
        30
    } else {
        31
    }
}

/// The twelve months of a year make up the year.
pub proof fn lemma_months_fill_year(year: int)
    ensures
        days_before_month(year, 13) == days_in_year(year),
{
    reveal_with_fuel(days_before_month, 14);
}

/// The date and time of day that lies `secs` seconds after the Unix epoch.
pub fn civil_from_seconds(secs: u64) -> (t: CivilTime)
    ensures
        is_civil_time_of(secs as int, t),
{
    let days: u64 = secs / 86400;
    let in_day: u64 = secs % 86400;
    let hour: u64 = in_day / 3600;
    let minute: u64 = (in_day % 3600) / 60;
    let second: u64 = in_day % 60;
    let mut year: u64 = 1970;
    let mut remaining: u64 = days;
    loop
        invariant
            year >= 1970,
            days <= u64::MAX / 86400,
            days_before_year(year as int) + remaining == days,
            (year - 1970) + remaining <= days,
        ensures
            remaining < days_in_year(year as int),
        decreases remaining,
    {
        let length: u64 = if leap(year) {
            366
        } else {
            365
        };
        if remaining < length {
            break ;
        }
        remaining -= length;
        year += 1;
    }
    let ghost in_year = remaining;
    let mut month: u64 = 1;
    loop
        invariant
            1 <= month <= 12,
            days_before_month(year as int, month as int) + remaining == in_year,
            in_year < days_in_year(year as int),
        ensures
            remaining < days_in_month(year as int, month as int),
        decreases 12 - month,
    {
        let length = month_length(year, month);
        if remaining < length {
            break ;
        }
        proof {
            if month == 12 {
                lemma_months_fill_year(year as int);
            }
        }
        remaining -= length;
        month += 1;
    }
    let t = CivilTime { year, month, day: remaining + 1, hour, minute, second };
    proof {
        assert(secs == days * 86400 + in_day);
        assert(in_day == hour * 3600 + minute * 60 + second);
        assert(seconds_at(t) == secs) by (nonlinear_arith)
            requires
                secs == days * 86400 + in_day,
                in_day == hour * 3600 + minute * 60 + second,
                seconds_at(t) == ((days * 24 + hour) * 60 + minute) * 60 + second,
        ;
    }
    t
}

/// A later year begins after the whole of every earlier year.
pub proof fn lemma_years_follow(earlier: int, later: int)
    requires
        1970 <= earlier < later,
    ensures
        days_before_year(earlier) + days_in_year(earlier) <= days_before_year(later),
    decreases later - earlier,
{
    if earlier + 1 < later {
        lemma_years_follow(earlier, later - 1);
    }
}

/// A later month begins after the whole of every earlier month of the year.
pub proof fn lemma_months_follow(year: int, earlier: int, later: int)
    requires
        1 <= earlier < later,
    ensures
        days_before_month(year, earlier) + days_in_month(year, earlier) <= days_before_month(
            year,
            later,
        ),
    decreases later - earlier,
{
    if earlier + 1 < later {
        lemma_months_follow(year, earlier, later - 1);
    }
}

/// A moment has one date and one time of day: two that lie the same number
/// of seconds after the epoch are the same.
pub proof fn lemma_civil_time_is_unique(secs: int, a: CivilTime, b: CivilTime)
    requires
        is_civil_time_of(secs, a),
        is_civil_time_of(secs, b),
    ensures
        a == b,
{
    let days_a = days_before_year(a.year as int) + days_before_month(a.year as int, a.month as int)
        + (a.day - 1);
    let days_b = days_before_year(b.year as int) + days_before_month(b.year as int, b.month as int)
        + (b.day - 1);
    let in_day_a = (a.hour * 60 + a.minute) * 60 + a.second;
    let in_day_b = (b.hour * 60 + b.minute) * 60 + b.second;
    assert(seconds_at(a) == days_a * 86400 + in_day_a);
    assert(seconds_at(b) == days_b * 86400 + in_day_b);
    assert(0 <= in_day_a < 86400 && 0 <= in_day_b < 86400);
    assert(days_a == days_b);
    assert(a.hour == b.hour && a.minute == b.minute && a.second == b.second);
    lemma_months_fill_year(a.year as int);
    lemma_months_fill_year(b.year as int);
    lemma_months_follow(a.year as int, a.month as int, 13);
    lemma_months_follow(b.year as int, b.month as int, 13);
    if a.month > 1 {
        lemma_months_follow(a.year as int, 1, a.month as int);
    }
    if b.month > 1 {
        lemma_months_follow(b.year as int, 1, b.month as int);
    }
    assert(days_before_year(a.year as int) <= days_a < days_before_year(a.year as int)
        + days_in_year(a.year as int));
    assert(days_before_year(b.year as int) <= days_b < days_before_year(b.year as int)
        + days_in_year(b.year as int));
    if a.year < b.year {
        lemma_years_follow(a.year as int, b.year as int);
    } else if b.year < a.year {
        lemma_years_follow(b.year as int, a.year as int);
    }
    assert(a.year == b.year);
    if a.month < b.month {
        lemma_months_follow(a.year as int, a.month as int, b.month as int);
    } else if b.month < a.month {
        lemma_months_follow(a.year as int, b.month as int, a.month as int);
    }
    assert(a.month == b.month);
}

/// A numeral of four or more digits needs no zeros in front.
pub proof fn lemma_four_digits(n: nat)
    requires
        n >= 1000,
    ensures
        zero_padded(n, 4) == decimal(n),
{
    reveal_with_fuel(decimal, 4);
    assert(decimal(n / 1000).len() >= 1);
    assert(decimal(n).len() >= 4);
}

/// The text `YYYY-MM-DD HH:MM:SS` of a date and time.
pub fn render(t: &CivilTime) -> (s: String)
    requires
        is_valid_civil(*t),
    ensures
        s@ == rendered(*t),
{
    let mut s = String::new();
    push_decimal(&mut s, t.year);
    s.push('-');
    push_two_digits(&mut s, t.month);
    s.push('-');
    push_two_digits(&mut s, t.day);
    s.push(' ');
    push_two_digits(&mut s, t.hour);
    s.push(':');
    push_two_digits(&mut s, t.minute);
    s.push(':');
    push_two_digits(&mut s, t.second);
    proof {
        lemma_four_digits(t.year as nat);
        assert(s@ =~= rendered(*t));
    }
    s
}

/// The time stamp of the moment `secs` seconds after the Unix epoch, in
/// UTC.
pub fn format_timestamp(secs: u64) -> (s: String)
    ensures
        exists|t: CivilTime| is_civil_time_of(secs as int, t) && s@ == rendered(t),
{
    let t = civil_from_seconds(secs);
    render(&t)
}

/// The time stamp of the present moment.
pub fn timestamp() -> (s: String)
    ensures
        exists|secs: u64, t: CivilTime| is_civil_time_of(secs as int, t) && s@ == rendered(t),
{
    let secs = seconds_since_epoch(now());
    let t = civil_from_seconds(secs);
    render(&t)
}

} // verus!
