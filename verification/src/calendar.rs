//! Dates of the Gregorian calendar, counted in days.

use vstd::prelude::*;

use crate::number::padded;
use crate::text::digits;

verus! {

pub open spec fn is_leap(year: int) -> bool {
    year % 4 == 0 && (year % 100 != 0 || year % 400 == 0)
}

pub open spec fn month_length(year: int, month: int) -> int {
    if month == 2 {
        if is_leap(year) {
            29
        } else {
            28
        }
    } else if month == 4 || month == 6 || month == 9 || month == 11 {
        30
    } else {
        31
    }
}

/// The days of a year before one of its months.
pub open spec fn before_month(year: int, month: int) -> int
    decreases month,
{
    if month <= 1 {
        0
    } else {
        before_month(year, month - 1) + month_length(year, month - 1)
    }
}

/// The days before a year, from the year one on.
pub open spec fn before_year(year: int) -> int {
    365 * (year - 1) + (year - 1) / 4 - (year - 1) / 100 + (year - 1) / 400
}

pub open spec fn is_date(year: int, month: int, day: int) -> bool {
    1 <= month <= 12 && 1 <= day <= month_length(year, month)
}

/// The number of a date: that of the first of January of the year one is one.
pub open spec fn day_number(year: int, month: int, day: int) -> int {
    before_year(year) + before_month(year, month) + day
}

/// The last year that dates are kept for.
pub const LAST_YEAR: i32 = 262_142;

/// The number of the last day that dates are kept for.
pub open spec fn last_day() -> int {
    before_year(LAST_YEAR + 1)
}

/// A year as it is written: four digits, and a sign in front of more.
pub open spec fn year_text(year: int) -> Seq<char> {
    if year <= 9999 {
        padded(year as nat, 4)
    } else {
        seq!['+'] + digits(year as nat)
    }
}

/// A date as it is written: day, month and year.
pub open spec fn shown(year: int, month: int, day: int) -> Seq<char> {
    padded(day as nat, 2) + seq!['/'] + padded(month as nat, 2) + seq!['/'] + year_text(year)
}

/// Whether a text is the date that is `days` after another.
pub open spec fn shows_day(text: Seq<char>, number: int) -> bool {
    exists|year: int, month: int, day: int|
        #![trigger is_date(year, month, day)]
        1 <= year <= LAST_YEAR && is_date(year, month, day) && day_number(year, month, day)
            == number && text == shown(year, month, day)
}

/// `NaiveDate::from_ymd_opt`, `NaiveDate::checked_add_signed` with
/// `chrono::Duration::days`, and `NaiveDate::format`: the date that many days
/// after another, as it is written; nothing if it is past the last there is. A
/// count of days that `chrono::Duration::days` does not take, and any other
/// format, are left out.
#[verifier::external_body]
pub(crate) fn date_after(year: i32, month: u32, day: u32, days: i64, format: &str) -> (text: Option<
    String,
>)
    requires
        1 <= year <= LAST_YEAR,
        is_date(year as int, month as int, day as int),
        0 <= days <= 106_751_991_167,
        format@ == "%d/%m/%Y"@,
    ensures
        ({
            let number = day_number(year as int, month as int, day as int) + days;
            match text {
                Some(text) => number <= last_day() && shows_day(text@, number),
                None => number > last_day(),
            }
        }),
{
    let date = chrono::NaiveDate::from_ymd_opt(year, month, day)?;
    let date = date.checked_add_signed(chrono::Duration::days(days))?;
    Some(date.format(format).to_string())
}

// ---- laws ---------------------------------------------------------------

proof fn a_year_is_its_months(year: int)
    ensures
        before_month(year, 13) == if is_leap(year) {
            366int
        } else {
            365
        },
{
    reveal_with_fuel(before_month, 13);
}

proof fn one_more_every(y: int, n: int)
    requires
        n > 0,
    ensures
        y / n - (y - 1) / n == if y % n == 0 {
            1int
        } else {
            0
        },
{
    let q = y / n;
    let r = y % n;
    vstd::arithmetic::div_mod::lemma_fundamental_div_mod(y, n);
    vstd::arithmetic::div_mod::lemma_mod_bound(y, n);
    if r == 0 {
        assert(y - 1 == n * (q - 1) + (n - 1)) by (nonlinear_arith)
            requires
                y == n * q + r,
                r == 0,
        ;
        vstd::arithmetic::div_mod::lemma_fundamental_div_mod_converse(y - 1, n, q - 1, n - 1);
    } else {
        assert(y - 1 == n * q + (r - 1));
        vstd::arithmetic::div_mod::lemma_fundamental_div_mod_converse(y - 1, n, q, r - 1);
    }
}

proof fn years_follow(year: int)
    ensures
        before_year(year + 1) == before_year(year) + before_month(year, 13),
{
    a_year_is_its_months(year);
    one_more_every(year, 4);
    one_more_every(year, 100);
    one_more_every(year, 400);
    assert(year % 100 == 0 ==> year % 4 == 0);
    assert(year % 400 == 0 ==> year % 100 == 0);
}

proof fn years_grow(a: int, b: int)
    requires
        a <= b,
    ensures
        before_year(a) <= before_year(b),
    decreases b - a,
{
    if a < b {
        years_grow(a, b - 1);
        years_follow(b - 1);
        a_year_is_its_months(b - 1);
    }
}

proof fn months_grow(year: int, a: int, b: int)
    requires
        1 <= a <= b <= 13,
    ensures
        before_month(year, a) <= before_month(year, b),
    decreases b - a,
{
    if a < b {
        months_grow(year, a, b - 1);
    }
}

/// A date falls within its month, and its month within its year.
proof fn within_the_year(year: int, month: int, day: int)
    requires
        is_date(year, month, day),
    ensures
        before_month(year, month) < before_month(year, month) + day <= before_month(
            year,
            month + 1,
        ),
        before_year(year) < day_number(year, month, day) <= before_year(year + 1),
{
    months_grow(year, 1, month);
    months_grow(year, month + 1, 13);
    years_follow(year);
}

/// Days are counted in the order of the calendar: no two dates have the same
/// number, and a later one has a greater.
pub proof fn days_are_counted_in_order(
    year: int,
    month: int,
    day: int,
    then_year: int,
    then_month: int,
    then_day: int,
)
    requires
        is_date(year, month, day),
        is_date(then_year, then_month, then_day),
        year < then_year || (year == then_year && (month < then_month || (month == then_month && day
            < then_day))),
    ensures
        day_number(year, month, day) < day_number(then_year, then_month, then_day),
{
    within_the_year(year, month, day);
    within_the_year(then_year, then_month, then_day);
    if year < then_year {
        years_grow(year + 1, then_year);
    } else if month < then_month {
        months_grow(year, month + 1, then_month);
    }
}

/// No date is further from the last than days can be counted.
pub proof fn the_last_day_is_in_reach(year: int, month: int, day: int)
    requires
        year >= 1,
        is_date(year, month, day),
    ensures
        day_number(year, month, day) > 0,
        last_day() < 106_751_991_167,
{
    within_the_year(year, month, day);
    years_grow(1, year);
}

/// One number is shown one way.
pub proof fn a_day_is_shown_one_way(one: Seq<char>, other: Seq<char>, number: int)
    requires
        shows_day(one, number),
        shows_day(other, number),
    ensures
        one == other,
{
    let (y, m, d) = choose|year: int, month: int, day: int|
        #![trigger is_date(year, month, day)]
        1 <= year <= LAST_YEAR && is_date(year, month, day) && day_number(year, month, day)
            == number && one == shown(year, month, day);
    let (y2, m2, d2) = choose|year: int, month: int, day: int|
        #![trigger is_date(year, month, day)]
        1 <= year <= LAST_YEAR && is_date(year, month, day) && day_number(year, month, day)
            == number && other == shown(year, month, day);
    if (y, m, d) != (y2, m2, d2) {
        if y < y2 || (y == y2 && (m < m2 || (m == m2 && d < d2))) {
            days_are_counted_in_order(y, m, d, y2, m2, d2);
        } else {
            days_are_counted_in_order(y2, m2, d2, y, m, d);
        }
    }
}

} // verus!
