//! Holiday detection and theme mapping logic.
use vstd::prelude::*;

use chrono::{Datelike, Duration, NaiveDate};

use crate::text::chars_of;

verus! {

/// A date of the proleptic Gregorian calendar.
#[derive(PartialEq, Eq, Structural, Clone, Copy, Debug)]
pub struct CalendarDate {
    pub year: i32,
    pub month: u32,
    pub day: u32,
}

/// The first year a date can have.
pub open spec fn first_year() -> int {
    -262143
}

/// The last year a date can have.
pub open spec fn last_year() -> int {
    262142
}

/// A leap year of the Gregorian calendar.
pub open spec fn is_leap(y: int) -> bool {
    (y % 4 == 0 && y % 100 != 0) || y % 400 == 0
}

/// Days in month `m` of year `y`.
pub open spec fn days_in_month(y: int, m: int) -> int {
    if m == 2 {
        if is_leap(y) {
            29
        } else {
            28
        }
    } else if m == 4 || m == 6 || m == 9 || m == 11 {
        30
    } else {
        31
    }
}

/// An existing date within the supported years.
pub open spec fn valid_date(y: int, m: int, d: int) -> bool {
    &&& first_year() <= y <= last_year()
    &&& 1 <= m <= 12
    &&& 1 <= d <= days_in_month(y, m)
}

/// Days of year `y` before month `m`.
pub open spec fn days_before_month(y: int, m: int) -> int {
    let leap = if is_leap(y) {
        1int
    } else {
        0int
    };
    if m <= 1 {
        0
    } else if m == 2 {
        31
    } else if m == 3 {
        59 + leap
    } else if m == 4 {
        90 + leap
    } else if m == 5 {
        120 + leap
    } else if m == 6 {
        151 + leap
    } else if m == 7 {
        181 + leap
    } else if m == 8 {
        212 + leap
    } else if m == 9 {
        243 + leap
    } else if m == 10 {
        273 + leap
    } else if m == 11 {
        304 + leap
    } else {
        334 + leap
    }
}

/// The day number of a date: January 1 of year 1 is day 1.
#[verifier::opaque]
pub open spec fn day_number(y: int, m: int, d: int) -> int {
    365 * (y - 1) + (y - 1) / 4 - (y - 1) / 100 + (y - 1) / 400 + days_before_month(y, m) + d
}

/// Day of the week, Monday being 0 (January 1 of year 1 was a Monday).
pub open spec fn weekday_of(y: int, m: int, d: int) -> int {
    (day_number(y, m, d) - 1) % 7
}

/// Some existing date has day number `n`.
pub open spec fn number_is_date(n: int) -> bool {
    exists|a: int, b: int, c: int| valid_date(a, b, c) && #[trigger] day_number(a, b, c) == n
}

/// Whether a date exists.
///
/// Trusted: calls `NaiveDate::from_ymd_opt`, which chrono documents as
/// returning `None` exactly for dates that do not exist or lie outside the
/// supported years.
#[verifier::external_body]
fn ymd_exists(y: i32, m: u32, d: u32) -> (r: bool)
    ensures
        r == valid_date(y as int, m as int, d as int),
{
    NaiveDate::from_ymd_opt(y, m, d).is_some()
}

/// Day of the week of an existing date, Monday being 0.
///
/// Trusted: calls `Datelike::weekday` and `Weekday::num_days_from_monday`
/// on the date; chrono counts days in the proleptic Gregorian calendar.
#[verifier::external_body]
fn weekday_from_monday(t: CalendarDate) -> (r: u32)
    requires
        valid_date(t.year as int, t.month as int, t.day as int),
    ensures
        r as int == weekday_of(t.year as int, t.month as int, t.day as int),
{
    match NaiveDate::from_ymd_opt(t.year, t.month, t.day) {
        Some(x) => x.weekday().num_days_from_monday(),
        None => 0,
    }
}

/// The next date.
///
/// Trusted: calls `NaiveDate::succ_opt`: the following calendar date, or
/// `None` past the last supported date.
#[verifier::external_body]
fn next_date(t: CalendarDate) -> (r: Option<CalendarDate>)
    requires
        valid_date(t.year as int, t.month as int, t.day as int),
    ensures
        r is Some <==> number_is_date(day_number(t.year as int, t.month as int, t.day as int) + 1),
        r matches Some(n) ==> valid_date(n.year as int, n.month as int, n.day as int) && day_number(
            n.year as int,
            n.month as int,
            n.day as int,
        ) == day_number(t.year as int, t.month as int, t.day as int) + 1,
{
    match NaiveDate::from_ymd_opt(t.year, t.month, t.day) {
        Some(x) => match x.succ_opt() {
            Some(n) => Some(CalendarDate { year: n.year(), month: n.month(), day: n.day() }),
            None => None,
        },
        None => None,
    }
}

/// The date `n` days later.
///
/// Trusted: calls `NaiveDate::checked_add_signed` with `Duration::days(n)`:
/// the date `n` days on, or `None` outside the supported dates.
#[verifier::external_body]
fn days_after(t: CalendarDate, n: i64) -> (r: Option<CalendarDate>)
    requires
        valid_date(t.year as int, t.month as int, t.day as int),
        0 <= n <= 1000,
    ensures
        r is Some <==> number_is_date(day_number(t.year as int, t.month as int, t.day as int) + n),
        r matches Some(x) ==> valid_date(x.year as int, x.month as int, x.day as int) && day_number(
            x.year as int,
            x.month as int,
            x.day as int,
        ) == day_number(t.year as int, t.month as int, t.day as int) + n,
{
    match NaiveDate::from_ymd_opt(t.year, t.month, t.day) {
        Some(x) => match x.checked_add_signed(Duration::days(n)) {
            Some(z) => Some(CalendarDate { year: z.year(), month: z.month(), day: z.day() }),
            None => None,
        },
        None => None,
    }
}

/// The date `n` days earlier.
///
/// Trusted: calls `NaiveDate::checked_sub_signed` with `Duration::days(n)`:
/// the date `n` days back, or `None` outside the supported dates.
#[verifier::external_body]
fn days_before(t: CalendarDate, n: i64) -> (r: Option<CalendarDate>)
    requires
        valid_date(t.year as int, t.month as int, t.day as int),
        0 <= n <= 1000,
    ensures
        r is Some <==> number_is_date(day_number(t.year as int, t.month as int, t.day as int) - n),
        r matches Some(x) ==> valid_date(x.year as int, x.month as int, x.day as int) && day_number(
            x.year as int,
            x.month as int,
            x.day as int,
        ) == day_number(t.year as int, t.month as int, t.day as int) - n,
{
    match NaiveDate::from_ymd_opt(t.year, t.month, t.day) {
        Some(x) => match x.checked_sub_signed(Duration::days(n)) {
            Some(z) => Some(CalendarDate { year: z.year(), month: z.month(), day: z.day() }),
            None => None,
        },
        None => None,
    }
}

/// Whether one date is on or before another.
///
/// Trusted: compares the two `NaiveDate`s with `<=`; chrono orders dates
/// chronologically.
#[verifier::external_body]
fn on_or_before(a: CalendarDate, b: CalendarDate) -> (r: bool)
    requires
        valid_date(a.year as int, a.month as int, a.day as int),
        valid_date(b.year as int, b.month as int, b.day as int),
    ensures
        r == (day_number(a.year as int, a.month as int, a.day as int) <= day_number(
            b.year as int,
            b.month as int,
            b.day as int,
        )),
{
    match (NaiveDate::from_ymd_opt(a.year, a.month, a.day), NaiveDate::from_ymd_opt(b.year, b.month, b.day)) {
        (Some(x), Some(z)) => x <= z,
        _ => false,
    }
}

/// Rust's integer division (rounding toward zero) by a positive divisor.
pub open spec fn trunc_div(a: int, b: int) -> int {
    if a >= 0 {
        a / b
    } else {
        -((-a) / b)
    }
}

/// Rust's remainder (sign of the dividend) by a positive divisor.
pub open spec fn trunc_rem(a: int, b: int) -> int {
    a - b * trunc_div(a, b)
}

/// The Meeus/Jones/Butcher computation of Easter Sunday for year `y`, as
/// `(month, day)` before they are checked to form a date.
pub open spec fn easter_raw(y: int) -> (int, int) {
    let a = trunc_rem(y, 19);
    let b = trunc_div(y, 100);
    let c = trunc_rem(y, 100);
    let d = trunc_div(b, 4);
    let e = trunc_rem(b, 4);
    let f = trunc_div(b + 8, 25);
    let g = trunc_div(b - f + 1, 3);
    let h = trunc_rem(19 * a + b - d - g + 15, 30);
    let i = trunc_div(c, 4);
    let k = trunc_rem(c, 4);
    let l = trunc_rem(32 + 2 * e + 2 * i - h - k, 7);
    let m = trunc_div(a + 11 * h + 22 * l, 451);
    (trunc_div(h + l - 7 * m + 114, 31), trunc_rem(h + l - 7 * m + 114, 31) + 1)
}

/// Easter Sunday of year `y`; January 1, 1970 when the computation does not
/// give a date.
pub open spec fn easter_sunday(y: int) -> (int, int, int) {
    let (m, d) = easter_raw(y);
    if valid_date(y, (m as u32) as int, (d as u32) as int) {
        (y, (m as u32) as int, (d as u32) as int)
    } else {
        (1970, 1, 1)
    }
}

proof fn lemma_trunc_bounds(a: int, b: int)
    requires
        b >= 1,
    ensures
        -b < trunc_rem(a, b) < b,
        a >= 0 ==> 0 <= trunc_div(a, b) <= a && 0 <= trunc_rem(a, b) <= a,
        a < 0 ==> a <= trunc_div(a, b) <= 0 && a <= trunc_rem(a, b) <= 0,
{
    if a >= 0 {
        assert(a / b <= a) by (nonlinear_arith)
            requires
                a >= 0,
                b >= 1,
        ;
        assert(0 <= a / b) by (nonlinear_arith)
            requires
                a >= 0,
                b >= 1,
        ;
        assert(0 <= a - b * (a / b) < b) by (nonlinear_arith)
            requires
                a >= 0,
                b >= 1,
        ;
    } else {
        let na = -a;
        assert(na / b <= na) by (nonlinear_arith)
            requires
                na > 0,
                b >= 1,
        ;
        assert(0 <= na / b) by (nonlinear_arith)
            requires
                na > 0,
                b >= 1,
        ;
        assert(0 <= na - b * (na / b) < b) by (nonlinear_arith)
            requires
                na > 0,
                b >= 1,
        ;
        let q = na / b;
        assert(b * (-q) == -(b * q)) by (nonlinear_arith);
        assert(trunc_div(a, b) == -q);
        assert(trunc_rem(a, b) == a - b * (-q));
    }
}

fn tdiv(a: i32, b: i32) -> (r: i32)
    requires
        b >= 1,
    ensures
        r as int == trunc_div(a as int, b as int),
        a >= 0 ==> 0 <= r <= a,
        a < 0 ==> a <= r <= 0,
{
    proof {
        lemma_trunc_bounds(a as int, b as int);
    }
    a / b
}

fn trem(a: i32, b: i32) -> (r: i32)
    requires
        b >= 1,
    ensures
        r as int == trunc_rem(a as int, b as int),
        -b < r < b,
        a >= 0 ==> 0 <= r,
        a < 0 ==> r <= 0,
{
    proof {
        lemma_trunc_bounds(a as int, b as int);
    }
    let q = a / b;
    proof {
        assert(b * q == a - trunc_rem(a as int, b as int));
    }
    a - b * q
}

/// The Easter computation for a year from 0 on, with floor division: the
/// date is day `easter_offset(y) - 92` of March (past 31: of April).
spec fn easter_offset(y: int) -> int {
    let a = y % 19;
    let b = y / 100;
    let c = y % 100;
    let d = b / 4;
    let e = b % 4;
    let f = (b + 8) / 25;
    let g = (b - f + 1) / 3;
    let h = (19 * a + b - d - g + 15) % 30;
    let i = c / 4;
    let k = c % 4;
    let l = (32 + 2 * e + 2 * i - h - k) % 7;
    let m = (a + 11 * h + 22 * l) / 451;
    h + l - 7 * m + 114
}

proof fn lemma_easter_raw_is(y: int)
    requires
        0 <= y <= last_year(),
    ensures
        easter_raw(y) == (easter_offset(y) / 31, easter_offset(y) % 31 + 1),
        114 <= easter_offset(y) <= 148,
{
    let a = y % 19;
    let b = y / 100;
    let c = y % 100;
    let d = b / 4;
    let e = b % 4;
    let f = (b + 8) / 25;
    let g = (b - f + 1) / 3;
    assert(0 <= a < 19 && b >= 0 && 0 <= c < 100);
    assert(0 <= d <= b && 0 <= e < 4);
    assert(0 <= f <= b + 1);
    assert(b - f + 1 >= 0);
    assert(0 <= g);
    assert(b - d - g >= 0);
    let h = (19 * a + b - d - g + 15) % 30;
    let i = c / 4;
    let k = c % 4;
    assert(0 <= h < 30 && 0 <= i < 25 && 0 <= k < 4);
    let l = (32 + 2 * e + 2 * i - h - k) % 7;
    assert(0 <= l < 7);
    let m = (a + 11 * h + 22 * l) / 451;
    assert(0 <= m <= 1);
    let x = h + l - 7 * m + 114;
    if m == 0 {
        assert(a + 11 * h + 22 * l < 451);
        assert(h + l <= 34);
    } else {
        assert(11 * h + 22 * l >= 433);
        assert(h + l >= 34);
    }
    assert(114 <= x <= 148);
    assert(trunc_rem(y, 19) == a);
    assert(trunc_div(y, 100) == b);
    assert(trunc_rem(y, 100) == c);
    assert(trunc_div(b, 4) == d);
    assert(trunc_rem(b, 4) == e);
    assert(trunc_div(b + 8, 25) == f);
    assert(trunc_div(b - f + 1, 3) == g);
    assert(trunc_rem(19 * a + b - d - g + 15, 30) == h);
    assert(trunc_div(c, 4) == i);
    assert(trunc_rem(c, 4) == k);
    assert(trunc_rem(32 + 2 * e + 2 * i - h - k, 7) == l);
    assert(trunc_div(a + 11 * h + 22 * l, 451) == m);
    assert(x == easter_offset(y));
}

/// For every year from 0 on, the computed Easter Sunday is a date between
/// March 22 and April 25 of that year.
pub proof fn lemma_easter_in_spring(y: int)
    requires
        0 <= y <= last_year(),
    ensures
        easter_sunday(y).0 == y,
        (easter_sunday(y).1 == 3 && 22 <= easter_sunday(y).2 <= 31) || (easter_sunday(y).1 == 4 && 1
            <= easter_sunday(y).2 <= 25),
{
    lemma_easter_raw_is(y);
    let x = easter_offset(y);
    if x < 124 {
        assert(x / 31 == 3);
    } else {
        assert(x / 31 == 4);
    }
    assert(valid_date(y, ((x / 31) as u32) as int, ((x % 31 + 1) as u32) as int));
}

proof fn lemma_leap_days_through(y: int)
    requires
        y >= 0,
    ensures
        (y - 1) / 4 - (y - 1) / 100 + (y - 1) / 400 + (if is_leap(y) { 1int } else { 0int }) == y / 4 - y / 100
            + y / 400,
{
    assert((y - 1) / 4 == y / 4 - (if y % 4 == 0 { 1int } else { 0int }));
    assert((y - 1) / 100 == y / 100 - (if y % 100 == 0 { 1int } else { 0int }));
    assert((y - 1) / 400 == y / 400 - (if y % 400 == 0 { 1int } else { 0int }));
}

proof fn lemma_easter_day_number(y: int)
    requires
        0 <= y <= last_year(),
    ensures
        day_number(easter_sunday(y).0, easter_sunday(y).1, easter_sunday(y).2) == 365 * (y - 1) + y / 4 - y / 100
            + y / 400 + easter_offset(y) - 33,
{
    lemma_easter_raw_is(y);
    lemma_easter_in_spring(y);
    lemma_leap_days_through(y);
    let x = easter_offset(y);
    reveal(day_number);
    if x < 124 {
        assert(x / 31 == 3 && x % 31 + 1 == x - 92);
    } else {
        assert(x / 31 == 4 && x % 31 + 1 == x - 123);
    }
}

proof fn lemma_easter_offset_mod(y: int)
    requires
        y >= 0,
    ensures
        (365 * (y - 1) + y / 4 - y / 100 + y / 400 + easter_offset(y) - 34) % 7 == 6,
{
    let b = y / 100;
    let c = y % 100;
    let d = b / 4;
    let e = b % 4;
    let i = c / 4;
    let k = c % 4;
    let a = y % 19;
    let f = (b + 8) / 25;
    let g = (b - f + 1) / 3;
    let h = (19 * a + b - d - g + 15) % 30;
    let t = 32 + 2 * e + 2 * i - h - k;
    let l = t % 7;
    let q = t / 7;
    let m = (a + 11 * h + 22 * l) / 451;
    assert(t == 7 * q + l);
    assert(easter_offset(y) == h + l - 7 * m + 114);
    assert(y == 100 * b + c && c == 4 * i + k && b == 4 * d + e);
    assert(y / 4 == 25 * b + i);
    assert(y / 400 == d);
    let n1 = 365 * (y - 1) + y / 4 - y / 100 + y / 400 + easter_offset(y) - 34;
    assert(n1 == 7 * (20871 * d + 5218 * e + 209 * i + 52 * k - 37 - q - m) + 6);
}

/// For every year from 0 on, the computed Easter date is a Sunday.
pub proof fn lemma_easter_is_sunday(y: int)
    requires
        0 <= y <= last_year(),
    ensures
        weekday_of(easter_sunday(y).0, easter_sunday(y).1, easter_sunday(y).2) == 6,
{
    lemma_easter_day_number(y);
    lemma_easter_offset_mod(y);
}

/// Meeus/Jones/Butcher algorithm for Easter Sunday (Gregorian calendar).
fn get_easter_sunday(year: i32) -> (r: CalendarDate)
    requires
        first_year() <= year <= last_year(),
    ensures
        (r.year as int, r.month as int, r.day as int) == easter_sunday(year as int),
        valid_date(r.year as int, r.month as int, r.day as int),
{
    let a = trem(year, 19);
    let b = tdiv(year, 100);
    let c = trem(year, 100);
    let d = tdiv(b, 4);
    let e = trem(b, 4);
    let f = tdiv(b + 8, 25);
    let g = tdiv(b - f + 1, 3);
    let h = trem(19 * a + b - d - g + 15, 30);
    let i = tdiv(c, 4);
    let k = trem(c, 4);
    let l = trem(32 + 2 * e + 2 * i - h - k, 7);
    let m = tdiv(a + 11 * h + 22 * l, 451);
    let x = h + l - 7 * m + 114;
    let month = tdiv(x, 31) as u32;
    let day = (trem(x, 31) + 1) as u32;
    if ymd_exists(year, month, day) {
        CalendarDate { year, month, day }
    } else {
        CalendarDate { year: 1970, month: 1, day: 1 }
    }
}


/// The day number of the fourth Thursday of November of year `y` (counted
/// from November 1, or from January 1, 1970 should that not be a date).
pub open spec fn thanksgiving_number(y: int) -> int {
    let first = if valid_date(y, 11, 1) {
        day_number(y, 11, 1)
    } else {
        day_number(1970, 1, 1)
    };
    first + (3 - (first - 1) % 7) % 7 + 21
}

proof fn lemma_day_number_same_month(y: int, m: int, d1: int, d2: int)
    ensures
        day_number(y, m, d2) == day_number(y, m, d1) + (d2 - d1),
{
    reveal(day_number);
}

proof fn lemma_epoch_thursday()
    ensures
        day_number(1970, 1, 1) == 719163,
        (day_number(1970, 1, 1) - 1) % 7 == 3,
{
    reveal(day_number);
}

proof fn lemma_weekday_step(x: int, w0: int, j: int)
    requires
        w0 == x % 7,
    ensures
        (x + j) % 7 == (w0 + j) % 7,
{
}

proof fn lemma_weekday_reaches_thursday(w0: int, j: int)
    requires
        0 <= w0 < 7,
        0 <= j <= (3 - w0) % 7,
    ensures
        (w0 + j) % 7 == 3 <==> j == (3 - w0) % 7,
        (3 - w0) % 7 <= 6,
{
}

/// Calculates US Thanksgiving (4th Thursday of November).
fn get_thanksgiving_thursday(year: i32) -> (r: CalendarDate)
    requires
        first_year() <= year <= last_year(),
    ensures
        valid_date(r.year as int, r.month as int, r.day as int),
        day_number(r.year as int, r.month as int, r.day as int) == thanksgiving_number(year as int),
{
    let ghost y = year as int;
    let first_of_nov = if ymd_exists(year, 11, 1) {
        CalendarDate { year, month: 11, day: 1 }
    } else {
        CalendarDate { year: 1970, month: 1, day: 1 }
    };
    let ghost start = day_number(first_of_nov.year as int, first_of_nov.month as int, first_of_nov.day as int);
    let ghost nov = valid_date(y, 11, 1);
    proof {
        assert(valid_date(1970, 1, 1));
        lemma_epoch_thursday();
    }
    let mut date = first_of_nov;
    let mut wd = weekday_from_monday(date);
    let ghost w0 = (start - 1) % 7;
    let ghost mut j: int = 0;
    while wd != 3
        invariant_except_break
            wd as int == (w0 + j) % 7,
        invariant
            valid_date(date.year as int, date.month as int, date.day as int),
            first_year() <= y <= last_year(),
            nov == valid_date(y, 11, 1),
            nov ==> start == day_number(y, 11, 1),
            !nov ==> (start - 1) % 7 == 3,
            0 <= j <= 6,
            day_number(date.year as int, date.month as int, date.day as int) == start + j,
            w0 == (start - 1) % 7,
            j <= (3 - w0) % 7,
            0 <= w0 < 7,
        ensures
            (w0 + j) % 7 == 3,
        decreases 6 - j,
    {
        proof {
            lemma_weekday_reaches_thursday(w0, j);
            assert(nov);
            assert(valid_date(y, 11, j + 2));
            lemma_day_number_same_month(y, 11, 1, j + 2);
            assert(day_number(y, 11, j + 2) == start + j + 1);
            assert(number_is_date(start + j + 1));
        }
        match next_date(date) {
            Some(n) => {
                date = n;
            },
            None => {
                // unreachable: some date follows every November day before the 8th
                break;
            },
        }
        proof {
            j = j + 1;
        }
        wd = weekday_from_monday(date);
        proof {
            lemma_weekday_step(start - 1, w0, j);
        }
    }
    proof {
        lemma_weekday_reaches_thursday(w0, j);
        assert(j == (3 - w0) % 7);
        let dd = if nov { j + 22 } else { 22 };
        let yy = if nov { y } else { 1970 };
        let mm = if nov { 11int } else { 1int };
        assert(valid_date(yy, mm, dd));
        if nov {
            lemma_day_number_same_month(y, 11, 1, dd);
        } else {
            lemma_day_number_same_month(1970, 1, 1, dd);
        }
        assert(day_number(yy, mm, dd) == start + j + 21);
        assert(number_is_date(start + j + 21));
    }
    match days_after(date, 21) {
        Some(t) => t,
        None => date,
    }
}

/// The Easter holiday runs from Good Friday to Easter Monday.
pub open spec fn in_easter(y: int, n: int) -> bool {
    let e = easter_sunday(y);
    let en = day_number(e.0, e.1, e.2);
    number_is_date(en - 2) && number_is_date(en + 1) && en - 2 <= n <= en + 1
}

/// The Thanksgiving holiday runs from Thursday to Sunday.
pub open spec fn in_thanksgiving(y: int, n: int) -> bool {
    let t = thanksgiving_number(y);
    number_is_date(t + 3) && t <= n <= t + 3
}

/// The holiday (theme prefix, display name) of a date, if any.
pub open spec fn holiday_of(y: int, m: int, d: int) -> Option<(Seq<char>, Seq<char>)> {
    let n = day_number(y, m, d);
    if (m == 12 && d == 31) || (m == 1 && d == 1) {
        Some(("newyear"@, "New Year's"@))
    } else if m == 2 && 12 <= d <= 14 {
        Some(("valentine"@, "Valentine's Day"@))
    } else if m == 3 && 15 <= d <= 17 {
        Some(("stpatrick"@, "St. Patrick's Day"@))
    } else if in_easter(y, n) {
        Some(("easter"@, "Easter"@))
    } else if m == 7 && 3 <= d <= 5 {
        Some(("independence"@, "Independence Day"@))
    } else if m == 10 && 25 <= d <= 31 {
        Some(("halloween"@, "Halloween"@))
    } else if in_thanksgiving(y, n) {
        Some(("thanksgiving"@, "Thanksgiving"@))
    } else if m == 12 && 20 <= d <= 26 {
        Some(("christmas"@, "Christmas"@))
    } else {
        None
    }
}

/// Checks if a date falls within a holiday spread, returning its prefix and
/// user-facing name (see [`holiday_of`]).
pub fn get_holiday_for_date(date: CalendarDate) -> (r: Option<(&'static str, &'static str)>)
    requires
        valid_date(date.year as int, date.month as int, date.day as int),
    ensures
        match (r, holiday_of(date.year as int, date.month as int, date.day as int)) {
            (None, None) => true,
            (Some((p, name)), Some((sp, sname))) => p@ == sp && name@ == sname,
            _ => false,
        },
{
    let year = date.year;
    let month = date.month;
    let day = date.day;
    if (month == 12 && day == 31) || (month == 1 && day == 1) {
        return Some(("newyear", "New Year's"));
    }
    if month == 2 && 12 <= day && day <= 14 {
        return Some(("valentine", "Valentine's Day"));
    }
    if month == 3 && 15 <= day && day <= 17 {
        return Some(("stpatrick", "St. Patrick's Day"));
    }
    let easter = get_easter_sunday(year);
    match (days_before(easter, 2), days_after(easter, 1)) {
        (Some(good_friday), Some(easter_monday)) => {
            if on_or_before(good_friday, date) && on_or_before(date, easter_monday) {
                return Some(("easter", "Easter"));
            }
        },
        _ => {},
    }
    if month == 7 && 3 <= day && day <= 5 {
        return Some(("independence", "Independence Day"));
    }
    if month == 10 && 25 <= day && day <= 31 {
        return Some(("halloween", "Halloween"));
    }
    let thanksgiving = get_thanksgiving_thursday(year);
    match days_after(thanksgiving, 3) {
        Some(thanksgiving_sunday) => {
            if on_or_before(thanksgiving, date) && on_or_before(date, thanksgiving_sunday) {
                return Some(("thanksgiving", "Thanksgiving"));
            }
        },
        None => {},
    }
    if month == 12 && 20 <= day && day <= 26 {
        return Some(("christmas", "Christmas"));
    }
    None
}

fn starts_with_text(s: &Vec<char>, p: &str) -> (r: bool)
    ensures
        r == (p@.len() <= s@.len() && s@.subrange(0, p@.len() as int) == p@),
{
    let pc = chars_of(p);
    if pc.len() > s.len() {
        return false;
    }
    let mut i: usize = 0;
    while i < pc.len()
        invariant
            pc@ == p@,
            pc.len() <= s.len(),
            i <= pc.len(),
            forall|k: int| 0 <= k < i ==> s@[k] == pc@[k],
        decreases pc.len() - i,
    {
        if s[i] != pc[i] {
            proof {
                assert(s@.subrange(0, p@.len() as int)[i as int] != p@[i as int]);
            }
            return false;
        }
        i = i + 1;
    }
    proof {
        assert(s@.subrange(0, p@.len() as int) =~= p@);
    }
    true
}

/// `s` begins with `p`.
pub open spec fn has_prefix(s: Seq<char>, p: Seq<char>) -> bool {
    p.len() <= s.len() && s.subrange(0, p.len() as int) == p
}

/// A holiday theme name: a holiday prefix followed by `-`.
pub open spec fn holiday_theme(theme: Seq<char>) -> bool {
    ||| has_prefix(theme, "newyear-"@)
    ||| has_prefix(theme, "valentine-"@)
    ||| has_prefix(theme, "stpatrick-"@)
    ||| has_prefix(theme, "easter-"@)
    ||| has_prefix(theme, "independence-"@)
    ||| has_prefix(theme, "halloween-"@)
    ||| has_prefix(theme, "thanksgiving-"@)
    ||| has_prefix(theme, "christmas-"@)
}

/// Helper to check if a theme string belongs to a holiday.
pub fn is_holiday_theme(theme: &str) -> (r: bool)
    ensures
        r == holiday_theme(theme@),
{
    let t = chars_of(theme);
    starts_with_text(&t, "newyear-") || starts_with_text(&t, "valentine-") || starts_with_text(&t, "stpatrick-")
        || starts_with_text(&t, "easter-") || starts_with_text(&t, "independence-") || starts_with_text(&t, "halloween-")
        || starts_with_text(&t, "thanksgiving-") || starts_with_text(&t, "christmas-")
}

proof fn lemma_dash_prefix(p: Seq<char>, pd: Seq<char>, s: Seq<char>)
    requires
        pd == p + "-"@,
    ensures
        has_prefix(p + "-"@ + s, pd),
{
    assert((p + "-"@ + s).subrange(0, pd.len() as int) =~= pd);
}

/// Every holiday found for a date names a theme family: its prefix, a `-`
/// and any suffix make a holiday theme.
pub proof fn lemma_holiday_prefix_is_theme(y: int, m: int, d: int, suffix: Seq<char>)
    ensures
        holiday_of(y, m, d) matches Some((p, _)) ==> holiday_theme(p + "-"@ + suffix),
{
    reveal_strlit("-");
    reveal_strlit("newyear");
    reveal_strlit("newyear-");
    assert("newyear-"@ =~= "newyear"@ + "-"@);
    reveal_strlit("valentine");
    reveal_strlit("valentine-");
    assert("valentine-"@ =~= "valentine"@ + "-"@);
    reveal_strlit("stpatrick");
    reveal_strlit("stpatrick-");
    assert("stpatrick-"@ =~= "stpatrick"@ + "-"@);
    reveal_strlit("easter");
    reveal_strlit("easter-");
    assert("easter-"@ =~= "easter"@ + "-"@);
    reveal_strlit("independence");
    reveal_strlit("independence-");
    assert("independence-"@ =~= "independence"@ + "-"@);
    reveal_strlit("halloween");
    reveal_strlit("halloween-");
    assert("halloween-"@ =~= "halloween"@ + "-"@);
    reveal_strlit("thanksgiving");
    reveal_strlit("thanksgiving-");
    assert("thanksgiving-"@ =~= "thanksgiving"@ + "-"@);
    reveal_strlit("christmas");
    reveal_strlit("christmas-");
    assert("christmas-"@ =~= "christmas"@ + "-"@);
    if let Some((p, _)) = holiday_of(y, m, d) {
        lemma_dash_prefix(p, p + "-"@, suffix);
    }
}

proof fn lemma_easter_month_early(y: int)
    requires
        first_year() <= y < 0,
    ensures
        easter_sunday(y) == (1970int, 1int, 1int) || (easter_sunday(y).0 == y && 1 <= easter_sunday(y).1 <= 5),
{
    let a = trunc_rem(y, 19);
    let b = trunc_div(y, 100);
    let c = trunc_rem(y, 100);
    let d = trunc_div(b, 4);
    let e = trunc_rem(b, 4);
    let f = trunc_div(b + 8, 25);
    let g = trunc_div(b - f + 1, 3);
    let h = trunc_rem(19 * a + b - d - g + 15, 30);
    let i = trunc_div(c, 4);
    let k = trunc_rem(c, 4);
    let l = trunc_rem(32 + 2 * e + 2 * i - h - k, 7);
    let v = a + 11 * h + 22 * l;
    let m = trunc_div(v, 451);
    lemma_trunc_bounds(y, 19);
    lemma_trunc_bounds(19 * a + b - d - g + 15, 30);
    lemma_trunc_bounds(32 + 2 * e + 2 * i - h - k, 7);
    assert(-469 <= v <= 469);
    assert(-1 <= m <= 1);
    let x = h + l - 7 * m + 114;
    assert(72 <= x <= 156);
    assert(easter_raw(y).0 == trunc_div(x, 31));
    assert(2 <= x / 31 <= 5);
    let mo = easter_raw(y).0;
    assert((mo as u32) as int == mo);
}

proof fn lemma_no_easter_in_late_december(y: int, d: int)
    requires
        valid_date(y, 12, d),
        20 <= d <= 26,
    ensures
        !in_easter(y, day_number(y, 12, d)),
{
    let e = easter_sunday(y);
    if y >= 0 {
        lemma_easter_in_spring(y);
        reveal(day_number);
    } else {
        lemma_easter_month_early(y);
        reveal(day_number);
        if e == (1970int, 1int, 1int) {
            assert(day_number(y, 12, d) < day_number(1970, 1, 1) - 2);
        }
    }
}

proof fn lemma_no_thanksgiving_in_late_december(y: int, d: int)
    requires
        valid_date(y, 12, d),
        20 <= d <= 26,
    ensures
        !in_thanksgiving(y, day_number(y, 12, d)),
{
    assert(valid_date(y, 11, 1));
    let first = day_number(y, 11, 1);
    assert(0 <= (3 - (first - 1) % 7) % 7 <= 6);
    reveal(day_number);
}

/// Christmas runs from December 20 to 26: every such date of every year is
/// the Christmas holiday.
pub proof fn lemma_christmas_week(y: int, d: int)
    requires
        valid_date(y, 12, d),
        20 <= d <= 26,
    ensures
        holiday_of(y, 12, d) == Some(("christmas"@, "Christmas"@)),
{
    lemma_no_easter_in_late_december(y, d);
    lemma_no_thanksgiving_in_late_december(y, d);
}

proof fn lemma_no_easter_from_july(y: int, m: int, d: int)
    requires
        valid_date(y, m, d),
        m >= 7,
    ensures
        !in_easter(y, day_number(y, m, d)),
{
    let e = easter_sunday(y);
    if y >= 0 {
        lemma_easter_in_spring(y);
        reveal(day_number);
    } else {
        lemma_easter_month_early(y);
        reveal(day_number);
        if e == (1970int, 1int, 1int) {
            assert(day_number(y, m, d) < day_number(1970, 1, 1) - 2);
        }
    }
}

proof fn lemma_no_thanksgiving_before_november(y: int, m: int, d: int)
    requires
        valid_date(y, m, d),
        m <= 10,
    ensures
        !in_thanksgiving(y, day_number(y, m, d)),
{
    assert(valid_date(y, 11, 1));
    let first = day_number(y, 11, 1);
    assert(0 <= (3 - (first - 1) % 7) % 7 <= 6);
    reveal(day_number);
}

/// The holidays with fixed dates hold every year: New Year's on December 31
/// and January 1, Valentine's Day on February 12 to 14, St. Patrick's Day on
/// March 15 to 17, Independence Day on July 3 to 5, Halloween on October 25
/// to 31, Christmas on December 20 to 26.
pub proof fn lemma_fixed_holiday_windows(y: int, m: int, d: int)
    requires
        valid_date(y, m, d),
    ensures
        (m == 12 && d == 31) || (m == 1 && d == 1) ==> holiday_of(y, m, d) == Some(("newyear"@, "New Year's"@)),
        m == 2 && 12 <= d <= 14 ==> holiday_of(y, m, d) == Some(("valentine"@, "Valentine's Day"@)),
        m == 3 && 15 <= d <= 17 ==> holiday_of(y, m, d) == Some(("stpatrick"@, "St. Patrick's Day"@)),
        m == 7 && 3 <= d <= 5 ==> holiday_of(y, m, d) == Some(("independence"@, "Independence Day"@)),
        m == 10 && 25 <= d <= 31 ==> holiday_of(y, m, d) == Some(("halloween"@, "Halloween"@)),
        m == 12 && 20 <= d <= 26 ==> holiday_of(y, m, d) == Some(("christmas"@, "Christmas"@)),
{
    if m == 7 || m == 10 {
        lemma_no_easter_from_july(y, m, d);
        lemma_no_thanksgiving_before_november(y, m, d);
    }
    if m == 12 && 20 <= d <= 26 {
        lemma_christmas_week(y, d);
    }
}

/// Easter runs from Good Friday to Easter Monday: for every year from 0 on,
/// each date from two days before the computed Easter Sunday to the day
/// after it is the Easter holiday.
pub proof fn lemma_easter_window(y: int, m: int, d: int)
    requires
        0 <= y <= last_year(),
        valid_date(y, m, d),
        day_number(easter_sunday(y).0, easter_sunday(y).1, easter_sunday(y).2) - 2 <= day_number(y, m, d)
            <= day_number(easter_sunday(y).0, easter_sunday(y).1, easter_sunday(y).2) + 1,
    ensures
        holiday_of(y, m, d) == Some(("easter"@, "Easter"@)),
{
    lemma_easter_in_spring(y);
    let e = easter_sunday(y);
    let en = day_number(e.0, e.1, e.2);
    let n = day_number(y, m, d);
    reveal(day_number);
    // two days before
    if e.1 == 3 {
        assert(valid_date(y, 3, e.2 - 2) && day_number(y, 3, e.2 - 2) == en - 2);
    } else if e.2 >= 3 {
        assert(valid_date(y, 4, e.2 - 2) && day_number(y, 4, e.2 - 2) == en - 2);
    } else {
        assert(valid_date(y, 3, 29 + e.2) && day_number(y, 3, 29 + e.2) == en - 2);
    }
    // the day after
    if e.1 == 3 && e.2 <= 30 {
        assert(valid_date(y, 3, e.2 + 1) && day_number(y, 3, e.2 + 1) == en + 1);
    } else if e.1 == 3 {
        assert(valid_date(y, 4, 1) && day_number(y, 4, 1) == en + 1);
    } else {
        assert(valid_date(y, 4, e.2 + 1) && day_number(y, 4, e.2 + 1) == en + 1);
    }
    assert(in_easter(y, n));
    assert(m == 3 || m == 4);
    assert(m == 3 ==> d >= 20);
}

proof fn lemma_thanksgiving_day(y: int, dd: int)
    requires
        valid_date(y, 11, dd),
        22 <= dd <= 28,
        weekday_of(y, 11, dd) == 3,
    ensures
        thanksgiving_number(y) == day_number(y, 11, dd),
{
    assert(valid_date(y, 11, 1));
    lemma_day_number_same_month(y, 11, 1, dd);
    let first = day_number(y, 11, 1);
    assert((first + dd - 2) % 7 == 3);
    let r = (first - 1) % 7;
    assert((3 - r) % 7 + 21 == dd - 1);
}

proof fn lemma_december_after_november(y: int, k: int)
    ensures
        day_number(y, 12, k) == day_number(y, 11, 1) + 29 + k,
{
    reveal(day_number);
}

/// Thanksgiving runs from the fourth Thursday of November to the Sunday
/// after: for every supported year, the Thursday among November 22 to 28 and
/// the three days after it (into December 1 when it is the 28th) are the
/// Thanksgiving holiday, and the Wednesday before is not a holiday.
pub proof fn lemma_thanksgiving_window(y: int, dd: int, j: int)
    requires
        valid_date(y, 11, dd),
        22 <= dd <= 28,
        weekday_of(y, 11, dd) == 3,
        0 <= j <= 3,
    ensures
        dd + j <= 30 ==> holiday_of(y, 11, dd + j) == Some(("thanksgiving"@, "Thanksgiving"@)),
        dd + j == 31 ==> holiday_of(y, 12, 1) == Some(("thanksgiving"@, "Thanksgiving"@)),
        holiday_of(y, 11, dd - 1) is None,
{
    lemma_thanksgiving_day(y, dd);
    let t = thanksgiving_number(y);
    lemma_day_number_same_month(y, 11, dd, dd + j);
    lemma_day_number_same_month(y, 11, dd, dd - 1);
    lemma_day_number_same_month(y, 11, 1, dd);
    lemma_december_after_november(y, 1);
    if dd + 3 <= 30 {
        lemma_day_number_same_month(y, 11, dd, dd + 3);
        assert(valid_date(y, 11, dd + 3) && day_number(y, 11, dd + 3) == t + 3);
    } else {
        assert(valid_date(y, 12, 1) && day_number(y, 12, 1) == t + 3);
    }
    if dd + j <= 30 {
        lemma_no_easter_from_july(y, 11, dd + j);
    } else {
        lemma_no_easter_from_july(y, 12, 1);
    }
    lemma_no_easter_from_july(y, 11, dd - 1);
}

/// A date is a holiday only inside that holiday's window: New Year's on
/// December 31 or January 1, Valentine's Day on February 12 to 14, St.
/// Patrick's Day on March 15 to 17, Easter from Good Friday to Easter
/// Monday, Independence Day on July 3 to 5, Halloween on October 25 to 31,
/// Thanksgiving from its Thursday to the Sunday after, Christmas on
/// December 20 to 26.
pub proof fn lemma_holiday_only_in_window(y: int, m: int, d: int)
    ensures
        holiday_of(y, m, d) matches Some((p, _)) ==> {
            let n = day_number(y, m, d);
            &&& p == "newyear"@ ==> (m == 12 && d == 31) || (m == 1 && d == 1)
            &&& p == "valentine"@ ==> m == 2 && 12 <= d <= 14
            &&& p == "stpatrick"@ ==> m == 3 && 15 <= d <= 17
            &&& p == "easter"@ ==> in_easter(y, n)
            &&& p == "independence"@ ==> m == 7 && 3 <= d <= 5
            &&& p == "halloween"@ ==> m == 10 && 25 <= d <= 31
            &&& p == "thanksgiving"@ ==> in_thanksgiving(y, n)
            &&& p == "christmas"@ ==> m == 12 && 20 <= d <= 26
        },
{
    reveal_strlit("newyear");
    reveal_strlit("valentine");
    reveal_strlit("stpatrick");
    reveal_strlit("easter");
    reveal_strlit("independence");
    reveal_strlit("halloween");
    reveal_strlit("thanksgiving");
    reveal_strlit("christmas");
    assert("newyear"@.len() != "valentine"@.len());
    assert("newyear"@.len() != "stpatrick"@.len());
    assert("newyear"@.len() != "easter"@.len());
    assert("newyear"@.len() != "independence"@.len());
    assert("newyear"@.len() != "halloween"@.len());
    assert("newyear"@.len() != "thanksgiving"@.len());
    assert("newyear"@.len() != "christmas"@.len());
    assert("valentine"@[0] != "stpatrick"@[0]);
    assert("valentine"@.len() != "easter"@.len());
    assert("valentine"@.len() != "independence"@.len());
    assert("valentine"@[0] != "halloween"@[0]);
    assert("valentine"@.len() != "thanksgiving"@.len());
    assert("valentine"@[0] != "christmas"@[0]);
    assert("stpatrick"@.len() != "easter"@.len());
    assert("stpatrick"@.len() != "independence"@.len());
    assert("stpatrick"@[0] != "halloween"@[0]);
    assert("stpatrick"@.len() != "thanksgiving"@.len());
    assert("stpatrick"@[0] != "christmas"@[0]);
    assert("easter"@.len() != "independence"@.len());
    assert("easter"@.len() != "halloween"@.len());
    assert("easter"@.len() != "thanksgiving"@.len());
    assert("easter"@.len() != "christmas"@.len());
    assert("independence"@.len() != "halloween"@.len());
    assert("independence"@[0] != "thanksgiving"@[0]);
    assert("independence"@.len() != "christmas"@.len());
    assert("halloween"@.len() != "thanksgiving"@.len());
    assert("halloween"@[0] != "christmas"@[0]);
    assert("thanksgiving"@.len() != "christmas"@.len());
}

} // verus!
