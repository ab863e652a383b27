//! Log lines with the time in UTC, written from the seconds since the Unix epoch.
use vstd::arithmetic::div_mod::lemma_fundamental_div_mod_converse;
use vstd::prelude::*;
use vstd::string::*;

use crate::text::{
    decimal, decimal_digits, decimal_is_the_notation, notation_reads_back, number, push_padded,
    zero_padded,
};

verus! {

/// Seconds in a day.
pub const DAY: u64 = 86_400;

/// Whether the Gregorian calendar gives `year` a leap day.
pub open spec fn is_leap(year: int) -> bool {
    year % 4 == 0 && (year % 100 != 0 || year % 400 == 0)
}

/// The number of days of a month.
pub open spec fn month_days(year: int, month: int) -> int {
    if month == 2 {
        if is_leap(year) {
            29
        } else {
            28
        }
    } else if month == 4 || month == 6 || month == 9 || month == 11 {
        30
    } else {
        31
    }
}

/// The number of days of a year.
pub open spec fn year_days(year: int) -> int {
    if is_leap(year) {
        366
    } else {
        365
    }
}

/// The days from the first of January 1970 to the first of January of `year`.
pub open spec fn days_to_year(year: int) -> int
    decreases year - 1970,
{
    if year <= 1970 {
        0
    } else {
        days_to_year(year - 1) + year_days(year - 1)
    }
}

/// The days from the first of January of `year` to the first of `month`.
pub open spec fn days_to_month(year: int, month: int) -> int
    decreases month,
{
    if month <= 1 {
        0
    } else {
        days_to_month(year, month - 1) + month_days(year, month - 1)
    }
}

/// A date of the Gregorian calendar, from 1970 on.
#[derive(Clone, Copy, Debug)]
pub struct Date {
    pub year: u64,
    pub month: u64,
    pub day: u64,
}

impl Date {
    /// Whether the calendar has the date.
    pub open spec fn valid(self) -> bool {
        &&& 1970 <= self.year
        &&& 1 <= self.month <= 12
        &&& 1 <= self.day <= month_days(self.year as int, self.month as int)
    }

    /// The number of days since the first of January 1970.
    pub open spec fn day_number(self) -> int {
        days_to_year(self.year as int) + days_to_month(self.year as int, self.month as int)
            + self.day - 1
    }
}

/// Leap days of the years from 1 to `year`.
spec fn leap_days(year: int) -> int {
    year / 4 - year / 100 + year / 400
}

#[verifier::spinoff_prover]
proof fn days_to_year_closed(year: int)
    requires
        1970 <= year,
    ensures
        days_to_year(year) == 365 * (year - 1970) + leap_days(year - 1) - 477,
    decreases year,
{
    if year > 1970 {
        days_to_year_closed(year - 1);
    }
}

/// Days from the first of March to the first of `month`, for the months up to the next February.
spec fn days_from_march(month: int) -> int {
    if month == 3 { 0 }
    else if month == 4 { 31 }
    else if month == 5 { 61 }
    else if month == 6 { 92 }
    else if month == 7 { 122 }
    else if month == 8 { 153 }
    else if month == 9 { 184 }
    else if month == 10 { 214 }
    else if month == 11 { 245 }
    else if month == 12 { 275 }
    else if month == 1 { 306 }
    else { 337 }
}

proof fn days_to_month_closed(year: int, month: int)
    requires
        1 <= month <= 12,
    ensures
        days_to_month(year, month) == (if month <= 2 {
            days_from_march(month) - 306
        } else {
            days_from_march(month) + 59 + (if is_leap(year) { 1int } else { 0 })
        }),
{
    reveal_with_fuel(days_to_month, 13);
}

/// The year of the era: day `doe` of the 400 years from a first of March lies in year `yoe`.
#[verifier::spinoff_prover]
proof fn year_of_era(doe: int, yoe: int)
    requires
        0 <= doe < 146097,
        yoe == (doe - doe / 1460 + doe / 36524 - doe / 146096) / 365,
    ensures
        0 <= yoe < 400,
        0 <= doe - (365 * yoe + yoe / 4 - yoe / 100) <= 365,
        doe - (365 * yoe + yoe / 4 - yoe / 100) == 365 ==> is_leap(yoe + 1),
{
}

/// The month and the day of the month of the day `doy` after a first of March.
#[verifier::spinoff_prover]
proof fn month_of_year(doy: int, mp: int, day: int, month: int)
    requires
        0 <= doy <= 365,
        mp == (5 * doy + 2) / 153,
        day == doy - (153 * mp + 2) / 5 + 1,
        month == (if mp < 10 { mp + 3 } else { mp - 9 }),
    ensures
        0 <= mp <= 11,
        1 <= month <= 12,
        month <= 2 <==> mp >= 10,
        0 <= (153 * mp + 2) / 5 <= doy,
        doy == days_from_march(month) + day - 1,
        1 <= day,
        month != 2 ==> day <= month_days(0, month),
        month == 2 ==> day <= 29 && (day == 29 <==> doy == 365),
{
    assert(0 <= mp <= 11);
    assert(mp == 0 || mp == 1 || mp == 2 || mp == 3 || mp == 4 || mp == 5 || mp == 6 || mp == 7 || mp
        == 8 || mp == 9 || mp == 10 || mp == 11);
}

proof fn eras(era: int, yoe: int)
    requires
        0 <= era,
        0 <= yoe < 400,
    ensures
        ({
            let march_year = yoe + era * 400;
            &&& leap_days(march_year) == era * 97 + yoe / 4 - yoe / 100
            &&& is_leap(march_year + 1) == is_leap(yoe + 1)
        }),
{
    let n = yoe + era * 400;
    lemma_fundamental_div_mod_converse(n, 4, yoe / 4 + era * 100, yoe % 4);
    lemma_fundamental_div_mod_converse(n, 100, yoe / 100 + era * 4, yoe % 100);
    lemma_fundamental_div_mod_converse(n, 400, era, yoe);
    lemma_fundamental_div_mod_converse(n + 1, 4, (yoe + 1) / 4 + era * 100, (yoe + 1) % 4);
    lemma_fundamental_div_mod_converse(n + 1, 100, (yoe + 1) / 100 + era * 4, (yoe + 1) % 100);
    lemma_fundamental_div_mod_converse(n + 1, 400, (yoe + 1) / 400 + era, (yoe + 1) % 400);
}

/// The day `days`, counted by years from the first of March.
#[verifier::spinoff_prover]
proof fn march_date(days: int, era: int, yoe: int, doy: int, month: int, day: int, year: int)
    requires
        0 <= days,
        0 <= era,
        0 <= yoe < 400,
        days + 719468 == era * 146097 + 365 * yoe + yoe / 4 - yoe / 100 + doy,
        0 <= doy <= 365,
        doy == 365 ==> is_leap(yoe + 1),
        1 <= month <= 12,
        doy == days_from_march(month) + day - 1,
        1 <= day,
        month != 2 ==> day <= month_days(0, month),
        month == 2 ==> day <= 29 && (day == 29 <==> doy == 365),
        year == yoe + era * 400 + (if month <= 2 { 1int } else { 0 }),
    ensures
        1970 <= year,
        day <= month_days(year, month),
        days_to_year(year) + days_to_month(year, month) + day - 1 == days,
{
    eras(era, yoe);
    let march_year = yoe + era * 400;
    assert(days + 719468 == 365 * march_year + leap_days(march_year) + doy);
    assert(1970 <= year);
    days_to_year_closed(year);
    days_to_month_closed(year, month);
    assert(leap_days(march_year) - leap_days(march_year - 1) == (if is_leap(march_year) {
        1int
    } else {
        0
    }));
}

/// The date that lies `days` days after the first of January 1970.
pub fn civil_from_days(days: u64) -> (date: Date)
    requires
        days <= u64::MAX / DAY,
    ensures
        date.valid(),
        date.day_number() == days,
{
    // Years are counted from the first of March, so that a leap day comes last.
    let z: u64 = days + 719_468;
    let era: u64 = z / 146_097;
    let doe: u64 = z % 146_097;
    let yoe: u64 = (doe - doe / 1460 + doe / 36_524 - doe / 146_096) / 365;
    proof {
        year_of_era(doe as int, yoe as int);
    }
    let doy: u64 = doe - (365 * yoe + yoe / 4 - yoe / 100);
    let mp: u64 = (5 * doy + 2) / 153;
    proof {
        let m = if mp < 10 {
            mp + 3
        } else {
            mp - 9
        };
        month_of_year(doy as int, mp as int, doy - (153 * mp + 2) / 5 + 1, m);
    }
    let day: u64 = doy - (153 * mp + 2) / 5 + 1;
    let month: u64 = if mp < 10 {
        mp + 3
    } else {
        mp - 9
    };
    let year: u64 = yoe + era * 400 + if month <= 2 {
        1
    } else {
        0
    };
    proof {
        march_date(
            days as int,
            era as int,
            yoe as int,
            doy as int,
            month as int,
            day as int,
            year as int,
        );
    }
    Date { year, month, day }
}

proof fn later_month(year: int, month: int, to: int)
    requires
        1 <= month < to <= 13,
    ensures
        days_to_month(year, month) + month_days(year, month) <= days_to_month(year, to),
        days_to_month(year, 13) == year_days(year),
{
    reveal_with_fuel(days_to_month, 14);
}

proof fn later_year(year: int, to: int)
    requires
        1970 <= year < to,
    ensures
        days_to_year(year) + year_days(year) <= days_to_year(to),
    decreases to,
{
    if to > year + 1 {
        later_year(year, to - 1);
    }
}

proof fn day_in_year(date: Date)
    requires
        date.valid(),
    ensures
        days_to_year(date.year as int) <= date.day_number() < days_to_year(date.year as int)
            + year_days(date.year as int),
{
    later_month(date.year as int, date.month as int, 13);
    days_to_month_closed(date.year as int, date.month as int);
}

/// Each day has one date: two dates with the same day number are the same date.
pub proof fn day_number_is_unique(a: Date, b: Date)
    requires
        a.valid(),
        b.valid(),
        a.day_number() == b.day_number(),
    ensures
        a == b,
{
    day_in_year(a);
    day_in_year(b);
    if a.year < b.year {
        later_year(a.year as int, b.year as int);
    } else if b.year < a.year {
        later_year(b.year as int, a.year as int);
    } else if a.month < b.month {
        later_month(a.year as int, a.month as int, b.month as int);
    } else if b.month < a.month {
        later_month(b.year as int, b.month as int, a.month as int);
    }
}

/// A number in decimal notation of at least `width` digits.
pub open spec fn padded(n: int, width: nat) -> Seq<char> {
    zero_padded(decimal(n as nat), width)
}

/// How the log writes the second `second` of the day `date`.
pub open spec fn time_text(date: Date, second: int) -> Seq<char> {
    padded(date.year as int, 4) + seq!['-'] + padded(date.month as int, 2) + seq!['-'] + padded(
        date.day as int,
        2,
    ) + seq![' '] + padded(second / 3600, 2) + seq![':'] + padded(second % 3600 / 60, 2) + seq![':']
        + padded(second % 60, 2) + seq!['Z']
}

/// The date on which the second `secs` after the Unix epoch falls.
pub open spec fn date_of(secs: u64) -> Date {
    choose|date: Date| date.valid() && date.day_number() == secs as int / DAY as int
}

/// The log line for `msg` at `secs` seconds after the Unix epoch.
pub fn log_line(secs: u64, msg: &str) -> (line: String)
    ensures
        date_of(secs).valid(),
        date_of(secs).day_number() == secs as int / DAY as int,
        line@ == seq!['['] + time_text(date_of(secs), secs as int % DAY as int) + "] "@ + msg@,
{
    let date = civil_from_days(secs / DAY);
    proof {
        day_number_is_unique(date, date_of(secs));
    }
    let rem: u64 = secs % DAY;
    let mut line = String::new();
    line.push('[');
    push_padded(&mut line, date.year, 4);
    line.push('-');
    push_padded(&mut line, date.month, 2);
    line.push('-');
    push_padded(&mut line, date.day, 2);
    line.push(' ');
    push_padded(&mut line, rem / 3600, 2);
    line.push(':');
    push_padded(&mut line, rem % 3600 / 60, 2);
    line.push(':');
    push_padded(&mut line, rem % 60, 2);
    line.push('Z');
    assert(line@ =~= seq!['['] + time_text(date, rem as int));
    line.append("] ");
    line.append(msg);
    line
}

proof fn leap_days_repeat(n: int)
    requires
        0 <= n,
    ensures
        leap_days(n + 400) == leap_days(n) + 97,
        is_leap(n + 400) == is_leap(n),
{
    lemma_fundamental_div_mod_converse(n + 400, 4, n / 4 + 100, n % 4);
    lemma_fundamental_div_mod_converse(n + 400, 100, n / 100 + 4, n % 100);
    lemma_fundamental_div_mod_converse(n + 400, 400, n / 400 + 1, n % 400);
}

proof fn years_repeat(year: int)
    requires
        1970 <= year,
    ensures
        days_to_year(year + 400) == days_to_year(year) + 146097,
{
    days_to_year_closed(year);
    days_to_year_closed(year + 400);
    leap_days_repeat(year - 1);
}

/// The calendar begins in 1970, repeats after four centuries, and its years are made of their
/// months.
pub proof fn calendar_repeats_after_four_centuries(year: int, month: int)
    requires
        1970 <= year,
        1 <= month <= 12,
    ensures
        days_to_year(1970) == 0,
        days_to_month(year, 1) == 0,
        days_to_year(year + 400) == days_to_year(year) + 146097,
        month_days(year + 400, month) == month_days(year, month),
        days_to_month(year, month + 1) == days_to_month(year, month) + month_days(year, month),
        days_to_year(year + 1) == days_to_year(year) + days_to_month(year, 13),
{
    years_repeat(year);
    leap_days_repeat(year);
    later_month(year, 1, 13);
}

/// A February has 29 days in the leap years and 28 in the others: the years that four divides, but
/// not those that a hundred divides, unless four hundred divides them.
#[verifier::spinoff_prover]
pub proof fn leap_years(k: int, r: int)
    requires
        0 < r < 4,
    ensures
        month_days(4 * k + r, 2) == 28,
        k % 25 != 0 ==> month_days(4 * k, 2) == 29,
        k % 100 == 0 ==> month_days(4 * k, 2) == 29,
        k % 25 == 0 && k % 100 != 0 ==> month_days(4 * k, 2) == 28,
{
}

proof fn two_digits(n: int)
    requires
        0 <= n < 100,
    ensures
        padded(n, 2).len() == 2,
        number(padded(n, 2), 10, 99) == Some(n),
{
    reveal_with_fuel(decimal, 3);
    padded_reads_back(n, 2, 99);
}

proof fn padded_reads_back(n: int, width: nat, max: int)
    requires
        0 <= n <= max,
    ensures
        number(padded(n, width), 10, max) == Some(n),
{
    let digits = decimal(n as nat);
    decimal_is_the_notation(n as nat);
    decimal_digits(n as nat);
    let zeros = if digits.len() >= width {
        0
    } else {
        (width - digits.len()) as nat
    };
    notation_reads_back(n as nat, 10, max, false, zeros);
    assert(padded(n, width) =~= Seq::new(zeros, |i: int| '0') + digits);
}

/// The year, the month and the day read back from what the log writes, and the hours, minutes and
/// seconds add up to the second of the day. All but the year have two digits, and the year has four
/// or more.
#[verifier::spinoff_prover]
pub proof fn time_reads_back(date: Date, second: int)
    requires
        date.valid(),
        0 <= second < DAY,
    ensures
        ({
            let text = time_text(date, second);
            let y = text.len() - 16;
            let hours = number(text.subrange(y + 7, y + 9), 10, 99);
            let minutes = number(text.subrange(y + 10, y + 12), 10, 99);
            let seconds = number(text.subrange(y + 13, y + 15), 10, 99);
            &&& y >= 4
            &&& number(text.take(y), 10, u64::MAX as int) == Some(date.year as int)
            &&& text[y] == '-'
            &&& number(text.subrange(y + 1, y + 3), 10, 99) == Some(date.month as int)
            &&& text[y + 3] == '-'
            &&& number(text.subrange(y + 4, y + 6), 10, 99) == Some(date.day as int)
            &&& text[y + 6] == ' '
            &&& hours is Some && minutes is Some && seconds is Some
            &&& text[y + 9] == ':' && text[y + 12] == ':'
            &&& hours->0 * 3600 + minutes->0 * 60 + seconds->0 == second
            &&& 0 <= minutes->0 < 60 && 0 <= seconds->0 < 60
            &&& text[y + 15] == 'Z'
        }),
{
    let text = time_text(date, second);
    let year = padded(date.year as int, 4);
    let y = year.len() as int;
    padded_reads_back(date.year as int, 4, u64::MAX as int);
    two_digits(date.month as int);
    two_digits(date.day as int);
    two_digits(second / 3600);
    two_digits(second % 3600 / 60);
    two_digits(second % 60);
    assert(text.take(y) =~= year);
    assert(text.subrange(y + 1, y + 3) =~= padded(date.month as int, 2));
    assert(text.subrange(y + 4, y + 6) =~= padded(date.day as int, 2));
    assert(text.subrange(y + 7, y + 9) =~= padded(second / 3600, 2));
    assert(text.subrange(y + 10, y + 12) =~= padded(second % 3600 / 60, 2));
    assert(text.subrange(y + 13, y + 15) =~= padded(second % 60, 2));
}

} // verus!
