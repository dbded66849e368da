//! Gregorian calendar facts used by the month views of the heatmaps, and
//! the stored text form of dates.

use vstd::prelude::*;
use chrono::Datelike;
use crate::text::{decimal, push_decimal};

verus! {

/// Gregorian leap year: divisible by 4, except centuries not divisible by
/// 400.
pub open spec fn leap(year: int) -> bool {
    (year % 4 == 0 && year % 100 != 0) || year % 400 == 0
}

/// Days in `month` (1-12) of `year`; any other month number counts 30.
pub open spec fn month_length(year: int, month: int) -> int {
    if month == 1 || month == 3 || month == 5 || month == 7 || month == 8 || month == 10 || month
        == 12 {
        31
    } else if month == 2 {
        if leap(year) {
            29
        } else {
            28
        }
    } else {
        30
    }
}

/// English name of `month` (1-12); the empty text for any other number.
pub open spec fn month_title(month: int) -> Seq<char> {
    if month == 1 {
        "January"@
    } else if month == 2 {
        "February"@
    } else if month == 3 {
        "March"@
    } else if month == 4 {
        "April"@
    } else if month == 5 {
        "May"@
    } else if month == 6 {
        "June"@
    } else if month == 7 {
        "July"@
    } else if month == 8 {
        "August"@
    } else if month == 9 {
        "September"@
    } else if month == 10 {
        "October"@
    } else if month == 11 {
        "November"@
    } else if month == 12 {
        "December"@
    } else {
        ""@
    }
}

/// Whether `year` is a Gregorian leap year.
pub fn is_leap_year(year: i32) -> (b: bool)
    ensures
        b == leap(year as int),
{
    // Shift by a multiple of 400 to work with a non-negative number; the
    // remainders by 4, 100 and 400 are unchanged.
    let y: u64 = (year as i64 + 5_368_709_200i64) as u64;
    assert(y as int == year as int + 400 * 13_421_773);
    assert(y as int % 4 == year as int % 4 && y as int % 100 == year as int % 100 && y as int % 400
        == year as int % 400) by (nonlinear_arith)
        requires
            y as int == year as int + 400 * 13_421_773,
    ;
    (y % 4 == 0 && y % 100 != 0) || y % 400 == 0
}

/// Number of days in a month of a year.
pub fn get_days_in_month(year: i32, month: u32) -> (days: usize)
    ensures
        days == month_length(year as int, month as int),
{
    match month {
        1 | 3 | 5 | 7 | 8 | 10 | 12 => 31,
        4 | 6 | 9 | 11 => 30,
        2 => {
            if is_leap_year(year) {
                29
            } else {
                28
            }
        },
        _ => 30,
    }
}

/// English name of a month number.
pub fn month_name(month: u32) -> (name: &'static str)
    ensures
        name@ == month_title(month as int),
{
    match month {
        1 => "January",
        2 => "February",
        3 => "March",
        4 => "April",
        5 => "May",
        6 => "June",
        7 => "July",
        8 => "August",
        9 => "September",
        10 => "October",
        11 => "November",
        12 => "December",
        _ => "",
    }
}

/// The day number (counted as `chrono::Datelike::num_days_from_ce`) of
/// the date that `chrono::NaiveDate::parse_from_str(text, "%Y-%m-%d")`
/// reads from `text`, or `None` where it reports an error.
pub uninterp spec fn ymd_parsed(text: Seq<char>) -> Option<int>;

/// The year, month and day of the date with day number `day` (counted as
/// `chrono::Datelike::num_days_from_ce`), as chrono's proleptic Gregorian
/// calendar gives them, or `None` where chrono has no such date.
pub uninterp spec fn ymd_of(day: int) -> Option<(int, int, int)>;

/// `chrono::NaiveDate::parse_from_str(text, "%Y-%m-%d")`, read with
/// `num_days_from_ce`; an error gives `None`. The result depends on the
/// text alone and is named `ymd_parsed`; the accepted forms are not
/// stated.
#[verifier::external_body]
pub fn parse_ymd(text: &str) -> (day: Option<i32>)
    ensures
        match day {
            Some(d) => ymd_parsed(text@) == Some(d as int),
            None => ymd_parsed(text@) is None,
        },
{
    match chrono::NaiveDate::parse_from_str(text, "%Y-%m-%d") {
        Ok(d) => Some(d.num_days_from_ce()),
        Err(_) => None,
    }
}

/// `chrono::NaiveDate::from_num_days_from_ce_opt(day)` read with
/// `Datelike::year`, `month` and `day`; `None` where chrono has no date of
/// that number. The date is named `ymd_of`; as chrono documents, the month
/// is 1 to 12 and the day 1 to 31.
#[verifier::external_body]
pub fn date_of_day(day: i32) -> (date: Option<(i32, u32, u32)>)
    ensures
        match date {
            Some((y, m, d)) => ymd_of(day as int) == Some((y as int, m as int, d as int)) && 1 <= m <= 12
                && 1 <= d <= 31,
            None => ymd_of(day as int) is None,
        },
{
    match chrono::NaiveDate::from_num_days_from_ce_opt(day) {
        Some(d) => Some((d.year(), d.month(), d.day())),
        None => None,
    }
}

/// `digits` padded on the left with zeros to `width` characters.
pub open spec fn zero_padded(digits: Seq<char>, width: nat) -> Seq<char> {
    if digits.len() < width {
        Seq::new((width - digits.len()) as nat, |i: int| '0') + digits
    } else {
        digits
    }
}

/// A year written with at least four characters, zeros after the sign
/// (as `{:04}` writes an integer).
pub open spec fn padded_year(y: int) -> Seq<char> {
    if y >= 0 {
        zero_padded(decimal(y as nat), 4)
    } else {
        seq!['-'] + zero_padded(decimal((-y) as nat), 3)
    }
}

/// The stored text of a date: `YYYY-MM-DD`, the year padded to four
/// characters and the month and day to two digits.
pub open spec fn ymd_text_of(y: int, m: int, d: int) -> Seq<char> {
    padded_year(y) + seq!['-'] + zero_padded(decimal(m as nat), 2) + seq!['-'] + zero_padded(
        decimal(d as nat),
        2,
    )
}

/// Append the decimal text of `n`, padded on the left with zeros to
/// `width` characters.
fn push_padded(s: &mut String, n: u64, width: usize)
    ensures
        final(s)@ == old(s)@ + zero_padded(decimal(n as nat), width as nat),
{
    let mut digits = String::new();
    push_decimal(&mut digits, n);
    assert(digits@ =~= decimal(n as nat));
    let len = digits.as_str().unicode_len();
    let ghost zero = |i: int| '0';
    let mut k: usize = len;
    assert(s@ =~= old(s)@ + Seq::new(0, zero));
    while k < width
        invariant
            len <= k,
            k <= width || k == len,
            len == decimal(n as nat).len(),
            zero == (|i: int| '0'),
            s@ == old(s)@ + Seq::new((k - len) as nat, zero),
        decreases width - k,
    {
        let ghost before = s@;
        s.append("0");
        proof {
            reveal_strlit("0");
            assert(Seq::new((k + 1 - len) as nat, zero) =~= Seq::new((k - len) as nat, zero).push('0'));
            assert(s@ =~= before + seq!['0']);
        }
        k = k + 1;
    }
    s.append(digits.as_str());
    assert(final(s)@ =~= old(s)@ + zero_padded(decimal(n as nat), width as nat));
}

/// The day of a stored date text; a text that does not parse reads as
/// the default date, 1970-01-01 (day 719163).
pub fn stored_day(text: &str) -> (day: i32)
    ensures
        day as int == (match ymd_parsed(text@) {
            Some(d) => d,
            None => 719163,
        }),
{
    match parse_ymd(text) {
        Some(d) => d,
        None => 719163,
    }
}

/// The stored text of a day, `YYYY-MM-DD`; a day number beyond chrono's
/// dates is written as the default date, 1970-01-01.
pub fn stored_date_text(day: i32) -> (text: String)
    ensures
        text@ == (match ymd_of(day as int) {
            Some((y, m, d)) => ymd_text_of(y, m, d),
            None => "1970-01-01"@,
        }),
{
    match date_of_day(day) {
        Some((y, m, d)) => {
            let mut s = String::new();
            if y >= 0 {
                push_padded(&mut s, y as u64, 4);
            } else {
                s.append("-");
                push_padded(&mut s, (-(y as i64)) as u64, 3);
            }
            let ghost year_part = s@;
            s.append("-");
            push_padded(&mut s, m as u64, 2);
            s.append("-");
            push_padded(&mut s, d as u64, 2);
            proof {
                reveal_strlit("-");
                assert(year_part == padded_year(y as int));
                assert(s@ =~= ymd_text_of(y as int, m as int, d as int));
            }
            s
        },
        None => String::from_str("1970-01-01"),
    }
}

/// Day of the week of day number `day` (days of the common era, day 1 being
/// 0001-01-01, a Monday), counted from Sunday = 0 to Saturday = 6.
pub open spec fn weekday_index(day: int) -> int {
    day % 7
}

/// The day of the week of a day number, from Sunday = 0: the column of the
/// first day of a month in a month view.
pub fn weekday_from_sunday(day: i32) -> (w: u32)
    ensures
        w as int == weekday_index(day as int),
        w < 7,
{
    // 2147483653 = 7 * 306783379 lifts every i32 to a non-negative value
    // without changing its remainder.
    let shifted: i64 = day as i64 + 2147483653;
    let r: i64 = shifted % 7;
    assert(r == (day as int) % 7) by (nonlinear_arith)
        requires
            shifted == day as int + 7 * 306783379,
            shifted >= 0,
            r == shifted % 7,
    ;
    r as u32
}

/// The month before `month` of `year`, rolling back over the year.
pub open spec fn month_before(year: int, month: int) -> (int, int) {
    if month == 1 {
        (year - 1, 12)
    } else {
        (year, month - 1)
    }
}

/// The month after `month` of `year`, rolling over into the next year.
pub open spec fn month_after(year: int, month: int) -> (int, int) {
    if month == 12 {
        (year + 1, 1)
    } else {
        (year, month + 1)
    }
}

/// The month shown by the "previous" button of a month view.
pub fn previous_month(year: i32, month: u32) -> (r: (i32, u32))
    requires
        month >= 1,
        month == 1 ==> year > i32::MIN,
    ensures
        r.0 as int == month_before(year as int, month as int).0,
        r.1 as int == month_before(year as int, month as int).1,
{
    if month == 1 {
        (year - 1, 12)
    } else {
        (year, month - 1)
    }
}

/// The month shown by the "next" button of a month view.
pub fn next_month(year: i32, month: u32) -> (r: (i32, u32))
    requires
        month == 12 ==> year < i32::MAX,
        month < u32::MAX,
    ensures
        r.0 as int == month_after(year as int, month as int).0,
        r.1 as int == month_after(year as int, month as int).1,
{
    if month == 12 {
        (year + 1, 1)
    } else {
        (year, month + 1)
    }
}

/// Stepping a month view forward and back returns to the month shown.
pub proof fn law_month_steps_undo(year: int, month: int)
    requires
        1 <= month <= 12,
    ensures
        month_before(month_after(year, month).0, month_after(year, month).1) == (year, month),
        month_after(month_before(year, month).0, month_before(year, month).1) == (year, month),
        1 <= month_after(year, month).1 <= 12,
        1 <= month_before(year, month).1 <= 12,
{
}

/// Every month has 28 to 31 days, and February has 29 exactly in leap
/// years.
pub proof fn law_month_lengths(year: int, month: int)
    ensures
        28 <= month_length(year, month) <= 31,
        month == 2 ==> (month_length(year, month) == 29 <==> leap(year)),
{
}

} // verus!
