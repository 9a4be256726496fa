//! Calendar dates as plain numbers, and the two things only chrono does for us:
//! writing a date as `dd Mon yyyy` and reading today's date.

use vstd::prelude::*;
use chrono::Datelike;
use crate::text::{digit_of, digit_value, four_digits, is_digit, lemma_value_round_trip, two_digits};

verus! {

/// A day of the proleptic Gregorian calendar.
#[derive(Debug, Clone, Copy, PartialEq, Eq, Structural)]
pub struct CalendarDate {
    pub year: i32,
    pub month: u32,
    pub day: u32,
}

/// Earliest year chrono represents.
pub const EARLIEST_YEAR: i32 = -262143;

/// Latest year chrono represents.
pub const LATEST_YEAR: i32 = 262142;

pub open spec fn is_leap_year(y: int) -> bool {
    y % 4 == 0 && (y % 100 != 0 || y % 400 == 0)
}

pub open spec fn days_in_month(y: int, m: int) -> int {
    if m == 2 {
        if is_leap_year(y) {
            29
        } else {
            28
        }
    } else if m == 4 || m == 6 || m == 9 || m == 11 {
        30
    } else {
        31
    }
}

/// `(y, m, d)` names a real day.
pub open spec fn is_civil_date(y: int, m: int, d: int) -> bool {
    1 <= m <= 12 && 1 <= d <= days_in_month(y, m)
}

/// English three-letter month names.
pub open spec fn month_abbrev(m: int) -> Seq<char> {
    if m == 1 {
        "Jan"@
    } else if m == 2 {
        "Feb"@
    } else if m == 3 {
        "Mar"@
    } else if m == 4 {
        "Apr"@
    } else if m == 5 {
        "May"@
    } else if m == 6 {
        "Jun"@
    } else if m == 7 {
        "Jul"@
    } else if m == 8 {
        "Aug"@
    } else if m == 9 {
        "Sep"@
    } else if m == 10 {
        "Oct"@
    } else if m == 11 {
        "Nov"@
    } else {
        "Dec"@
    }
}

/// A date written `dd Mon yyyy`, as in `19 Jul 2025`.
pub open spec fn date_text(y: int, m: int, d: int) -> Seq<char> {
    two_digits(d) + seq![' '] + month_abbrev(m) + seq![' '] + four_digits(y)
}

/// Relies on chrono's `NaiveDate::from_ymd_opt`, which accepts exactly the real days
/// of years in chrono's range, and on `NaiveDate::format` with `%d %b %Y`, which
/// writes a two-digit day, the English short month name and a four-digit year.
#[verifier::external_body]
fn chrono_date_text(year: i32, month: u32, day: u32, pattern: &str) -> (r: Option<String>)
    requires
        EARLIEST_YEAR <= year <= LATEST_YEAR,
        pattern@ == "%d %b %Y"@,
    ensures
        r.is_some() == is_civil_date(year as int, month as int, day as int),
        0 <= year <= 9999 ==> (r matches Some(t) ==> t@ == date_text(year as int, month as int, day as int)),
{
    match chrono::NaiveDate::from_ymd_opt(year, month, day) {
        Some(d) => Some(d.format(pattern).to_string()),
        None => None,
    }
}

/// Relies on chrono's `Utc::now`: the current day in UTC, which is a real day in
/// chrono's range.
#[verifier::external_body]
fn chrono_today() -> (r: CalendarDate)
    ensures
        is_civil_date(r.year as int, r.month as int, r.day as int),
        EARLIEST_YEAR <= r.year <= LATEST_YEAR,
{
    let d = chrono::Utc::now().date_naive();
    CalendarDate { year: d.year(), month: d.month(), day: d.day() }
}

/// Today's date in UTC.
pub fn today() -> (r: CalendarDate)
    ensures
        is_civil_date(r.year as int, r.month as int, r.day as int),
        EARLIEST_YEAR <= r.year <= LATEST_YEAR,
{
    chrono_today()
}

/// The last two digits of a year.
pub open spec fn year_suffix(y: int) -> int {
    y % 100
}

/// The last two digits of a year, as a number 0 to 99.
pub fn two_digit_year(year: i32) -> (r: u32)
    ensures
        r as int == year_suffix(year as int),
        r <= 99,
{
    let y = year % 100;
    let y = if y < 0 { y + 100 } else { y };
    assert(y == year_suffix(year as int));
    y as u32
}

/// `dd Mon yyyy` for a real day, `None` for anything else.
pub fn date_text_of(year: i32, month: u32, day: u32) -> (r: Option<String>)
    requires
        0 <= year <= 9999,
    ensures
        match r {
            Some(t) => is_civil_date(year as int, month as int, day as int) && t@ == date_text(
                year as int,
                month as int,
                day as int,
            ),
            None => !is_civil_date(year as int, month as int, day as int),
        },
{
    chrono_date_text(year, month, day, "%d %b %Y")
}

/// The year that a two-digit year `yy` stands for: 50 to 99 are 1950 to 1999,
/// 00 to 49 are 2000 to 2049.
pub open spec fn century_year(yy: int) -> int {
    if yy >= 50 {
        1900 + yy
    } else {
        2000 + yy
    }
}

/// The date that a compact `YYMMDD` text stands for, when it is six digits.
pub open spec fn compact_date(t: Seq<char>) -> Option<(int, int, int)> {
    if t.len() == 6 && forall|i: int| 0 <= i < 6 ==> #[trigger] is_digit(t[i]) {
        Some(
            (
                century_year(10 * digit_value(t[0]) + digit_value(t[1])),
                10 * digit_value(t[2]) + digit_value(t[3]),
                10 * digit_value(t[4]) + digit_value(t[5]),
            ),
        )
    } else {
        None
    }
}

/// The issue date as it appears in the export: a compact date that names a real
/// day is written `dd Mon yyyy`; anything else is replaced by `fallback`.
pub open spec fn issue_date_text(raw: Seq<char>, fallback: Seq<char>) -> Seq<char> {
    match compact_date(raw) {
        Some((y, m, d)) => if is_civil_date(y, m, d) {
            date_text(y, m, d)
        } else {
            fallback
        },
        None => fallback,
    }
}

/// Reads six digits `YYMMDD`; `None` when `raw` is not six digits.
fn read_compact(raw: &str) -> (r: Option<(i32, u32, u32)>)
    ensures
        match compact_date(raw@) {
            Some((y, m, d)) => r == Some((y as i32, m as u32, d as u32)) && 1950 <= y <= 2049 && 0
                <= m <= 99 && 0 <= d <= 99,
            None => r.is_none(),
        },
{
    if raw.unicode_len() != 6 {
        return None;
    }
    let mut v: Vec<u32> = Vec::new();
    let mut i: usize = 0;
    while i < 6
        invariant
            raw@.len() == 6,
            i <= 6,
            v@.len() == i,
            forall|k: int| 0 <= k < i ==> is_digit(#[trigger] raw@[k]),
            forall|k: int| 0 <= k < i ==> #[trigger] v@[k] == digit_value(raw@[k]),
        decreases 6 - i,
    {
        match digit_of(raw.get_char(i)) {
            Some(d) => {
                let ghost before = v@;
                v.push(d);
                assert(forall|k: int| 0 <= k < i ==> v@[k] == before[k]);
            },
            None => {
                return None;
            },
        }
        i = i + 1;
    }
    proof {
        lemma_value_round_trip(raw@[0]);
        lemma_value_round_trip(raw@[1]);
        lemma_value_round_trip(raw@[2]);
        lemma_value_round_trip(raw@[3]);
        lemma_value_round_trip(raw@[4]);
        lemma_value_round_trip(raw@[5]);
    }
    let yy = 10 * v[0] + v[1];
    let year: i32 = if yy >= 50 { 1900 + yy as i32 } else { 2000 + yy as i32 };
    Some((year, 10 * v[2] + v[3], 10 * v[4] + v[5]))
}

/// The issue date for the export, falling back to `fallback` when `raw` is not a
/// compact date of a real day.
pub fn format_issue_date(raw: &str, fallback: &str) -> (r: String)
    ensures
        r@ == issue_date_text(raw@, fallback@),
{
    match read_compact(raw) {
        Some((y, m, d)) => match date_text_of(y, m, d) {
            Some(t) => t,
            None => fallback.to_owned(),
        },
        None => fallback.to_owned(),
    }
}

/// A text that stands in for today's date: empty, or a real day of a four-digit
/// year written `dd Mon yyyy`.
pub open spec fn today_like(t: Seq<char>) -> bool {
    t.len() == 0 || exists|y: int, m: int, d: int|
        is_civil_date(y, m, d) && 0 <= y <= 9999 && t == #[trigger] date_text(y, m, d)
}

/// Today's date written `dd Mon yyyy`; empty only for a year beyond four digits.
pub fn today_text() -> (r: String)
    ensures
        today_like(r@),
{
    let t = today();
    if 0 <= t.year && t.year <= 9999 {
        match date_text_of(t.year, t.month, t.day) {
            Some(s) => s,
            None => String::new(),
        }
    } else {
        String::new()
    }
}

/// The issue date for the export, with today's date when `raw` is not a compact date
/// of a real day.
pub fn issue_date_or_today(raw: &str) -> (r: String)
    ensures
        exists|fallback: Seq<char>| today_like(fallback) && r@ == #[trigger] issue_date_text(raw@, fallback),
{
    let fallback = today_text();
    let r = format_issue_date(raw, fallback.as_str());
    assert(today_like(fallback@) && r@ == issue_date_text(raw@, fallback@));
    r
}

} // verus!
