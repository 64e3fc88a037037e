//! Calendar dates in the proleptic Gregorian calendar: validity, strict
//! `YYYY-MM-DD` parsing and formatting, and stepping a date backwards.

use vstd::prelude::*;

verus! {

/// A year is a leap year when divisible by 4, except century years not
/// divisible by 400.
pub open spec fn spec_is_leap_year(y: int) -> bool {
    (y % 4 == 0 && y % 100 != 0) || y % 400 == 0
}

pub open spec fn spec_days_in_month(y: int, m: int) -> int {
    if m == 2 {
        if spec_is_leap_year(y) {
            29
        } else {
            28
        }
    } else if m == 4 || m == 6 || m == 9 || m == 11 {
        30
    } else {
        31
    }
}

/// A valid calendar date: month in range and day within the month's length.
pub open spec fn spec_valid_date(y: int, m: int, d: int) -> bool {
    1 <= m <= 12 && 1 <= d <= spec_days_in_month(y, m)
}

/// Whether `y` is a leap year.
pub fn is_leap_year(y: u32) -> (r: bool)
    ensures
        r == spec_is_leap_year(y as int),
{
    (y % 4 == 0 && y % 100 != 0) || y % 400 == 0
}

/// The number of days in month `m` of year `y`.
pub fn days_in_month(y: u32, m: u32) -> (r: u32)
    requires
        1 <= m <= 12,
    ensures
        r == spec_days_in_month(y as int, m as int),
{
    if m == 2 {
        if is_leap_year(y) {
            29
        } else {
            28
        }
    } else if m == 4 || m == 6 || m == 9 || m == 11 {
        30
    } else {
        31
    }
}

pub open spec fn is_digit_char(c: char) -> bool {
    '0' <= c && c <= '9'
}

pub open spec fn digit_val(c: char) -> int {
    c as int - '0' as int
}

/// The four-digit year written in a `YYYY-MM-DD` string.
pub open spec fn spec_date_str_year(s: Seq<char>) -> int {
    digit_val(s[0]) * 1000 + digit_val(s[1]) * 100 + digit_val(s[2]) * 10 + digit_val(s[3])
}

pub open spec fn spec_date_str_month(s: Seq<char>) -> int {
    digit_val(s[5]) * 10 + digit_val(s[6])
}

pub open spec fn spec_date_str_day(s: Seq<char>) -> int {
    digit_val(s[8]) * 10 + digit_val(s[9])
}

/// The string has exactly the shape `YYYY-MM-DD`: ten characters, digits in
/// the year, month and day positions, `-` separators.
pub open spec fn spec_date_str_shape(s: Seq<char>) -> bool {
    &&& s.len() == 10
    &&& is_digit_char(s[0])
    &&& is_digit_char(s[1])
    &&& is_digit_char(s[2])
    &&& is_digit_char(s[3])
    &&& s[4] == '-'
    &&& is_digit_char(s[5])
    &&& is_digit_char(s[6])
    &&& s[7] == '-'
    &&& is_digit_char(s[8])
    &&& is_digit_char(s[9])
}

/// A strict `YYYY-MM-DD` string naming a valid calendar date.
pub open spec fn spec_is_valid_date_str(s: Seq<char>) -> bool {
    &&& spec_date_str_shape(s)
    &&& spec_valid_date(spec_date_str_year(s), spec_date_str_month(s), spec_date_str_day(s))
}

/// Reads one decimal digit of `s` at position `i`, or reports that the
/// character there is not a digit.
fn digit_at(s: &str, i: usize) -> (r: Option<u32>)
    requires
        i < s@.len(),
    ensures
        r is Some <==> is_digit_char(s@[i as int]),
        r is Some ==> r->Some_0 == digit_val(s@[i as int]) && r->Some_0 <= 9,
{
    let c = s.get_char(i);
    if '0' <= c && c <= '9' {
        Some(c as u32 - '0' as u32)
    } else {
        None
    }
}

/// Parses a strict `YYYY-MM-DD` string into its year, month and day.
/// Returns `None` exactly when the string does not have that shape or does
/// not name a valid calendar date.
pub fn parse_date(s: &str) -> (r: Option<(u32, u32, u32)>)
    ensures
        r is Some <==> spec_is_valid_date_str(s@),
        r is Some ==> {
            &&& r->Some_0.0 == spec_date_str_year(s@)
            &&& r->Some_0.1 == spec_date_str_month(s@)
            &&& r->Some_0.2 == spec_date_str_day(s@)
        },
{
    if s.unicode_len() != 10 {
        return None;
    }
    if s.get_char(4) != '-' || s.get_char(7) != '-' {
        return None;
    }
    let y0 = digit_at(s, 0);
    let y1 = digit_at(s, 1);
    let y2 = digit_at(s, 2);
    let y3 = digit_at(s, 3);
    let m0 = digit_at(s, 5);
    let m1 = digit_at(s, 6);
    let d0 = digit_at(s, 8);
    let d1 = digit_at(s, 9);
    match (y0, y1, y2, y3, m0, m1, d0, d1) {
        (Some(y0), Some(y1), Some(y2), Some(y3), Some(m0), Some(m1), Some(d0), Some(d1)) => {
            let y = y0 * 1000 + y1 * 100 + y2 * 10 + y3;
            let m = m0 * 10 + m1;
            let d = d0 * 10 + d1;
            if 1 <= m && m <= 12 && 1 <= d && d <= days_in_month(y, m) {
                Some((y, m, d))
            } else {
                None
            }
        },
        _ => None,
    }
}

/// Whether `s` is a strict `YYYY-MM-DD` string naming a valid calendar date.
pub fn is_valid_date_str(s: &str) -> (r: bool)
    ensures
        r == spec_is_valid_date_str(s@),
{
    parse_date(s).is_some()
}

/// The calendar day just before `(y, m, d)`.
pub open spec fn spec_prev_date(y: int, m: int, d: int) -> (int, int, int) {
    if d > 1 {
        (y, m, d - 1)
    } else if m > 1 {
        (y, m - 1, spec_days_in_month(y, m - 1))
    } else {
        (y - 1, 12, 31)
    }
}

/// The calendar day `n` days before `(y, m, d)`.
pub open spec fn spec_minus_days(y: int, m: int, d: int, n: nat) -> (int, int, int)
    decreases n,
{
    if n == 0 {
        (y, m, d)
    } else {
        let (py, pm, pd) = spec_prev_date(y, m, d);
        spec_minus_days(py, pm, pd, (n - 1) as nat)
    }
}

/// Steps a date back by one calendar day.
pub fn prev_date(y: u32, m: u32, d: u32) -> (r: (u32, u32, u32))
    requires
        spec_valid_date(y as int, m as int, d as int),
        !(y == 0 && m == 1 && d == 1),
    ensures
        (r.0 as int, r.1 as int, r.2 as int) == spec_prev_date(y as int, m as int, d as int),
        spec_valid_date(r.0 as int, r.1 as int, r.2 as int),
{
    if d > 1 {
        (y, m, d - 1)
    } else if m > 1 {
        (y, m - 1, days_in_month(y, m - 1))
    } else {
        (y - 1, 12, 31)
    }
}

/// How many days the lookback window of the price feed reaches back.
pub const LOOKBACK_DAYS: u32 = 10;

/// The calendar day `LOOKBACK_DAYS` days before `(y, m, d)`.
pub fn lookback_start(y: u32, m: u32, d: u32) -> (r: (u32, u32, u32))
    requires
        spec_valid_date(y as int, m as int, d as int),
        1 <= y,
    ensures
        (r.0 as int, r.1 as int, r.2 as int) == spec_minus_days(
            y as int,
            m as int,
            d as int,
            LOOKBACK_DAYS as nat,
        ),
        spec_valid_date(r.0 as int, r.1 as int, r.2 as int),
        y - 1 <= r.0 <= y,
{
    let mut cy = y;
    let mut cm = m;
    let mut cd = d;
    let mut i: u32 = 0;
    // Walking back so few days can cross at most one year boundary, and
    // after crossing it the walk stays deep inside December; that keeps
    // every step away from the calendar's lower edge.
    while i < LOOKBACK_DAYS
        invariant
            1 <= y,
            i <= LOOKBACK_DAYS,
            spec_valid_date(cy as int, cm as int, cd as int),
            spec_minus_days(cy as int, cm as int, cd as int, (LOOKBACK_DAYS - i) as nat)
                == spec_minus_days(y as int, m as int, d as int, LOOKBACK_DAYS as nat),
            cy == y || (cy + 1 == y && cm == 12 && cd + i >= 31 + 1),
        decreases LOOKBACK_DAYS - i,
    {
        let (ny, nm, nd) = prev_date(cy, cm, cd);
        cy = ny;
        cm = nm;
        cd = nd;
        i = i + 1;
    }
    (cy, cm, cd)
}

/// The character for the decimal digit `v`.
pub open spec fn spec_digit_char(v: int) -> char {
    if v == 0 {
        '0'
    } else if v == 1 {
        '1'
    } else if v == 2 {
        '2'
    } else if v == 3 {
        '3'
    } else if v == 4 {
        '4'
    } else if v == 5 {
        '5'
    } else if v == 6 {
        '6'
    } else if v == 7 {
        '7'
    } else if v == 8 {
        '8'
    } else {
        '9'
    }
}

/// A one-character string for the decimal digit `v`.
pub fn digit_str(v: u32) -> (r: &'static str)
    requires
        v <= 9,
    ensures
        r@ =~= seq![spec_digit_char(v as int)],
{
    proof {
        reveal_strlit("0");
        reveal_strlit("1");
        reveal_strlit("2");
        reveal_strlit("3");
        reveal_strlit("4");
        reveal_strlit("5");
        reveal_strlit("6");
        reveal_strlit("7");
        reveal_strlit("8");
        reveal_strlit("9");
    }
    match v {
        0 => "0",
        1 => "1",
        2 => "2",
        3 => "3",
        4 => "4",
        5 => "5",
        6 => "6",
        7 => "7",
        8 => "8",
        _ => "9",
    }
}

/// The ten characters of `(y, m, d)` written as `YYYY-MM-DD`, with the year
/// zero-padded to four digits and month and day to two.
pub open spec fn spec_date_str(y: int, m: int, d: int) -> Seq<char> {
    seq![
        spec_digit_char(y / 1000 % 10),
        spec_digit_char(y / 100 % 10),
        spec_digit_char(y / 10 % 10),
        spec_digit_char(y % 10),
        '-',
        spec_digit_char(m / 10),
        spec_digit_char(m % 10),
        '-',
        spec_digit_char(d / 10),
        spec_digit_char(d % 10),
    ]
}

/// Writes a date as a strict `YYYY-MM-DD` string.
pub fn format_date(y: u32, m: u32, d: u32) -> (r: String)
    requires
        spec_valid_date(y as int, m as int, d as int),
        y <= 9999,
    ensures
        r@ == spec_date_str(y as int, m as int, d as int),
{
    let mut out = String::new();
    out.append(digit_str(y / 1000 % 10));
    out.append(digit_str(y / 100 % 10));
    out.append(digit_str(y / 10 % 10));
    out.append(digit_str(y % 10));
    out.append("-");
    out.append(digit_str(m / 10));
    out.append(digit_str(m % 10));
    out.append("-");
    out.append(digit_str(d / 10));
    out.append(digit_str(d % 10));
    proof {
        reveal_strlit("-");
        assert(out@ =~= spec_date_str(y as int, m as int, d as int));
    }
    out
}

/// The digit characters carry exactly their decimal values.
pub proof fn lemma_digit_roundtrip(v: int)
    requires
        0 <= v <= 9,
    ensures
        is_digit_char(spec_digit_char(v)),
        digit_val(spec_digit_char(v)) == v,
{
}

/// Round trip: a formatted valid date parses back to the same triple.
/// Stated for dates in the four-digit-year range the tool accepts.
pub proof fn lemma_format_then_parse(y: int, m: int, d: int)
    requires
        spec_valid_date(y, m, d),
        0 <= y <= 9999,
    ensures
        spec_is_valid_date_str(spec_date_str(y, m, d)),
        spec_date_str_year(spec_date_str(y, m, d)) == y,
        spec_date_str_month(spec_date_str(y, m, d)) == m,
        spec_date_str_day(spec_date_str(y, m, d)) == d,
{
    let s = spec_date_str(y, m, d);
    lemma_digit_roundtrip(y / 1000 % 10);
    lemma_digit_roundtrip(y / 100 % 10);
    lemma_digit_roundtrip(y / 10 % 10);
    lemma_digit_roundtrip(y % 10);
    lemma_digit_roundtrip(m / 10);
    lemma_digit_roundtrip(m % 10);
    lemma_digit_roundtrip(d / 10);
    lemma_digit_roundtrip(d % 10);
    assert(y / 1000 % 10 * 1000 + y / 100 % 10 * 100 + y / 10 % 10 * 10 + y % 10 == y)
        by (nonlinear_arith)
        requires
            0 <= y <= 9999,
    ;
    assert(m / 10 * 10 + m % 10 == m);
    assert(d / 10 * 10 + d % 10 == d);
    assert(spec_date_str_year(s) == y);
    assert(spec_date_str_month(s) == m);
    assert(spec_date_str_day(s) == d);
}

} // verus!
