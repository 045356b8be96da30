//! UTC calendar days.
//!
//! A processing day is given as a `YYYY-MM-DD` string. Internally a day is a
//! day index: the number of days since the Unix epoch (negative before it).
//! Timestamps in milliseconds are floored to day indices for the day filter.

use vstd::prelude::*;

use vstd::arithmetic::div_mod::{
    lemma_fundamental_div_mod, lemma_fundamental_div_mod_converse,
    lemma_mod_division_less_than_divisor, lemma_mod_multiples_vanish,
};

use crate::strutil::chars_of;

verus! {

/// A calendar date in the proleptic Gregorian calendar, UTC.
#[derive(Clone, Copy, PartialEq, Eq, Structural, Debug)]
pub struct CivilDay {
    pub year: u32,
    pub month: u32,
    pub day: u32,
}

pub open spec fn is_digit(c: char) -> bool {
    '0' <= c && c <= '9'
}

pub open spec fn digit_val(c: char) -> int {
    c as int - '0' as int
}

pub open spec fn is_leap_year(y: int) -> bool {
    y % 4 == 0 && (y % 100 != 0 || y % 400 == 0)
}

pub open spec fn days_in_month(y: int, m: int) -> int {
    if m == 2 {
        if is_leap_year(y) {
            29
        } else {
            28
        }
    } else if m == 4 || m == 6 || m == 9 || m == 11 {
        30
    } else {
        31
    }
}

/// A date the processor accepts: four-digit year, real month and day.
pub open spec fn valid_civil(y: int, m: int, d: int) -> bool {
    0 <= y <= 9999 && 1 <= m <= 12 && 1 <= d <= days_in_month(y, m)
}

impl CivilDay {
    pub open spec fn valid(self) -> bool {
        valid_civil(self.year as int, self.month as int, self.day as int)
    }
}

/// Days since the Unix epoch of a calendar date (Howard Hinnant's civil
/// formula, shifted by 400 years to keep every intermediate value
/// non-negative for years 0 through 9999).
pub open spec fn days_from_civil_spec(y: int, m: int, d: int) -> int {
    let yy = if m <= 2 {
        y + 399
    } else {
        y + 400
    };
    let era = yy / 400;
    let yoe = yy % 400;
    let mp = if m > 2 {
        m - 3
    } else {
        m + 9
    };
    let doy = (153 * mp + 2) / 5 + d - 1;
    let doe = yoe * 365 + yoe / 4 - yoe / 100 + doy;
    era * 146097 + doe - 719468 - 146097
}

/// Day index of a calendar date.
pub fn days_from_civil(c: CivilDay) -> (r: i64)
    requires
        c.valid(),
    ensures
        r == days_from_civil_spec(c.year as int, c.month as int, c.day as int),
{
    let yy: u64 = c.year as u64 + (if c.month <= 2 {
        399
    } else {
        400
    });
    let era: u64 = yy / 400;
    let yoe: u64 = yy % 400;
    let mp: u64 = if c.month > 2 {
        c.month as u64 - 3
    } else {
        c.month as u64 + 9
    };
    let doy: u64 = (153 * mp + 2) / 5 + c.day as u64 - 1;
    let doe: u64 = yoe * 365 + yoe / 4 - yoe / 100 + doy;
    let total: u64 = era * 146097 + doe;
    assert(era <= 25 && yoe < 400) by (nonlinear_arith)
        requires
            yy <= 10399 && era == yy / 400 && yoe == yy % 400,
    ;
    (total as i64) - 719468 - 146097
}

/// Truncating division, as the `/` of a signed machine integer rounds.
pub open spec fn trunc_div(a: int, b: int) -> int {
    if a >= 0 {
        a / b
    } else {
        -((-a) / b)
    }
}

/// Day index of a non-negative capture timestamp in milliseconds.
pub open spec fn recv_day_index(ts_ms: int) -> int {
    (ts_ms / 1000) / 86400
}

/// Day index of a signed parsed-record timestamp in milliseconds: the
/// millisecond count is truncated to seconds, then floored to days.
pub open spec fn parsed_day_index(ts_ms: int) -> int {
    trunc_div(ts_ms, 1000) / 86400
}

/// Day index of a capture `received_at` timestamp (milliseconds).
pub fn day_index_of_received(ts_ms: u64) -> (r: i64)
    ensures
        r == recv_day_index(ts_ms as int),
{
    (ts_ms / 1000 / 86400) as i64
}

/// Floor division of a signed value by a positive constant divisor.
fn floor_div_i64(t: i64, n: u64) -> (r: i64)
    requires
        0 < n < 0x8000_0000,
    ensures
        r == t as int / n as int,
{
    if t >= 0 {
        ((t as u64) / n) as i64
    } else {
        let p: u64 = -(t + 1) as u64;
        let q: u64 = p / n;
        proof {
            lemma_fundamental_div_mod(p as int, n as int);
            assert(t as int == (-(q as int) - 1) * (n as int) + (n as int - 1 - (p as int % n as int)))
                by (nonlinear_arith)
                requires
                    p as int == (n as int) * (p as int / n as int) + (p as int % n as int),
                    q as int == p as int / n as int,
                    t as int == -(p as int) - 1,
                    n as int > 0,
            ;
            lemma_fundamental_div_mod_converse(
                t as int,
                n as int,
                -(q as int) - 1,
                n as int - 1 - (p as int % n as int),
            );
        }
        -(q as i64) - 1
    }
}

/// Day index of a parsed-record timestamp (milliseconds, signed).
pub fn day_index_of_parsed(ts_ms: i64) -> (r: i64)
    ensures
        r == parsed_day_index(ts_ms as int),
{
    let secs: i64 = if ts_ms >= 0 {
        ((ts_ms as u64) / 1000) as i64
    } else {
        let neg: u64 = (-(ts_ms + 1)) as u64 + 1;
        -((neg / 1000) as i64)
    };
    floor_div_i64(secs, 86400)
}

/// The calendar date one day after `c`.
pub open spec fn civil_next_spec(y: int, m: int, d: int) -> (int, int, int) {
    if d < days_in_month(y, m) {
        (y, m, d + 1)
    } else if m < 12 {
        (y, m + 1, 1)
    } else {
        (y + 1, 1, 1)
    }
}

/// The day after `c` in the calendar.
pub fn civil_next(c: CivilDay) -> (r: CivilDay)
    requires
        c.valid(),
        c.year < 9999 || !(c.month == 12 && c.day == 31),
    ensures
        (r.year as int, r.month as int, r.day as int) == civil_next_spec(
            c.year as int,
            c.month as int,
            c.day as int,
        ),
        r.valid(),
{
    let dim: u32 = if c.month == 2 {
        let leap = c.year % 4 == 0 && (c.year % 100 != 0 || c.year % 400 == 0);
        if leap {
            29
        } else {
            28
        }
    } else if c.month == 4 || c.month == 6 || c.month == 9 || c.month == 11 {
        30
    } else {
        31
    };
    if c.day < dim {
        CivilDay { year: c.year, month: c.month, day: c.day + 1 }
    } else if c.month < 12 {
        CivilDay { year: c.year, month: c.month + 1, day: 1 }
    } else {
        CivilDay { year: c.year + 1, month: 1, day: 1 }
    }
}

/// Incrementing a non-negative value steps its quotient and remainder by a
/// positive divisor in the familiar way.
proof fn lemma_div_inc(x: int, n: int)
    requires
        x >= 0,
        n > 0,
    ensures
        (x + 1) / n == x / n + (if x % n == n - 1 {
            1int
        } else {
            0int
        }),
        (x + 1) % n == (if x % n == n - 1 {
            0int
        } else {
            x % n + 1
        }),
{
    lemma_fundamental_div_mod(x, n);
    lemma_mod_division_less_than_divisor(x, n);
    if x % n == n - 1 {
        assert(x + 1 == n * (x / n + 1) + 0) by (nonlinear_arith)
            requires
                x == n * (x / n) + x % n,
                x % n == n - 1,
        ;
        lemma_fundamental_div_mod_converse(x + 1, n, x / n + 1, 0);
    } else {
        assert(x + 1 == (x / n) * n + (x % n + 1)) by (nonlinear_arith)
            requires
                x == n * (x / n) + x % n,
        ;
        lemma_fundamental_div_mod_converse(x + 1, n, x / n, x % n + 1);
    }
}

/// The catalog's next day really is one day later: the successor date's day
/// index is the day index plus one, leap rules included.
pub proof fn lemma_civil_next_is_next_day(y: int, m: int, d: int)
    requires
        valid_civil(y, m, d),
        !(y == 9999 && m == 12 && d == 31),
    ensures
        days_from_civil_spec(
            civil_next_spec(y, m, d).0,
            civil_next_spec(y, m, d).1,
            civil_next_spec(y, m, d).2,
        ) == days_from_civil_spec(y, m, d) + 1,
{
    if d < days_in_month(y, m) {
    } else if m == 2 {
        let yy = y + 399;
        lemma_fundamental_div_mod(yy, 400);
        let era = yy / 400;
        let yoe = yy % 400;
        lemma_div_inc(yy, 400);
        assert(y == 400 * (era - 1) + (yoe + 1));
        if yoe == 399 {
            // The next year starts a new 400-year era; such years are leap.
            assert(y == 400 * era) by (nonlinear_arith)
                requires
                    y == 400 * (era - 1) + (yoe + 1),
                    yoe == 399,
            ;
            assert(y % 400 == 0 && y % 4 == 0) by (nonlinear_arith)
                requires
                    y == 400 * era,
            ;
            assert(is_leap_year(y));
        } else {
            lemma_div_inc(yoe, 4);
            lemma_div_inc(yoe, 100);
            lemma_mod_multiples_vanish(100 * (era - 1), yoe + 1, 4);
            assert(4 * (100 * (era - 1)) == 400 * (era - 1)) by (nonlinear_arith);
            lemma_mod_multiples_vanish(4 * (era - 1), yoe + 1, 100);
            assert(100 * (4 * (era - 1)) == 400 * (era - 1)) by (nonlinear_arith);
            lemma_mod_multiples_vanish(era - 1, yoe + 1, 400);
            assert(y % 4 == (yoe + 1) % 4);
            assert(y % 100 == (yoe + 1) % 100);
            assert(y % 400 == (yoe + 1) % 400);
            assert((yoe + 1) % 400 != 0 ==> y % 400 != 0);
            assert(0 <= (yoe + 1) % 400 < 400 && (yoe + 1) % 400 == yoe + 1) by {
                lemma_fundamental_div_mod_converse(yoe + 1, 400, 0, yoe + 1);
            }
        }
    } else if m == 1 {
        // Each remaining branch fixes the month, so the day-of-year terms of
        // both dates are concrete and the difference of one is arithmetic.
    } else if m == 3 {
    } else if m == 4 {
    } else if m == 5 {
    } else if m == 6 {
    } else if m == 7 {
    } else if m == 8 {
    } else if m == 9 {
    } else if m == 10 {
    } else if m == 11 {
    } else {
    }
}

/// Whether `s` is a well-formed `YYYY-MM-DD` string.
pub open spec fn day_str_format_ok(s: Seq<char>) -> bool {
    s.len() == 10 && is_digit(s[0]) && is_digit(s[1]) && is_digit(s[2]) && is_digit(s[3]) && s[4]
        == '-' && is_digit(s[5]) && is_digit(s[6]) && s[7] == '-' && is_digit(s[8]) && is_digit(
        s[9],
    )
}

pub open spec fn year_of_str(s: Seq<char>) -> int {
    digit_val(s[0]) * 1000 + digit_val(s[1]) * 100 + digit_val(s[2]) * 10 + digit_val(s[3])
}

pub open spec fn month_of_str(s: Seq<char>) -> int {
    digit_val(s[5]) * 10 + digit_val(s[6])
}

pub open spec fn dom_of_str(s: Seq<char>) -> int {
    digit_val(s[8]) * 10 + digit_val(s[9])
}

/// A day string the processor accepts: well-formed and naming a real date.
pub open spec fn valid_day_str(s: Seq<char>) -> bool {
    day_str_format_ok(s) && valid_civil(year_of_str(s), month_of_str(s), dom_of_str(s))
}

fn digit_of(c: char) -> (r: Option<u32>)
    ensures
        r is Some <==> is_digit(c),
        r is Some ==> r->0 == digit_val(c) && r->0 <= 9,
{
    if '0' <= c && c <= '9' {
        Some(c as u32 - '0' as u32)
    } else {
        None
    }
}

/// Parse a `YYYY-MM-DD` day string; `None` unless it names a real date.
pub fn parse_day(s: &str) -> (r: Option<CivilDay>)
    ensures
        r is Some <==> valid_day_str(s@),
        r is Some ==> {
            let c = r->0;
            c.year == year_of_str(s@) && c.month == month_of_str(s@) && c.day == dom_of_str(s@)
                && c.valid()
        },
{
    let cs = chars_of(s);
    if cs.len() != 10 {
        return None;
    }
    if !(cs[4] == '-' && cs[7] == '-') {
        return None;
    }
    let d0 = digit_of(cs[0]);
    let d1 = digit_of(cs[1]);
    let d2 = digit_of(cs[2]);
    let d3 = digit_of(cs[3]);
    let m0 = digit_of(cs[5]);
    let m1 = digit_of(cs[6]);
    let a0 = digit_of(cs[8]);
    let a1 = digit_of(cs[9]);
    match (d0, d1, d2, d3, m0, m1, a0, a1) {
        (
            Some(d0),
            Some(d1),
            Some(d2),
            Some(d3),
            Some(m0),
            Some(m1),
            Some(a0),
            Some(a1),
        ) => {
            let year: u32 = d0 * 1000 + d1 * 100 + d2 * 10 + d3;
            let month: u32 = m0 * 10 + m1;
            let day: u32 = a0 * 10 + a1;
            let dim: u32 = if month == 2 {
                let leap = year % 4 == 0 && (year % 100 != 0 || year % 400 == 0);
                if leap {
                    29
                } else {
                    28
                }
            } else if month == 4 || month == 6 || month == 9 || month == 11 {
                30
            } else {
                31
            };
            if 1 <= month && month <= 12 && 1 <= day && day <= dim {
                Some(CivilDay { year, month, day })
            } else {
                None
            }
        },
        _ => None,
    }
}

pub open spec fn digit_char(v: int) -> char {
    if v == 0 {
        '0'
    } else if v == 1 {
        '1'
    } else if v == 2 {
        '2'
    } else if v == 3 {
        '3'
    } else if v == 4 {
        '4'
    } else if v == 5 {
        '5'
    } else if v == 6 {
        '6'
    } else if v == 7 {
        '7'
    } else if v == 8 {
        '8'
    } else {
        '9'
    }
}

fn digit_char_of(v: u32) -> (r: char)
    requires
        v <= 9,
    ensures
        r == digit_char(v as int),
{
    match v {
        0 => '0',
        1 => '1',
        2 => '2',
        3 => '3',
        4 => '4',
        5 => '5',
        6 => '6',
        7 => '7',
        8 => '8',
        _ => '9',
    }
}

/// The ten characters `YYYY-MM-DD` of a date.
pub open spec fn day_str_of_civil(y: int, m: int, d: int) -> Seq<char> {
    seq![
        digit_char(y / 1000 % 10),
        digit_char(y / 100 % 10),
        digit_char(y / 10 % 10),
        digit_char(y % 10),
        '-',
        digit_char(m / 10 % 10),
        digit_char(m % 10),
        '-',
        digit_char(d / 10 % 10),
        digit_char(d % 10),
    ]
}

/// Format a date as `YYYY-MM-DD`.
pub fn format_day(c: CivilDay) -> (r: Vec<char>)
    requires
        c.valid(),
    ensures
        r@ == day_str_of_civil(c.year as int, c.month as int, c.day as int),
{
    let y = c.year;
    let m = c.month;
    let d = c.day;
    let mut out: Vec<char> = Vec::new();
    out.push(digit_char_of(y / 1000 % 10));
    out.push(digit_char_of(y / 100 % 10));
    out.push(digit_char_of(y / 10 % 10));
    out.push(digit_char_of(y % 10));
    out.push('-');
    out.push(digit_char_of(m / 10 % 10));
    out.push(digit_char_of(m % 10));
    out.push('-');
    out.push(digit_char_of(d / 10 % 10));
    out.push(digit_char_of(d % 10));
    proof {
        assert(out@ =~= day_str_of_civil(c.year as int, c.month as int, c.day as int));
    }
    out
}

} // verus!
