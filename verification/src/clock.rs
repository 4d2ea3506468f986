//! UTC timestamps in ISO 8601 form, from a count of seconds since the Unix epoch.
use vstd::prelude::*;

use crate::text::{decimal, digit, push_decimal, string_of};

verus! {

pub open spec fn is_leap(year: int) -> bool {
    (year % 4 == 0 && year % 100 != 0) || year % 400 == 0
}

pub open spec fn year_length(year: int) -> int {
    if is_leap(year) {
        366
    } else {
        365
    }
}

pub open spec fn month_length(year: int, month: int) -> int {
    if month == 2 {
        if is_leap(year) {
            29
        } else {
            28
        }
    } else if month == 4 || month == 6 || month == 9 || month == 11 {
        30
    } else {
        31
    }
}

/// Month and day (both from 1) of the day `days` into `year`, counting months from `month`.
pub open spec fn month_and_day(days: int, year: int, month: int) -> (int, int)
    decreases 12 - month,
{
    if month < 12 && days >= month_length(year, month) {
        month_and_day(days - month_length(year, month), year, month + 1)
    } else {
        (month, days + 1)
    }
}

/// Year, month and day of the day `days` after 1 January of `year`.
pub open spec fn civil_date(days: int, year: int) -> (int, int, int)
    decreases days,
{
    if days >= year_length(year) {
        civil_date(days - year_length(year), year + 1)
    } else {
        let (m, d) = month_and_day(days, year, 1);
        (year, m, d)
    }
}

/// `n` in decimal, padded with zeros on the left to at least `width` digits.
pub open spec fn padded(n: nat, width: nat) -> Seq<char> {
    let digits = decimal(n);
    if digits.len() >= width {
        digits
    } else {
        Seq::new((width - digits.len()) as nat, |i: int| '0') + digits
    }
}

/// `YYYY-MM-DDTHH:MM:SSZ` for the instant `secs` seconds after 1970-01-01T00:00:00Z.
pub open spec fn iso8601(secs: nat) -> Seq<char> {
    let (y, m, d) = civil_date(secs as int / 86400, 1970);
    let rest = secs % 86400;
    padded(y as nat, 4) + "-"@ + padded(m as nat, 2) + "-"@ + padded(d as nat, 2) + "T"@ + padded(
        rest / 3600,
        2,
    ) + ":"@ + padded((rest % 3600) / 60, 2) + ":"@ + padded(rest % 60, 2) + "Z"@
}

pub open spec fn pow10(k: nat) -> nat
    decreases k,
{
    if k == 0 {
        1
    } else {
        10 * pow10((k - 1) as nat)
    }
}

proof fn lemma_digits_bound(n: nat, k: nat)
    requires
        k >= 1,
        n < pow10(k),
    ensures
        decimal(n).len() <= k,
    decreases n,
{
    if n >= 10 {
        if k == 1 {
            reveal_with_fuel(pow10, 2);
        } else {
            let p = pow10((k - 1) as nat);
            assert(n / 10 < p) by (nonlinear_arith)
                requires
                    n < 10 * p,
            ;
            lemma_digits_bound(n / 10, (k - 1) as nat);
        }
    }
}

fn decimal_length(n: u64) -> (len: usize)
    ensures
        len == decimal(n as nat).len(),
    decreases n,
{
    proof {
        reveal_with_fuel(pow10, 21);
        assert(pow10(20) == 100000000000000000000);
        lemma_digits_bound(n as nat, 20);
    }
    if n < 10 {
        1
    } else {
        let shorter = decimal_length(n / 10);
        shorter + 1
    }
}

fn push_padded(out: &mut Vec<char>, n: u64, width: usize)
    ensures
        final(out)@ == old(out)@ + padded(n as nat, width as nat),
{
    let digits = decimal_length(n);
    let ghost before = out@;
    if digits < width {
        let mut k: usize = 0;
        while k < width - digits
            invariant
                digits < width,
                k <= width - digits,
                out@ == before + Seq::new(k as nat, |i: int| '0'),
            decreases width - digits - k,
        {
            out.push('0');
            assert(out@ =~= before + Seq::new((k + 1) as nat, |i: int| '0'));
            k = k + 1;
        }
        push_decimal(out, n);
        assert(out@ =~= before + padded(n as nat, width as nat));
    } else {
        push_decimal(out, n);
    }
}

fn leap_year(year: u64) -> (leap: bool)
    ensures
        leap == is_leap(year as int),
{
    let r4 = year % 4;
    let r100 = year % 100;
    let r400 = year % 400;
    assert(r4 as int == year as int % 4 && r100 as int == year as int % 100 && r400 as int
        == year as int % 400);
    r4 == 0 && (r100 != 0 || r400 == 0)
}

fn year_days(year: u64) -> (len: u64)
    ensures
        len == year_length(year as int),
{
    if leap_year(year) {
        366
    } else {
        365
    }
}

fn days_in_month(year: u64, month: u64) -> (len: u64)
    ensures
        len == month_length(year as int, month as int),
{
    if month == 2 {
        if leap_year(year) {
            29
        } else {
            28
        }
    } else if month == 4 || month == 6 || month == 9 || month == 11 {
        30
    } else {
        31
    }
}

/// The calendar date of the day `days` after 1970-01-01.
fn civil_from_days(days: u64) -> (ymd: (u64, u64, u64))
    requires
        days <= u64::MAX / 86400,
    ensures
        civil_date(days as int, 1970) == (ymd.0 as int, ymd.1 as int, ymd.2 as int),
{
    let mut year: u64 = 1970;
    let mut left: u64 = days;
    while left >= year_days(year)
        invariant
            civil_date(days as int, 1970) == civil_date(left as int, year as int),
            1970 <= year <= 1970 + (days - left),
            left <= days,
            days <= u64::MAX / 86400,
        decreases left,
    {
        left = left - year_days(year);
        year = year + 1;
    }
    let mut m: u64 = 1;
    let mut d: u64 = left;
    while m < 12 && d >= days_in_month(year, m)
        invariant
            1 <= m <= 12,
            d <= left,
            month_and_day(left as int, year as int, 1) == month_and_day(
                d as int,
                year as int,
                m as int,
            ),
        decreases 12 - m,
    {
        d = d - days_in_month(year, m);
        m = m + 1;
    }
    (year, m, d + 1)
}

fn push_text(out: &mut Vec<char>, c: char)
    ensures
        final(out)@ == old(out)@.push(c),
{
    out.push(c);
}

/// The ISO 8601 text of the UTC instant `secs` seconds after the Unix epoch.
pub fn format_iso8601(secs: u64) -> (text: String)
    ensures
        text@ == iso8601(secs as nat),
{
    let (y, m, d) = civil_from_days(secs / 86400);
    let rest = secs % 86400;
    let mut out: Vec<char> = Vec::new();
    push_padded(&mut out, y, 4);
    push_text(&mut out, '-');
    push_padded(&mut out, m, 2);
    push_text(&mut out, '-');
    push_padded(&mut out, d, 2);
    push_text(&mut out, 'T');
    push_padded(&mut out, rest / 3600, 2);
    push_text(&mut out, ':');
    push_padded(&mut out, (rest % 3600) / 60, 2);
    push_text(&mut out, ':');
    push_padded(&mut out, rest % 60, 2);
    push_text(&mut out, 'Z');
    proof {
        reveal_strlit("-");
        reveal_strlit("T");
        reveal_strlit(":");
        reveal_strlit("Z");
        assert(out@ =~= iso8601(secs as nat));
    }
    string_of(out.as_slice())
}

/// Seconds since the Unix epoch by `SystemTime::now`, through `duration_since`; none
/// when the clock reads earlier than the epoch. Nothing is claimed of the value: it is
/// whatever the clock says.
#[verifier::external_body]
fn clock_seconds() -> Option<u64> {
    std::time::SystemTime::now().duration_since(std::time::UNIX_EPOCH).ok().map(|elapsed| elapsed.as_secs())
}

/// The current UTC time as ISO 8601 text, such as `2026-09-18T18:54:27Z`; the epoch
/// itself when the clock reads earlier.
pub fn now_iso8601() -> (text: String)
    ensures
        exists|secs: nat| text@ == iso8601(secs),
{
    let secs = match clock_seconds() {
        Some(secs) => secs,
        None => 0,
    };
    format_iso8601(secs)
}

} // verus!
