//! Rendering of epoch milliseconds as a UTC timestamp in the form
//! `YYYY-MM-DDTHH:MM:SS.sssZ`, the default value of the `createdAt` and
//! `updatedAt` columns.

use vstd::prelude::*;
use vstd::string::StringExecFns;

verus! {

pub const MS_PER_DAY: u64 = 86400000;
pub const MS_PER_HOUR: u64 = 3600000;
pub const MS_PER_MINUTE: u64 = 60000;
pub const MS_PER_SECOND: u64 = 1000;

/// Upper bound (exclusive) on the timestamps the formatter accepts; it keeps
/// the year at four digits.
pub const MAX_TIMESTAMP_MS: u64 = 253202544000000;

pub open spec fn is_leap_year(y: int) -> bool {
    y % 4 == 0 && (y % 100 != 0 || y % 400 == 0)
}

pub open spec fn days_in_year(y: int) -> int {
    if is_leap_year(y) {
        366
    } else {
        365
    }
}

pub open spec fn days_in_month(y: int, m: int) -> int {
    if m == 2 {
        if is_leap_year(y) {
            29
        } else {
            28
        }
    } else if m == 4 || m == 6 || m == 9 || m == 11 {
        30
    } else {
        31
    }
}

/// Days of year `y` that lie before the first day of month `m`.
pub open spec fn days_before_month(y: int, m: int) -> int
    decreases m,
{
    if m <= 1 {
        0
    } else {
        days_before_month(y, m - 1) + days_in_month(y, m - 1)
    }
}

/// Consumes whole years out of `rem` days, starting at year `y`; returns the
/// year reached and the days left within it.
pub open spec fn year_walk(y: int, rem: int) -> (int, int)
    decreases rem,
{
    if rem < days_in_year(y) {
        (y, rem)
    } else {
        year_walk(y + 1, rem - days_in_year(y))
    }
}

/// Consumes whole months of year `y` out of `rem` days, starting at month `m`;
/// returns the month reached and the days left within it.
pub open spec fn month_walk(y: int, m: int, rem: int) -> (int, int)
    decreases 12 - m,
{
    if m >= 12 || rem < days_in_month(y, m) {
        (m, rem)
    } else {
        month_walk(y, m + 1, rem - days_in_month(y, m))
    }
}

pub open spec fn digit_char(d: int) -> char {
    if d == 1 {
        '1'
    } else if d == 2 {
        '2'
    } else if d == 3 {
        '3'
    } else if d == 4 {
        '4'
    } else if d == 5 {
        '5'
    } else if d == 6 {
        '6'
    } else if d == 7 {
        '7'
    } else if d == 8 {
        '8'
    } else if d == 9 {
        '9'
    } else {
        '0'
    }
}

pub open spec fn pad2(n: int) -> Seq<char> {
    seq![digit_char(n / 10), digit_char(n % 10)]
}

pub open spec fn pad3(n: int) -> Seq<char> {
    seq![digit_char(n / 100), digit_char((n / 10) % 10), digit_char(n % 10)]
}

pub open spec fn pad4(n: int) -> Seq<char> {
    seq![
        digit_char(n / 1000),
        digit_char((n / 100) % 10),
        digit_char((n / 10) % 10),
        digit_char(n % 10),
    ]
}

/// The timestamp text for `ms` milliseconds since 1970-01-01T00:00:00.000Z.
pub open spec fn spec_timestamp(ms: int) -> Seq<char> {
    let days = ms / 86400000;
    let msod = ms % 86400000;
    let yw = year_walk(1970, days);
    let mw = month_walk(yw.0, 1, yw.1);
    pad4(yw.0) + seq!['-'] + pad2(mw.0) + seq!['-'] + pad2(mw.1 + 1) + seq!['T'] + pad2(
        msod / 3600000,
    ) + seq![':'] + pad2((msod / 60000) % 60) + seq![':'] + pad2((msod / 1000) % 60) + seq!['.']
        + pad3(msod % 1000) + seq!['Z']
}

pub open spec fn is_digit(c: char) -> bool {
    c == '0' || c == '1' || c == '2' || c == '3' || c == '4' || c == '5' || c == '6' || c == '7'
        || c == '8' || c == '9'
}

/// The shape `YYYY-MM-DDTHH:MM:SS.sssZ`: twenty-four characters, digits
/// everywhere but the fixed separators and the closing UTC marker.
pub open spec fn is_timestamp_shape(s: Seq<char>) -> bool {
    &&& s.len() == 24
    &&& forall|i: int|
        0 <= i < 24 && i != 4 && i != 7 && i != 10 && i != 13 && i != 16 && i != 19 && i != 23
            ==> is_digit(#[trigger] s[i])
    &&& s[4] == '-'
    &&& s[7] == '-'
    &&& s[10] == 'T'
    &&& s[13] == ':'
    &&& s[16] == ':'
    &&& s[19] == '.'
    &&& s[23] == 'Z'
}

/// Law: whatever the instant, the rendered timestamp is ISO-8601 text with
/// fractional seconds and the UTC marker.
pub proof fn lemma_timestamp_shape(ms: int)
    ensures
        is_timestamp_shape(spec_timestamp(ms)),
{
    let s = spec_timestamp(ms);
    assert(s.len() == 24);
    assert forall|i: int|
        0 <= i < 24 && i != 4 && i != 7 && i != 10 && i != 13 && i != 16 && i != 19 && i != 23
            implies is_digit(#[trigger] s[i]) by {
        assert(s.len() == 24);
    }
}

fn is_leap_year_x(y: u64) -> (r: bool)
    ensures
        r == is_leap_year(y as int),
{
    y % 4 == 0 && (y % 100 != 0 || y % 400 == 0)
}

fn days_in_year_x(y: u64) -> (r: u64)
    ensures
        r as int == days_in_year(y as int),
        365 <= r <= 366,
{
    if is_leap_year_x(y) {
        366
    } else {
        365
    }
}

fn days_in_month_x(y: u64, m: u64) -> (r: u64)
    requires
        1 <= m <= 12,
    ensures
        r as int == days_in_month(y as int, m as int),
        28 <= r <= 31,
{
    if m == 2 {
        if is_leap_year_x(y) {
            29
        } else {
            28
        }
    } else if m == 4 || m == 6 || m == 9 || m == 11 {
        30
    } else {
        31
    }
}

proof fn lemma_days_before_month_whole_year(y: int)
    ensures
        days_before_month(y, 13) == days_in_year(y),
{
    reveal_with_fuel(days_before_month, 13);
}

fn push_digit(s: &mut String, d: u64)
    requires
        d < 10,
    ensures
        final(s)@ == old(s)@ + seq![digit_char(d as int)],
{
    let t: &str = if d == 0 {
        "0"
    } else if d == 1 {
        "1"
    } else if d == 2 {
        "2"
    } else if d == 3 {
        "3"
    } else if d == 4 {
        "4"
    } else if d == 5 {
        "5"
    } else if d == 6 {
        "6"
    } else if d == 7 {
        "7"
    } else if d == 8 {
        "8"
    } else {
        "9"
    };
    proof {
        reveal_strlit("0");
        reveal_strlit("1");
        reveal_strlit("2");
        reveal_strlit("3");
        reveal_strlit("4");
        reveal_strlit("5");
        reveal_strlit("6");
        reveal_strlit("7");
        reveal_strlit("8");
        reveal_strlit("9");
        assert(t@ =~= seq![digit_char(d as int)]);
    }
    s.append(t);
}

fn push_pad2(s: &mut String, n: u64)
    requires
        n < 100,
    ensures
        final(s)@ == old(s)@ + pad2(n as int),
{
    push_digit(s, n / 10);
    push_digit(s, n % 10);
    assert(final(s)@ =~= old(s)@ + pad2(n as int));
}

fn push_pad3(s: &mut String, n: u64)
    requires
        n < 1000,
    ensures
        final(s)@ == old(s)@ + pad3(n as int),
{
    push_digit(s, n / 100);
    push_digit(s, (n / 10) % 10);
    push_digit(s, n % 10);
    assert(final(s)@ =~= old(s)@ + pad3(n as int));
}

fn push_pad4(s: &mut String, n: u64)
    requires
        n < 10000,
    ensures
        final(s)@ == old(s)@ + pad4(n as int),
{
    push_digit(s, n / 1000);
    push_digit(s, (n / 100) % 10);
    push_digit(s, (n / 10) % 10);
    push_digit(s, n % 10);
    assert(final(s)@ =~= old(s)@ + pad4(n as int));
}

/// Renders `ms` milliseconds since the epoch as `YYYY-MM-DDTHH:MM:SS.sssZ`.
pub fn format_timestamp(ms: u64) -> (r: String)
    requires
        ms < MAX_TIMESTAMP_MS,
    ensures
        r@ == spec_timestamp(ms as int),
{
    let days: u64 = ms / MS_PER_DAY;
    let msod: u64 = ms % MS_PER_DAY;
    assert(days <= 2930584);

    let mut y: u64 = 1970;
    let mut yrem: u64 = days;
    loop
        invariant
            1970 <= y,
            yrem <= days,
            days <= 2930584,
            year_walk(1970, days as int) == year_walk(y as int, yrem as int),
            (y - 1970) * 365 <= days - yrem,
        ensures
            1970 <= y,
            yrem as int == year_walk(1970, days as int).1,
            y as int == year_walk(1970, days as int).0,
            yrem < days_in_year(y as int),
            (y - 1970) * 365 <= days,
        decreases yrem,
    {
        let diy = days_in_year_x(y);
        if yrem < diy {
            break;
        }
        yrem = yrem - diy;
        y = y + 1;
    }
    assert(y <= 9998);

    let mut m: u64 = 1;
    let mut mrem: u64 = yrem;
    loop
        invariant
            1 <= m <= 12,
            month_walk(y as int, 1, yrem as int) == month_walk(y as int, m as int, mrem as int),
            mrem + days_before_month(y as int, m as int) == yrem,
            yrem < days_in_year(y as int),
        ensures
            1 <= m <= 12,
            m as int == month_walk(y as int, 1, yrem as int).0,
            mrem as int == month_walk(y as int, 1, yrem as int).1,
            mrem < days_in_month(y as int, m as int),
        decreases 12 - m,
    {
        if m >= 12 {
            proof {
                lemma_days_before_month_whole_year(y as int);
                assert(days_before_month(y as int, 13) == days_before_month(y as int, 12)
                    + days_in_month(y as int, 12));
            }
            assert(mrem < days_in_month(y as int, 12));
            break;
        }
        let dim = days_in_month_x(y, m);
        if mrem < dim {
            break;
        }
        mrem = mrem - dim;
        m = m + 1;
    }
    let d: u64 = mrem + 1;
    assert(d <= 31);

    let hh: u64 = msod / MS_PER_HOUR;
    let mi: u64 = (msod / MS_PER_MINUTE) % 60;
    let ss: u64 = (msod / MS_PER_SECOND) % 60;
    let mmm: u64 = msod % MS_PER_SECOND;
    assert(hh <= 23);

    let mut out = String::new();
    push_pad4(&mut out, y);
    out.append("-");
    push_pad2(&mut out, m);
    out.append("-");
    push_pad2(&mut out, d);
    out.append("T");
    push_pad2(&mut out, hh);
    out.append(":");
    push_pad2(&mut out, mi);
    out.append(":");
    push_pad2(&mut out, ss);
    out.append(".");
    push_pad3(&mut out, mmm);
    out.append("Z");
    proof {
        reveal_strlit("-");
        reveal_strlit("T");
        reveal_strlit(":");
        reveal_strlit(".");
        reveal_strlit("Z");
        assert(out@ =~= spec_timestamp(ms as int));
    }
    out
}

} // verus!
