//! Date and time of day, as the header shows them.

use vstd::prelude::*;

use crate::config;
use crate::text;

verus! {

pub open spec fn leap(y: int) -> bool {
    y % 4 == 0 && (y % 100 != 0 || y % 400 == 0)
}

/// Days of a month of the Gregorian calendar.
pub open spec fn month_days(y: int, m: int) -> int {
    if m == 2 {
        if leap(y) {
            29
        } else {
            28
        }
    } else if m == 4 || m == 6 || m == 9 || m == 11 {
        30
    } else {
        31
    }
}

/// Days of the year before its month `m`.
pub open spec fn before_month(y: int, m: int) -> int
    decreases m,
{
    if m <= 1 {
        0
    } else {
        before_month(y, m - 1) + month_days(y, m - 1)
    }
}

/// Days before year `y`, counted from the first of January of year 1.
pub open spec fn before_year(y: int) -> int {
    365 * (y - 1) + (y - 1) / 4 - (y - 1) / 100 + (y - 1) / 400
}

/// Days from the first of January 1970 to the given day.
pub open spec fn day_number(y: int, m: int, d: int) -> int {
    before_year(y) + before_month(y, m) + (d - 1) - 719162
}

/// (year, month, day) is a date of the calendar, and it is that of the given day.
pub open spec fn is_date(t: (int, int, int), days: int) -> bool {
    &&& 1 <= t.1 <= 12
    &&& 1 <= t.2 <= month_days(t.0, t.1)
    &&& day_number(t.0, t.1, t.2) == days
}

/// The date of a day, counted from the first of January 1970.
pub open spec fn date_of(days: int) -> (int, int, int) {
    choose|t: (int, int, int)| is_date(t, days)
}

/// Lengths of the months, added up.
proof fn lemma_months(y: int)
    ensures
        before_month(y, 1) == 0,
        before_month(y, 2) == 31,
        before_month(y, 3) == 59 + month_days(y, 2) - 28,
        before_month(y, 4) == 90 + month_days(y, 2) - 28,
        before_month(y, 5) == 120 + month_days(y, 2) - 28,
        before_month(y, 6) == 151 + month_days(y, 2) - 28,
        before_month(y, 7) == 181 + month_days(y, 2) - 28,
        before_month(y, 8) == 212 + month_days(y, 2) - 28,
        before_month(y, 9) == 243 + month_days(y, 2) - 28,
        before_month(y, 10) == 273 + month_days(y, 2) - 28,
        before_month(y, 11) == 304 + month_days(y, 2) - 28,
        before_month(y, 12) == 334 + month_days(y, 2) - 28,
{
    reveal_with_fuel(before_month, 13);
}

/// A year has 365 days, a leap year one more.
proof fn lemma_year_length(y: int)
    ensures
        before_year(y + 1) - before_year(y) == if leap(y) {
            366int
        } else {
            365
        },
{
}

proof fn lemma_years_apart(a: int, b: int)
    requires
        a < b,
    ensures
        before_year(a + 1) <= before_year(b),
{
}

/// Each day has one date and no other.
pub proof fn law_date_is_unique(s: (int, int, int), t: (int, int, int), days: int)
    requires
        is_date(s, days),
        is_date(t, days),
    ensures
        s == t,
{
    lemma_months(s.0);
    lemma_months(t.0);
    lemma_year_length(s.0);
    lemma_year_length(t.0);
    if s.0 < t.0 {
        lemma_years_apart(s.0, t.0);
    }
    if t.0 < s.0 {
        lemma_years_apart(t.0, s.0);
    }
    assert(s.0 == t.0);
}

/// The next day: the next of the month, or the first of the next month, or the first of January.
pub proof fn law_next_day(t: (int, int, int), days: int)
    requires
        is_date(t, days),
    ensures
        is_date(
            if t.2 < month_days(t.0, t.1) {
                (t.0, t.1, t.2 + 1)
            } else if t.1 < 12 {
                (t.0, t.1 + 1, 1)
            } else {
                (t.0 + 1, 1, 1)
            },
            days + 1,
        ),
{
    lemma_months(t.0);
    lemma_months(t.0 + 1);
    lemma_year_length(t.0);
}

/// Counting from the first of March of a year divisible by 400: the year within the era, its first
/// day, and the day within it.
proof fn lemma_year_of_era(doe: int, yoe: int, doy: int)
    requires
        0 <= doe < 146097,
        yoe == (doe - doe / 1460 + doe / 36524 - doe / 146096) / 365,
        doy == doe - (365 * yoe + yoe / 4 - yoe / 100),
    ensures
        0 <= yoe < 400,
        0 <= doy <= 365,
        doy == 365 ==> (yoe + 1) % 4 == 0 && ((yoe + 1) % 100 != 0 || (yoe + 1) % 400 == 0),
{
    let a = doe / 1460;
    let b = doe / 36524;
    let e = doe / 146096;
    assert(0 <= b <= 4);
    assert(0 <= e <= 1);
    if b == 0 {
    } else if b == 1 {
    } else if b == 2 {
    } else if b == 3 {
    } else {
    }
}

/// Day and month out of the day of a year that starts in March.
proof fn lemma_march_months(y: int, doy: int, mp: int, d: int, m: int)
    requires
        0 <= doy <= 365,
        mp == (5 * doy + 2) / 153,
        d == doy - (153 * mp + 2) / 5 + 1,
        m == if mp < 10 {
            mp + 3
        } else {
            mp - 9
        },
        doy == 365 ==> leap(y + 1),
    ensures
        1 <= m <= 12,
        1 <= d,
        m >= 3 ==> d <= month_days(y, m) && before_month(y, m) + d - 1 == doy + 31 + month_days(
            y,
            2,
        ),
        m < 3 ==> d <= month_days(y + 1, m) && before_month(y + 1, m) + d - 1 == doy - 306,
{
    lemma_months(y);
    lemma_months(y + 1);
    assert(0 <= mp <= 11);
    if mp == 0 {
    } else if mp == 1 {
    } else if mp == 2 {
    } else if mp == 3 {
    } else if mp == 4 {
    } else if mp == 5 {
    } else if mp == 6 {
    } else if mp == 7 {
    } else if mp == 8 {
    } else if mp == 9 {
    } else if mp == 10 {
    } else {
        assert(mp == 11);
    }
}

/// The day that era and day of the era stand for.
proof fn lemma_civil(
    days: int,
    era: int,
    doe: int,
    yoe: int,
    doy: int,
    mp: int,
    d: int,
    m: int,
)
    requires
        days + 719468 == era * 146097 + doe,
        0 <= era,
        0 <= doe < 146097,
        0 <= yoe < 400,
        0 <= doy <= 365,
        doy == doe - (365 * yoe + yoe / 4 - yoe / 100),
        doy == 365 ==> (yoe + 1) % 4 == 0 && ((yoe + 1) % 100 != 0 || (yoe + 1) % 400 == 0),
        mp == (5 * doy + 2) / 153,
        d == doy - (153 * mp + 2) / 5 + 1,
        m == if mp < 10 {
            mp + 3
        } else {
            mp - 9
        },
    ensures
        is_date(date_of(days), days),
        date_of(days).1 == m,
        date_of(days).2 == d,
        1 <= d <= 31,
        1 <= m <= 12,
{
    let y = era * 400 + yoe;
    assert(y / 4 == 100 * era + yoe / 4);
    assert(y / 100 == 4 * era + yoe / 100);
    assert(y / 400 == era);
    assert((y + 1) % 4 == (yoe + 1) % 4);
    assert((y + 1) % 100 == (yoe + 1) % 100);
    assert((y + 1) % 400 == (yoe + 1) % 400);
    lemma_march_months(y, doy, mp, d, m);
    lemma_year_length(y);
    let t = if m >= 3 {
        (y, m, d)
    } else {
        (y + 1, m, d)
    };
    assert(before_year(y + 1) == 365 * y + y / 4 - y / 100 + y / 400);
    assert(before_year(y + 1) == era * 146097 + 365 * yoe + yoe / 4 - yoe / 100);
    assert(month_days(y, 2) == 28 + (if leap(y) { 1int } else { 0 }));
    assert(day_number(t.0, t.1, t.2) == days);
    assert(is_date(t, days));
    law_date_is_unique(t, date_of(days), days);
}

/// Day of the month and month of a day counted from the first of January 1970.
pub fn day_and_month(days: u64) -> (r: (u64, u64))
    requires
        days <= 0x7FFF_FFFF_FFFF_FFFF,
    ensures
        is_date(date_of(days as int), days as int),
        r.0 == date_of(days as int).2,
        r.1 == date_of(days as int).1,
        1 <= r.0 <= 31,
        1 <= r.1 <= 12,
{
    let z: u64 = days + 719468;
    let era: u64 = z / 146097;
    let doe: u64 = z % 146097;
    let yoe: u64 = (doe - doe / 1460 + doe / 36524 - doe / 146096) / 365;
    proof {
        lemma_year_of_era(
            doe as int,
            yoe as int,
            doe - (365 * yoe + yoe / 4 - yoe / 100),
        );
    }
    let doy: u64 = doe - (365 * yoe + yoe / 4 - yoe / 100);
    let mp: u64 = (5 * doy + 2) / 153;
    let d: u64 = doy - (153 * mp + 2) / 5 + 1;
    let m: u64 = if mp < 10 {
        mp + 3
    } else {
        mp - 9
    };
    proof {
        lemma_civil(
            days as int,
            era as int,
            doe as int,
            yoe as int,
            doy as int,
            mp as int,
            d as int,
            m as int,
        );
    }
    (d, m)
}

/// Two digits.
pub open spec fn two(n: int) -> Seq<char> {
    seq![text::digit((n / 10) as nat), text::digit((n % 10) as nat)]
}

fn push_two(out: &mut String, n: u64)
    requires
        n < 100,
    ensures
        final(out)@ == old(out)@ + two(n as int),
{
    let hi: u8 = (n / 10) as u8;
    let lo: u8 = (n % 10) as u8;
    out.push((48u8 + hi) as char);
    out.push((48u8 + lo) as char);
    assert(out@ =~= old(out)@ + two(n as int));
}

/// Seconds since 1970 where the panel stands. The first hours of 1970 there belong to the day
/// before, which counts as the first.
pub open spec fn local_days(unix: u64) -> int {
    let t = unix + config::GMT_OFFSET_SEC;
    if t < 0 {
        0
    } else {
        t / 86400
    }
}

/// The date, day first: `07/11`.
pub open spec fn date_text(unix: u64) -> Seq<char> {
    let t = date_of(local_days(unix));
    two(t.2) + seq!['/'] + two(t.1)
}

/// The date at the given time (seconds since 1970, Greenwich).
pub fn get_date_string(unix: u64) -> (r: String)
    requires
        unix <= i64::MAX,
    ensures
        r@ == date_text(unix),
        r@.len() == 5,
        vstd::utf8::is_ascii_chars(r@),
{
    let adjusted: i64 = unix as i64 + config::GMT_OFFSET_SEC as i64;
    let days: u64 = if adjusted < 0 {
        0
    } else {
        (adjusted / 86400) as u64
    };
    let (d, m) = day_and_month(days);
    let mut out: String = String::new();
    push_two(&mut out, d);
    out.push('/');
    push_two(&mut out, m);
    assert(out@ =~= date_text(unix));
    out
}

/// Seconds since midnight where the panel stands.
pub open spec fn local_seconds(unix: u64) -> int {
    (unix + config::GMT_OFFSET_SEC) % 86400
}

/// The hour on a twelve-hour clock.
pub open spec fn clock_hour(h24: int) -> int {
    if h24 % 12 == 0 {
        12
    } else {
        h24 % 12
    }
}

/// The time of day on a twelve-hour clock: ` 9:05:00a`.
pub open spec fn time_text(unix: u64) -> Seq<char> {
    let s = local_seconds(unix);
    let h = clock_hour(s / 3600);
    let hour = if h < 10 {
        seq![' ', text::digit(h as nat)]
    } else {
        two(h)
    };
    hour + seq![':'] + two(s % 3600 / 60) + seq![':'] + two(s % 60) + seq![
        if s / 3600 < 12 {
            'a'
        } else {
            'p'
        },
    ]
}

/// The time of day at the given time (seconds since 1970, Greenwich).
pub fn get_time_string(unix: u64) -> (r: String)
    requires
        unix <= i64::MAX,
    ensures
        r@ == time_text(unix),
        r@.len() == 9,
        vstd::utf8::is_ascii_chars(r@),
{
    // A whole day ahead, so that the remainder is never negative.
    let shifted: u64 = unix + 75_600;
    assert(config::GMT_OFFSET_SEC == -10_800);
    let secs: u64 = shifted % 86400;
    assert(secs == local_seconds(unix));
    let h24: u64 = secs / 3600;
    let m: u64 = secs % 3600 / 60;
    let s: u64 = secs % 60;
    let h12: u64 = if h24 % 12 == 0 {
        12
    } else {
        h24 % 12
    };
    let mut out: String = String::new();
    if h12 < 10 {
        out.push(' ');
        let h: u8 = h12 as u8;
        out.push((48u8 + h) as char);
    } else {
        push_two(&mut out, h12);
    }
    out.push(':');
    push_two(&mut out, m);
    out.push(':');
    push_two(&mut out, s);
    out.push(
        if h24 < 12 {
            'a'
        } else {
            'p'
        },
    );
    assert(out@ =~= time_text(unix));
    out
}

} // verus!
