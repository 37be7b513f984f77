//! Nanosecond timestamps and their calendar form.
//!
//! A timestamp counts nanoseconds since 1970-01-01 00:00:00 UTC. It is shown
//! as a date `YYYYMMDD` and a time `HH:MM:SS.mmm:uuu:nnn` at a whole-hour
//! offset from UTC, on the proleptic Gregorian calendar.
use vstd::prelude::*;
use vstd::arithmetic::div_mod::lemma_fundamental_div_mod_converse;
use crate::text::{fixed_digits, push_char, push_fixed_digits};

verus! {

pub const NANOS_PER_SECOND: u64 = 1_000_000_000;
pub const NANOS_PER_MINUTE: u64 = 60_000_000_000;
pub const NANOS_PER_HOUR: u64 = 3_600_000_000_000;
pub const NANOS_PER_DAY: u64 = 86_400_000_000_000;

// ---------------------------------------------------------------- calendar

pub open spec fn is_leap(year: int) -> bool {
    (year % 4 == 0 && year % 100 != 0) || year % 400 == 0
}

pub open spec fn year_length(year: int) -> int {
    if is_leap(year) { 366 } else { 365 }
}

/// Days in month `month` (1 to 12) of `year`; zero for any other month.
pub open spec fn month_length(year: int, month: int) -> int {
    if month == 2 {
        if is_leap(year) { 29 } else { 28 }
    } else if month == 4 || month == 6 || month == 9 || month == 11 {
        30
    } else if 1 <= month <= 12 {
        31
    } else {
        0
    }
}

/// Days of `year` that lie before the first of `month` (1 to 13).
pub open spec fn days_before_month(year: int, month: int) -> int {
    let leap: int = if is_leap(year) { 1 } else { 0 };
    if month <= 1 { 0 }
    else if month == 2 { 31 }
    else if month == 3 { 59 + leap }
    else if month == 4 { 90 + leap }
    else if month == 5 { 120 + leap }
    else if month == 6 { 151 + leap }
    else if month == 7 { 181 + leap }
    else if month == 8 { 212 + leap }
    else if month == 9 { 243 + leap }
    else if month == 10 { 273 + leap }
    else if month == 11 { 304 + leap }
    else if month == 12 { 334 + leap }
    else { 365 + leap }
}

/// Day number of January 1st of `year`, counted from 1970-01-01 (negative before it).
pub open spec fn days_before_year(year: int) -> int
    decreases (if year >= 1970 { year - 1970 } else { 1970 - year }),
{
    if year > 1970 {
        days_before_year(year - 1) + year_length(year - 1)
    } else if year < 1970 {
        days_before_year(year + 1) - year_length(year)
    } else {
        0
    }
}

pub open spec fn is_valid_date(c: (int, int, int)) -> bool {
    1 <= c.1 <= 12 && 1 <= c.2 <= month_length(c.0, c.1)
}

/// Day number of the date `c` = (year, month, day), counted from 1970-01-01.
pub open spec fn days_from_civil(c: (int, int, int)) -> int {
    days_before_year(c.0) + days_before_month(c.0, c.1) + c.2 - 1
}

/// The date whose day number is `z`.
pub open spec fn civil_from_days(z: int) -> (int, int, int) {
    choose|c: (int, int, int)| is_valid_date(c) && days_from_civil(c) == z
}

/// The calendar day after `c`.
pub open spec fn next_day(c: (int, int, int)) -> (int, int, int) {
    if c.2 < month_length(c.0, c.1) {
        (c.0, c.1, c.2 + 1)
    } else if c.1 < 12 {
        (c.0, c.1 + 1, 1)
    } else {
        (c.0 + 1, 1, 1)
    }
}

proof fn lemma_year_step(year: int)
    ensures
        days_before_year(year + 1) == days_before_year(year) + year_length(year),
{
    if year >= 1970 {
        assert(days_before_year(year + 1) == days_before_year(year) + year_length(year));
    } else {
        assert(days_before_year(year) == days_before_year(year + 1) - year_length(year));
    }
}

proof fn lemma_years_ordered(y1: int, y2: int)
    requires
        y1 < y2,
    ensures
        days_before_year(y1) + year_length(y1) <= days_before_year(y2),
    decreases y2 - y1,
{
    lemma_year_step(y1);
    if y1 + 1 < y2 {
        lemma_year_step(y2 - 1);
        lemma_years_ordered(y1, y2 - 1);
    }
}

proof fn lemma_months_ordered(year: int, m1: int, m2: int)
    requires
        1 <= m1 < m2 <= 13,
    ensures
        days_before_month(year, m1) + month_length(year, m1) <= days_before_month(year, m2),
{
}

/// A valid date lies inside its own year.
proof fn lemma_date_in_year(c: (int, int, int))
    requires
        is_valid_date(c),
    ensures
        days_before_year(c.0) <= days_from_civil(c) < days_before_year(c.0) + year_length(c.0),
{
    lemma_months_ordered(c.0, c.1, 13);
}

/// Different valid dates have different day numbers.
proof fn lemma_civil_unique(a: (int, int, int), b: (int, int, int))
    requires
        is_valid_date(a),
        is_valid_date(b),
        days_from_civil(a) == days_from_civil(b),
    ensures
        a == b,
{
    lemma_date_in_year(a);
    lemma_date_in_year(b);
    if a.0 < b.0 {
        lemma_years_ordered(a.0, b.0);
    } else if b.0 < a.0 {
        lemma_years_ordered(b.0, a.0);
    } else if a.1 < b.1 {
        lemma_months_ordered(a.0, a.1, b.1);
    } else if b.1 < a.1 {
        lemma_months_ordered(a.0, b.1, a.1);
    }
}

/// The next calendar day is a valid date one day number later.
pub proof fn lemma_next_day(c: (int, int, int))
    requires
        is_valid_date(c),
    ensures
        is_valid_date(next_day(c)),
        days_from_civil(next_day(c)) == days_from_civil(c) + 1,
{
    if c.2 >= month_length(c.0, c.1) && c.1 == 12 {
        lemma_year_step(c.0);
    }
}

proof fn lemma_civil_exists(z: int)
    requires
        z >= -1,
    ensures
        is_valid_date(civil_from_days(z)),
        days_from_civil(civil_from_days(z)) == z,
    decreases z + 1,
{
    if z == -1 {
        let c = (1969int, 12int, 31int);
        lemma_year_step(1969);
        assert(is_valid_date(c) && days_from_civil(c) == z);
    } else {
        lemma_civil_exists(z - 1);
        let c = civil_from_days(z - 1);
        lemma_next_day(c);
        assert(is_valid_date(next_day(c)) && days_from_civil(next_day(c)) == z);
    }
}

/// `civil_from_days` names the one date with the day number `z`.
proof fn lemma_civil_from_days(c: (int, int, int), z: int)
    requires
        is_valid_date(c),
        days_from_civil(c) == z,
    ensures
        civil_from_days(z) == c,
{
    assert(exists|d: (int, int, int)| is_valid_date(d) && days_from_civil(d) == z);
    lemma_civil_unique(civil_from_days(z), c);
}

fn is_leap_year(year: i32) -> (r: bool)
    ensures
        r == is_leap(year as int),
{
    (year % 4 == 0 && year % 100 != 0) || (year % 400 == 0)
}

fn days_in_month(year: i32, month: u32) -> (r: u32)
    ensures
        r as int == month_length(year as int, month as int),
{
    match month {
        1 => 31,
        2 => {
            if is_leap_year(year) {
                29
            } else {
                28
            }
        },
        3 => 31,
        4 => 30,
        5 => 31,
        6 => 30,
        7 => 31,
        8 => 31,
        9 => 30,
        10 => 31,
        11 => 30,
        12 => 31,
        _ => 0,
    }
}

fn days_in_year(year: i32) -> (r: i64)
    ensures
        r as int == year_length(year as int),
{
    if is_leap_year(year) {
        366
    } else {
        365
    }
}

/// The (year, month, day) of day number `days`.
fn days_to_date(days: i64) -> (r: (i32, u32, u32))
    requires
        -1 <= days <= u32::MAX,
    ensures
        is_valid_date((r.0 as int, r.1 as int, r.2 as int)),
        days_from_civil((r.0 as int, r.1 as int, r.2 as int)) == days,
        1969 <= r.0,
{
    let mut year: i32 = 1970;
    let mut rest: i64 = days;
    if rest < 0 {
        proof {
            lemma_year_step(1969);
        }
        year = 1969;
        rest = rest + 365;
    }
    while rest >= days_in_year(year)
        invariant
            1969 <= year,
            0 <= rest <= days + 365,
            365 * (year as int - 1970) <= days - rest + 365,
            days_before_year(year as int) + rest == days,
            days <= u32::MAX,
        decreases rest,
    {
        proof {
            lemma_year_step(year as int);
        }
        rest = rest - days_in_year(year);
        year = year + 1;
    }
    let mut month: u32 = 1;
    while rest >= days_in_month(year, month) as i64
        invariant
            1 <= month <= 12,
            0 <= rest,
            days_before_year(year as int) + days_before_month(year as int, month as int) + rest
                == days,
            days_before_month(year as int, month as int) + rest < year_length(year as int),
        decreases rest,
    {
        rest = rest - days_in_month(year, month) as i64;
        month = month + 1;
    }
    (year, month, (rest + 1) as u32)
}

// ---------------------------------------------------------------- time of day

/// The timestamp `unix_nano` moved by `utc_offset_hour` hours.
pub open spec fn local_nanos(unix_nano: u64, utc_offset_hour: i32) -> int {
    unix_nano as int + utc_offset_hour as int * NANOS_PER_HOUR as int
}

/// Day number of the local date of `unix_nano`.
pub open spec fn local_day(unix_nano: u64, utc_offset_hour: i32) -> int {
    local_nanos(unix_nano, utc_offset_hour) / NANOS_PER_DAY as int
}

/// Nanoseconds since local midnight of `unix_nano`.
pub open spec fn local_time_of_day(unix_nano: u64, utc_offset_hour: i32) -> int {
    local_nanos(unix_nano, utc_offset_hour) % NANOS_PER_DAY as int
}

/// `YYYYMMDD` for the date `c`.
pub open spec fn date_text(c: (int, int, int)) -> Seq<char> {
    fixed_digits(c.0 as nat, 4) + fixed_digits(c.1 as nat, 2) + fixed_digits(c.2 as nat, 2)
}

/// `HH:MM:SS.mmm:uuu:nnn` for the time of day `t`, in nanoseconds since midnight.
pub open spec fn time_text(t: int) -> Seq<char> {
    let r = t % NANOS_PER_HOUR as int;
    fixed_digits((t / NANOS_PER_HOUR as int) as nat, 2) + seq![':']
        + fixed_digits((r / NANOS_PER_MINUTE as int) as nat, 2) + seq![':']
        + fixed_digits((r % NANOS_PER_MINUTE as int / NANOS_PER_SECOND as int) as nat, 2)
        + seq!['.']
        + fixed_digits((r % NANOS_PER_SECOND as int / 1_000_000) as nat, 3) + seq![':']
        + fixed_digits((r % 1_000_000 / 1000) as nat, 3) + seq![':']
        + fixed_digits((r % 1000) as nat, 3)
}

/// The UTC hour, minute, second and millisecond of `unix_nano`.
pub fn time_components_from_unix_nano(unix_nano: u64) -> (r: (u8, u8, u8, u16))
    ensures
        r.0 as int == unix_nano as int / NANOS_PER_SECOND as int % 86400 / 3600,
        r.1 as int == unix_nano as int / NANOS_PER_SECOND as int % 3600 / 60,
        r.2 as int == unix_nano as int / NANOS_PER_SECOND as int % 60,
        r.3 as int == unix_nano as int % NANOS_PER_SECOND as int / 1_000_000,
{
    let total_seconds = unix_nano / NANOS_PER_SECOND;
    let nanos = unix_nano % NANOS_PER_SECOND;
    let seconds_of_day = total_seconds % 86400;
    let hours = (seconds_of_day / 3600) as u8;
    let minutes = ((seconds_of_day % 3600) / 60) as u8;
    let seconds = (seconds_of_day % 60) as u8;
    let millis = (nanos / 1_000_000) as u16;
    proof {
        let ts = total_seconds as int;
        assert(ts % 86400 % 3600 == ts % 3600) by {
            vstd::arithmetic::div_mod::lemma_mod_mod(ts, 3600, 24);
        }
        assert(ts % 86400 % 60 == ts % 60) by {
            vstd::arithmetic::div_mod::lemma_mod_mod(ts, 60, 1440);
        }
    }
    (hours, minutes, seconds, millis)
}

/// Splits a local timestamp whose UTC day is `day`, whose UTC hour is `hour`
/// and whose rest within the hour is `rest` into its local day and time of day.
proof fn lemma_local_split(n: u64, off: i32, day: int, hour: int, rest: int, local_hour: int, shift: int)
    requires
        -24 < off < 24,
        0 <= hour < 24,
        0 <= rest < NANOS_PER_HOUR,
        n as int == day * NANOS_PER_DAY + hour * NANOS_PER_HOUR + rest,
        local_hour == hour + off - 24 * shift,
        0 <= local_hour < 24,
    ensures
        local_day(n, off) == day + shift,
        local_time_of_day(n, off) / NANOS_PER_HOUR as int == local_hour,
        local_time_of_day(n, off) % NANOS_PER_HOUR as int == rest,
{
    let t = local_hour * NANOS_PER_HOUR + rest;
    assert(local_nanos(n, off) == (day + shift) * NANOS_PER_DAY + t);
    lemma_fundamental_div_mod_converse(local_nanos(n, off), NANOS_PER_DAY as int, day + shift, t);
    lemma_fundamental_div_mod_converse(t, NANOS_PER_HOUR as int, local_hour, rest);
}

/// The local date `YYYYMMDD` and time `HH:MM:SS.mmm:uuu:nnn` of `unix_nano`
/// at `utc_offset_hour` hours east of UTC.
pub fn convert_unix_nano_to_date_and_time(unix_nano: u64, utc_offset_hour: i32) -> (r: (String, String))
    requires
        -24 < utc_offset_hour < 24,
    ensures
        r.0@ == date_text(civil_from_days(local_day(unix_nano, utc_offset_hour))),
        r.1@ == time_text(local_time_of_day(unix_nano, utc_offset_hour)),
{
    let days_since_epoch = unix_nano / NANOS_PER_DAY;
    let remaining = unix_nano % NANOS_PER_DAY;
    let hours = remaining / NANOS_PER_HOUR;
    let rest = remaining % NANOS_PER_HOUR;

    let mut total_hours: i32 = hours as i32 + utc_offset_hour;
    let mut total_days: i64 = days_since_epoch as i64;
    let ghost mut shift: int = 0;
    if total_hours >= 24 {
        total_hours = total_hours - 24;
        total_days = total_days + 1;
        proof {
            shift = 1;
        }
    } else if total_hours < 0 {
        total_hours = total_hours + 24;
        total_days = total_days - 1;
        proof {
            shift = -1;
        }
    }
    proof {
        lemma_local_split(
            unix_nano,
            utc_offset_hour,
            days_since_epoch as int,
            hours as int,
            rest as int,
            total_hours as int,
            shift,
        );
    }
    let (year, month, day) = days_to_date(total_days);
    proof {
        lemma_civil_from_days((year as int, month as int, day as int), total_days as int);
    }

    let mut date = String::new();
    push_fixed_digits(&mut date, year as u64, 4);
    push_fixed_digits(&mut date, month as u64, 2);
    push_fixed_digits(&mut date, day as u64, 2);

    let mut time = String::new();
    push_fixed_digits(&mut time, total_hours as u64, 2);
    push_char(&mut time, ':');
    push_fixed_digits(&mut time, rest / NANOS_PER_MINUTE, 2);
    push_char(&mut time, ':');
    push_fixed_digits(&mut time, rest % NANOS_PER_MINUTE / NANOS_PER_SECOND, 2);
    push_char(&mut time, '.');
    push_fixed_digits(&mut time, rest % NANOS_PER_SECOND / 1_000_000, 3);
    push_char(&mut time, ':');
    push_fixed_digits(&mut time, rest % 1_000_000 / 1000, 3);
    push_char(&mut time, ':');
    push_fixed_digits(&mut time, rest % 1000, 3);

    assert(date@ =~= date_text(civil_from_days(local_day(unix_nano, utc_offset_hour))));
    assert(time@ =~= time_text(local_time_of_day(unix_nano, utc_offset_hour)));
    (date, time)
}

/// One day of nanoseconds later, the local date is the next calendar day and
/// the local time of day is the same, at any offset.
pub proof fn lemma_one_day_later(unix_nano: u64, utc_offset_hour: i32)
    requires
        -24 < utc_offset_hour < 24,
        unix_nano as int + NANOS_PER_DAY as int <= u64::MAX,
    ensures
        local_day(unix_nano, utc_offset_hour) >= -1,
        civil_from_days(local_day((unix_nano + NANOS_PER_DAY) as u64, utc_offset_hour))
            == next_day(civil_from_days(local_day(unix_nano, utc_offset_hour))),
        local_time_of_day((unix_nano + NANOS_PER_DAY) as u64, utc_offset_hour)
            == local_time_of_day(unix_nano, utc_offset_hour),
{
    let later = (unix_nano + NANOS_PER_DAY) as u64;
    let x = local_nanos(unix_nano, utc_offset_hour);
    let q = x / NANOS_PER_DAY as int;
    let t = x % NANOS_PER_DAY as int;
    assert(local_nanos(later, utc_offset_hour) == (q + 1) * NANOS_PER_DAY + t);
    lemma_fundamental_div_mod_converse(
        local_nanos(later, utc_offset_hour),
        NANOS_PER_DAY as int,
        q + 1,
        t,
    );
    let z = local_day(unix_nano, utc_offset_hour);
    lemma_civil_exists(z);
    let c = civil_from_days(z);
    lemma_next_day(c);
    lemma_civil_from_days(next_day(c), z + 1);
}

} // verus!
