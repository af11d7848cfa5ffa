//! Dates of the Gregorian calendar, and the time stamps of the log.
use vstd::arithmetic::div_mod::{lemma_fundamental_div_mod_converse, lemma_mod_mod};
use vstd::prelude::*;

use crate::number::{padded, push_padded};
use crate::text::{string_of, Text};

verus! {

/// `y` has a 29th of February.
pub open spec fn leap(y: int) -> bool {
    y % 4 == 0 && (y % 100 != 0 || y % 400 == 0)
}

pub open spec fn days_in_month(y: int, m: int) -> int {
    if m == 2 {
        if leap(y) {
            29
        } else {
            28
        }
    } else if m == 4 || m == 6 || m == 9 || m == 11 {
        30
    } else {
        31
    }
}

/// The day `d` of month `m` of year `y` is in the calendar.
pub open spec fn valid_date(y: int, m: int, d: int) -> bool {
    1 <= m <= 12 && 1 <= d <= days_in_month(y, m)
}

/// The days of year `y` before its month `m`.
pub open spec fn days_before_month(y: int, m: int) -> int
    decreases m,
{
    if m <= 1 {
        0
    } else {
        days_before_month(y, m - 1) + days_in_month(y, m - 1)
    }
}

/// The days between 1 January of year 1 and 1 January of year `y`.
pub open spec fn days_before_year(y: int) -> int {
    365 * (y - 1) + (y - 1) / 4 - (y - 1) / 100 + (y - 1) / 400
}

/// The number of a day, where 1 January 1970 has the number 0.
pub open spec fn day_number(y: int, m: int, d: int) -> int {
    days_before_year(y) - days_before_year(1970) + days_before_month(y, m) + (d - 1)
}

/// The date with the given day number.
pub open spec fn civil(days: int) -> (int, int, int) {
    choose|y: int, m: int, d: int| valid_date(y, m, d) && #[trigger] day_number(y, m, d) == days
}

/// A year has 365 days, or 366.
#[verifier::spinoff_prover]
#[verifier::rlimit(40)]
pub proof fn lemma_year_length(y: int)
    ensures
        days_before_year(y + 1) - days_before_year(y) == if leap(y) {
            366int
        } else {
            365
        },
{
}

proof fn lemma_days_before_month(y: int)
    ensures
        days_before_month(y, 1) == 0,
        days_before_month(y, 2) == 31,
        ({
            let f = if leap(y) {
                60int
            } else {
                59
            };
            &&& days_before_month(y, 3) == f
            &&& days_before_month(y, 4) == f + 31
            &&& days_before_month(y, 5) == f + 61
            &&& days_before_month(y, 6) == f + 92
            &&& days_before_month(y, 7) == f + 122
            &&& days_before_month(y, 8) == f + 153
            &&& days_before_month(y, 9) == f + 184
            &&& days_before_month(y, 10) == f + 214
            &&& days_before_month(y, 11) == f + 245
            &&& days_before_month(y, 12) == f + 275
        }),
{
    reveal_with_fuel(days_before_month, 13);
}

/// Days of an earlier year have smaller numbers.
proof fn lemma_earlier_year(y1: int, y2: int)
    requires
        y1 < y2,
    ensures
        days_before_year(y1) + (if leap(y1) { 366int } else { 365 }) <= days_before_year(y2),
    decreases y2 - y1,
{
    lemma_year_length(y1);
    if y1 + 1 < y2 {
        lemma_earlier_year(y1 + 1, y2);
    }
}

/// The day of the year is within the year.
proof fn lemma_day_of_year(y: int, m: int, d: int)
    requires
        valid_date(y, m, d),
    ensures
        0 <= days_before_month(y, m) + (d - 1) < if leap(y) { 366int } else { 365 },
{
    lemma_days_before_month(y);
}

/// No two dates have the same day number.
pub proof fn lemma_day_number_unique(y1: int, m1: int, d1: int, y2: int, m2: int, d2: int)
    requires
        valid_date(y1, m1, d1),
        valid_date(y2, m2, d2),
        day_number(y1, m1, d1) == day_number(y2, m2, d2),
    ensures
        y1 == y2 && m1 == m2 && d1 == d2,
{
    lemma_day_of_year(y1, m1, d1);
    lemma_day_of_year(y2, m2, d2);
    if y1 < y2 {
        lemma_earlier_year(y1, y2);
    } else if y2 < y1 {
        lemma_earlier_year(y2, y1);
    } else {
        lemma_days_before_month(y1);
    }
}

/// The date found for a day number is the date with that number.
proof fn lemma_civil_is(days: int, y: int, m: int, d: int)
    requires
        valid_date(y, m, d),
        day_number(y, m, d) == days,
    ensures
        civil(days) == (y, m, d),
{
    let (a, b, c) = civil(days);
    lemma_day_number_unique(a, b, c, y, m, d);
}

/// Year of a 400-year era that begins in March, by the day of the era.
spec fn year_of_era(doe: int) -> int {
    (doe - doe / 1460 + doe / 36524 - doe / 146_096) / 365
}

/// Days of the era before the year `yoe` of the era.
spec fn era_days(yoe: int) -> int {
    365 * yoe + yoe / 4 - yoe / 100
}

#[verifier::spinoff_prover]
#[verifier::rlimit(40)]
proof fn lemma_year_of_era(doe: int)
    requires
        0 <= doe < 146_097,
    ensures
        0 <= year_of_era(doe) < 400,
        0 <= doe - era_days(year_of_era(doe)) <= 365,
        doe - era_days(year_of_era(doe)) == 365 ==> leap(year_of_era(doe) + 1),
{
    let c = if doe == 146_096 { 3 } else { doe / 36524 };
    let r = doe - 36524 * c;
    let q = r / 1461;
    let s = r - 1461 * q;
    let t = if s == 1460 { 3 } else { s / 365 };
    assert(0 <= c <= 3);
    assert(0 <= r <= 36524);
    assert(0 <= q <= 24);
    assert(0 <= s <= 1460);
    assert(0 <= t <= 3);
    let y = 100 * c + 4 * q + t;
    assert(year_of_era(doe) == y);
}

/// The month that holds day `doy` of a year that begins in March, counted from
/// March, which is 0.
spec fn march_month(doy: int) -> int {
    (5 * doy + 2) / 153
}

/// The day `doy` of the year that begins in March of year `y`, as month and day.
#[verifier::spinoff_prover]
#[verifier::rlimit(40)]
proof fn lemma_march_month(y: int, doy: int)
    requires
        0 <= doy <= 365,
        doy == 365 ==> leap(y + 1),
    ensures
        ({
            let mp = march_month(doy);
            let day = doy - (153 * mp + 2) / 5 + 1;
            &&& 0 <= mp <= 11
            &&& mp < 10 ==> valid_date(y, mp + 3, day)
            &&& mp < 10 ==> days_before_month(y, mp + 3) + (day - 1) == doy + (if leap(y) { 60int } else { 59 })
            &&& mp >= 10 ==> valid_date(y + 1, mp - 9, day)
            &&& mp >= 10 ==> days_before_month(y + 1, mp - 9) + (day - 1) == doy - 306
        }),
{
    lemma_days_before_month(y);
    lemma_days_before_month(y + 1);
    let mp = march_month(doy);
    assert(0 <= mp <= 11);
}

/// 1 March of year `y`, counted from 1 March of year 0, in relation to 1 January.
#[verifier::spinoff_prover]
#[verifier::rlimit(40)]
proof fn lemma_march_first(y: int)
    ensures
        days_before_year(y) + (if leap(y) { 60int } else { 59 }) - 719_162 == 365 * y + y / 4 - y / 100 + y / 400
            - 719_468,
        days_before_year(y + 1) - 306 - 719_162 == 365 * y + y / 4 - y / 100 + y / 400 - 719_468,
{
}

/// An era is 146097 days long.
#[verifier::spinoff_prover]
#[verifier::rlimit(40)]
proof fn lemma_era(era: int, yoe: int)
    requires
        0 <= yoe < 400,
    ensures
        ({
            let y = yoe + era * 400;
            &&& 365 * y + y / 4 - y / 100 + y / 400 == era * 146_097 + era_days(yoe)
            &&& leap(y + 1) == leap(yoe + 1)
        }),
{
    let y = yoe + era * 400;
    let next = yoe + 1;
    lemma_fundamental_div_mod_converse(y, 4, yoe / 4 + 100 * era, yoe % 4);
    lemma_fundamental_div_mod_converse(y, 100, yoe / 100 + 4 * era, yoe % 100);
    lemma_fundamental_div_mod_converse(y, 400, era, yoe);
    lemma_fundamental_div_mod_converse(y + 1, 4, next / 4 + 100 * era, next % 4);
    lemma_fundamental_div_mod_converse(y + 1, 100, next / 100 + 4 * era, next % 100);
    lemma_fundamental_div_mod_converse(y + 1, 400, next / 400 + era, next % 400);
}

/// The date that the March-based reckoning gives for a day of an era.
spec fn march_date(era: int, doe: int) -> (int, int, int) {
    let yoe = year_of_era(doe);
    let doy = doe - era_days(yoe);
    let mp = march_month(doy);
    let day = doy - (153 * mp + 2) / 5 + 1;
    let year = yoe + era * 400;
    if mp < 10 {
        (year, mp + 3, day)
    } else {
        (year + 1, mp - 9, day)
    }
}

/// The March-based reckoning gives the date with the day number.
proof fn lemma_march_date(era: int, doe: int)
    requires
        0 <= doe < 146_097,
    ensures
        ({
            let (y, m, d) = march_date(era, doe);
            let days = era * 146_097 + doe - 719_468;
            &&& valid_date(y, m, d)
            &&& day_number(y, m, d) == days
            &&& civil(days) == (y, m, d)
        }),
{
    lemma_year_of_era(doe);
    let yoe = year_of_era(doe);
    let year = yoe + era * 400;
    lemma_era(era, yoe);
    lemma_march_first(year);
    lemma_march_month(year, doe - era_days(yoe));
    assert(days_before_year(1970) == 719_162);
    let (y, m, d) = march_date(era, doe);
    lemma_civil_is(era * 146_097 + doe - 719_468, y, m, d);
}

/// Every day number belongs to a date.
pub proof fn lemma_civil(days: int)
    ensures
        ({
            let (y, m, d) = civil(days);
            valid_date(y, m, d) && day_number(y, m, d) == days
        }),
{
    let z = days + 719_468;
    lemma_march_date(z / 146_097, z % 146_097);
}

/// The date after a given one.
pub open spec fn next_date(y: int, m: int, d: int) -> (int, int, int) {
    if d < days_in_month(y, m) {
        (y, m, d + 1)
    } else if m < 12 {
        (y, m + 1, 1)
    } else {
        (y + 1, 1, 1)
    }
}

/// Day 0 is 1 January 1970, and each following day number belongs to the
/// following date of the calendar.
#[verifier::spinoff_prover]
#[verifier::rlimit(40)]
pub proof fn law_dates_follow_each_other(days: int)
    ensures
        civil(0) == (1970int, 1int, 1int),
        ({
            let (y, m, d) = civil(days);
            civil(days + 1) == next_date(y, m, d)
        }),
{
    assert(day_number(1970, 1, 1) == 0) by {
        lemma_days_before_month(1970);
    }
    lemma_civil_is(0, 1970, 1, 1);
    lemma_civil(days);
    let (y, m, d) = civil(days);
    let (y2, m2, d2) = next_date(y, m, d);
    lemma_days_before_month(y);
    lemma_days_before_month(y + 1);
    lemma_year_length(y);
    assert(valid_date(y2, m2, d2));
    assert(day_number(y2, m2, d2) == days + 1);
    lemma_civil_is(days + 1, y2, m2, d2);
}

/// The date with the day number `days`.
fn date_of(days: i64) -> (r: (i64, u32, u32))
    requires
        -200_000_000_000_000 <= days <= 200_000_000_000_000,
    ensures
        (r.0 as int, r.1 as int, r.2 as int) == civil(days as int),
{
    let z: i64 = days + 719_468;
    let era: i64 = match z.checked_div_euclid(146_097) {
        Some(q) => q,
        None => 0,
    };
    assert(era == z as int / 146_097);
    let doe: u64 = (z - era * 146_097) as u64;
    proof {
        lemma_year_of_era(doe as int);
        lemma_march_date(era as int, doe as int);
    }
    let yoe: u64 = (doe - doe / 1460 + doe / 36524 - doe / 146_096) / 365;
    assert(yoe == year_of_era(doe as int));
    let doy: u64 = doe - (365 * yoe + yoe / 4 - yoe / 100);
    proof {
        lemma_march_month(yoe + era * 400, doy as int);
    }
    let mp: u64 = (5 * doy + 2) / 153;
    let day: u32 = (doy - (153 * mp + 2) / 5 + 1) as u32;
    let month: u32 = (if mp < 10 { mp + 3 } else { mp - 9 }) as u32;
    let march_year: i64 = yoe as i64 + era * 400;
    let year: i64 = if month <= 2 { march_year + 1 } else { march_year };
    (year, month, day)
}

/// Whole days do not change the minute and the second.
#[verifier::spinoff_prover]
#[verifier::rlimit(30)]
proof fn lemma_time_of_day(secs: int)
    ensures
        (secs % 86_400) % 3600 == secs % 3600,
        (secs % 86_400) % 60 == secs % 60,
{
    lemma_mod_mod(secs, 3600, 24);
    lemma_mod_mod(secs, 60, 1440);
}

/// The date `secs` seconds after the start of 1 January 1970. Of a year that an `i32`
/// cannot hold, its low 32 bits.
pub open spec fn date_at(secs: int) -> (int, int, int) {
    let (y, m, d) = civil(secs / 86_400);
    ((y as i32) as int, m, d)
}

/// The hour, minute and second `secs` seconds after the start of a day.
pub open spec fn time_at(secs: int) -> (int, int, int) {
    ((secs % 86_400) / 3600, (secs % 3600) / 60, secs % 60)
}

/// Year, month, day, hour, minute and second of the time `secs` seconds after the
/// start of 1 January 1970. Of a year that an `i32` cannot hold, its low 32 bits.
pub fn seconds_to_ymdhms(secs: i64) -> (r: (i32, u32, u32, u32, u32, u32))
    ensures
        (r.0 as int, r.1 as int, r.2 as int) == date_at(secs as int),
        (r.3 as int, r.4 as int, r.5 as int) == time_at(secs as int),
{
    let days: i64 = match secs.checked_div_euclid(86_400) {
        Some(q) => q,
        None => 0,
    };
    let time_of_day: i64 = match secs.checked_rem_euclid(86_400) {
        Some(t) => t,
        None => 0,
    };
    assert(days == secs as int / 86_400);
    assert(time_of_day == secs as int % 86_400);
    proof {
        lemma_time_of_day(secs as int);
    }
    let hour: u32 = (time_of_day / 3600) as u32;
    let minute: u32 = ((time_of_day % 3600) / 60) as u32;
    let second: u32 = (time_of_day % 60) as u32;
    let (year, month, day) = date_of(days);
    (#[verifier::truncate] (year as i32), month, day, hour, minute, second)
}

/// The log's notation `YYYY-MM-DD HH:MM:SS.sss` of a time in seconds after the
/// start of 1 January 1970, with its thousandths.
pub open spec fn stamp(secs: int, millis: int) -> Text {
    let (y, m, d) = civil(secs / 86_400);
    padded((y as i32) as int, 4) + seq!['-'] + padded(m, 2) + seq!['-'] + padded(d, 2) + seq![' '] + padded(
        (secs % 86_400) / 3600,
        2,
    ) + seq![':'] + padded((secs % 3600) / 60, 2) + seq![':'] + padded(secs % 60, 2) + seq!['.'] + padded(
        millis,
        3,
    )
}

/// The notation of a time as local time.
pub open spec fn local_stamp(secs: int, millis: int, offset_minutes: Option<i32>) -> Text {
    stamp(secs + 60 * local_offset(offset_minutes), millis)
}

/// Writes the time that a clock shows, `total_secs` seconds and `millis`
/// thousandths after the start of 1 January 1970, as local time. Without an
/// offset from UTC it is written as it is.
pub fn format_timestamp(total_secs: u64, millis: u32, offset_minutes: Option<i32>) -> (s: String)
    requires
        total_secs <= i64::MAX,
        total_secs + 60 * local_offset(offset_minutes) <= i64::MAX,
    ensures
        s@ == local_stamp(total_secs as int, millis as int, offset_minutes),
{
    let offset: i64 = match offset_minutes {
        Some(m) => m as i64,
        None => 0,
    };
    let (year, month, day, hour, minute, second) = seconds_to_ymdhms(total_secs as i64 + offset * 60);
    let mut v: Vec<char> = Vec::new();
    push_padded(year as i64, 4, &mut v);
    v.push('-');
    push_padded(month as i64, 2, &mut v);
    v.push('-');
    push_padded(day as i64, 2, &mut v);
    v.push(' ');
    push_padded(hour as i64, 2, &mut v);
    v.push(':');
    push_padded(minute as i64, 2, &mut v);
    v.push(':');
    push_padded(second as i64, 2, &mut v);
    v.push('.');
    push_padded(millis as i64, 3, &mut v);
    assert(v@ =~= local_stamp(total_secs as int, millis as int, offset_minutes));
    string_of(&v)
}

/// The minutes that local time is ahead of UTC, where they are known.
pub open spec fn local_offset(offset_minutes: Option<i32>) -> int {
    match offset_minutes {
        Some(m) => m as int,
        None => 0,
    }
}

/// What the system says of its time zone: minutes behind UTC, and what is added
/// to them in standard and in daylight time. `state` is 1 in standard time, 2 in
/// daylight time.
pub struct TimeZone {
    pub state: u32,
    pub bias: i32,
    pub standard_bias: i32,
    pub daylight_bias: i32,
}

impl TimeZone {
    /// Minutes that local time is behind UTC.
    pub open spec fn behind(&self) -> int {
        self.bias + (if self.state == 2 {
            self.daylight_bias as int
        } else if self.state == 1 {
            self.standard_bias as int
        } else {
            0
        })
    }
}

/// The minutes that local time is ahead of UTC, where the system has a time zone.
pub open spec fn ahead(zone: Option<TimeZone>) -> Option<int> {
    match zone {
        Some(z) => Some(-z.behind()),
        None => None,
    }
}

/// The minutes that local time is ahead of UTC; nothing where the system has no
/// time zone to tell.
pub fn local_offset_minutes(zone: Option<TimeZone>) -> (r: Option<i32>)
    requires
        zone matches Some(z) ==> i32::MIN < z.behind() <= i32::MAX,
    ensures
        (match r {
            Some(m) => Some(m as int),
            None => None,
        }) == ahead(zone),
{
    match zone {
        None => None,
        Some(z) => {
            let total_bias: i32 = match z.state {
                2 => z.bias + z.daylight_bias,
                1 => z.bias + z.standard_bias,
                _ => z.bias,
            };
            Some(-total_bias)
        },
    }
}

/// The day after the last of a month is the first of the next, after 31 December the first
/// of January of the next year, and any other day is followed by the next of its month.
/// April, June, September and November have 30 days, February has 28, or 29 in a year that
/// 4 divides, unless 100 does and 400 does not, and the other months have 31.
#[verifier::spinoff_prover]
#[verifier::rlimit(40)]
pub proof fn law_length_of_months(days: int)
    ensures
        ({
            let (y, m, d) = civil(days);
            let short = m == 4 || m == 6 || m == 9 || m == 11;
            let leap_year = y % 400 == 0 || (y % 4 == 0 && y % 100 != 0);
            let last = ({
                ||| d == 31
                ||| d == 30 && short
                ||| d == 29 && m == 2
                ||| d == 28 && m == 2 && !leap_year
            });
            &&& 1 <= m <= 12
            &&& 1 <= d <= 31
            &&& !last ==> civil(days + 1) == (y, m, d + 1)
            &&& last && m < 12 ==> civil(days + 1) == (y, m + 1, 1int)
            &&& last && m == 12 ==> civil(days + 1) == (y + 1, 1int, 1int)
            &&& d == 31 ==> !short && m != 2
            &&& d == 30 ==> m != 2
            &&& d == 29 && m == 2 ==> leap_year
        }),
{
    lemma_civil(days);
    law_dates_follow_each_other(days);
}

/// A time in seconds has the days, hours, minutes and seconds that it is made of.
#[verifier::spinoff_prover]
#[verifier::rlimit(40)]
proof fn lemma_parts_of_a_time(days: int, h: int, mi: int, s: int)
    requires
        0 <= h < 24,
        0 <= mi < 60,
        0 <= s < 60,
    ensures
        ({
            let secs = 86_400 * days + 3600 * h + 60 * mi + s;
            &&& secs / 86_400 == days
            &&& (secs % 86_400) / 3600 == h
            &&& (secs % 3600) / 60 == mi
            &&& secs % 60 == s
        }),
{
    let secs = 86_400 * days + 3600 * h + 60 * mi + s;
    lemma_fundamental_div_mod_converse(secs, 86_400, days, 3600 * h + 60 * mi + s);
    lemma_fundamental_div_mod_converse(3600 * h + 60 * mi + s, 3600, h, 60 * mi + s);
    lemma_fundamental_div_mod_converse(secs, 3600, 24 * days + h, 60 * mi + s);
    lemma_fundamental_div_mod_converse(60 * mi + s, 60, mi, s);
    lemma_fundamental_div_mod_converse(secs, 60, 1440 * days + 60 * h + mi, s);
}

/// So many days, hours, minutes and seconds after the start of 1 January 1970 it is that
/// day's date and that time, before 1970 too.
pub proof fn law_date_and_time(days: int, h: int, mi: int, s: int)
    requires
        0 <= h < 24,
        0 <= mi < 60,
        0 <= s < 60,
        i32::MIN <= civil(days).0 <= i32::MAX,
    ensures
        date_at(86_400 * days + 3600 * h + 60 * mi + s) == civil(days),
        time_at(86_400 * days + 3600 * h + 60 * mi + s) == (h, mi, s),
{
    lemma_parts_of_a_time(days, h, mi, s);
}

/// The time stamp of the hour `h`, the minute `mi`, the second `s` and the thousandth `ms`
/// of a day has the date of that day, and those numbers, each in so many digits.
pub proof fn law_time_stamp(days: int, h: int, mi: int, s: int, ms: int)
    requires
        0 <= h < 24,
        0 <= mi < 60,
        0 <= s < 60,
        i32::MIN <= civil(days).0 <= i32::MAX,
    ensures
        ({
            let (year, month, day) = civil(days);
            stamp(86_400 * days + 3600 * h + 60 * mi + s, ms) == padded(year, 4) + "-"@ + padded(month, 2) + "-"@
                + padded(day, 2) + " "@ + padded(h, 2) + ":"@ + padded(mi, 2) + ":"@ + padded(s, 2) + "."@ + padded(
                ms,
                3,
            )
        }),
{
    lemma_parts_of_a_time(days, h, mi, s);
    reveal_strlit("-");
    reveal_strlit(" ");
    reveal_strlit(":");
    reveal_strlit(".");
    assert("-"@ =~= seq!['-'] && " "@ =~= seq![' '] && ":"@ =~= seq![':'] && "."@ =~= seq!['.']);
}

/// Local time is behind UTC by the bias of its zone, with what daylight time adds to it in
/// daylight time, and what standard time adds in standard time; and it is ahead by as much
/// less. So many minutes ahead, a time is written as that many minutes later.
pub proof fn law_time_zone(zone: TimeZone, secs: int, millis: int, minutes: i32)
    ensures
        ahead(Some(zone)) == Some(-zone.behind()),
        ahead(None) is None,
        local_stamp(secs, millis, Some(minutes)) == stamp(secs + 60 * minutes, millis),
        local_stamp(secs, millis, None) == stamp(secs, millis),
        zone.state == 1 ==> zone.behind() == zone.bias + zone.standard_bias,
        zone.state == 2 ==> zone.behind() == zone.bias + zone.daylight_bias,
        zone.state != 1 && zone.state != 2 ==> zone.behind() == zone.bias,
        local_offset(None) == 0,
        local_offset(Some(zone.bias)) == zone.bias,
{
}

} // verus!
