use chrono::TimeZone;
use vstd::arithmetic::div_mod::{lemma_fundamental_div_mod, lemma_fundamental_div_mod_converse};
use vstd::prelude::*;

verus! {

/// The earliest year that a calendar date may have.
pub const MIN_YEAR: i32 = -262143;

/// The latest year that a calendar date may have.
pub const MAX_YEAR: i32 = 262142;

pub open spec fn is_leap_year(y: int) -> bool {
    (y % 4 == 0 && y % 100 != 0) || y % 400 == 0
}

pub open spec fn days_in_month(y: int, m: int) -> int {
    if m == 2 {
        if is_leap_year(y) {
            29
        } else {
            28
        }
    } else if m == 4 || m == 6 || m == 9 || m == 11 {
        30
    } else {
        31
    }
}

/// Whether the fields name a moment of the proleptic Gregorian calendar within
/// the supported years.
pub open spec fn civil_valid(y: int, m: int, d: int, h: int, mi: int, s: int) -> bool {
    &&& MIN_YEAR <= y <= MAX_YEAR
    &&& 1 <= m <= 12
    &&& 1 <= d <= days_in_month(y, m)
    &&& 0 <= h < 24
    &&& 0 <= mi < 60
    &&& 0 <= s < 60
}

/// Days from 1970-01-01 to the given date of the proleptic Gregorian calendar.
pub open spec fn days_from_civil(y: int, m: int, d: int) -> int {
    let yy = if m <= 2 {
        y - 1
    } else {
        y
    };
    let era = yy / 400;
    let yoe = yy - era * 400;
    let mp = if m > 2 {
        m - 3
    } else {
        m + 9
    };
    let doy = (153 * mp + 2) / 5 + d - 1;
    let doe = yoe * 365 + yoe / 4 - yoe / 100 + doy;
    era * 146097 + doe - 719468
}

/// Seconds from 1970-01-01 00:00:00 to the given moment, all in one frame.
pub open spec fn civil_seconds(y: int, m: int, d: int, h: int, mi: int, s: int) -> int {
    days_from_civil(y, m, d) * 86400 + h * 3600 + mi * 60 + s
}

/// A wall time is counted in seconds from 1970-01-01 00:00:00 of its own frame.
pub open spec fn day_number(t: int) -> int {
    t / 86400
}

pub open spec fn second_of_day(t: int) -> int {
    t % 86400
}

pub open spec fn hour_of(t: int) -> int {
    second_of_day(t) / 3600
}

pub open spec fn minute_of(t: int) -> int {
    (second_of_day(t) % 3600) / 60
}

pub open spec fn second_of(t: int) -> int {
    t % 60
}

/// The wall time `t` with its hour and minute replaced; its day and its second
/// stay.
pub open spec fn with_hour_minute(t: int, h: int, mi: int) -> int {
    t - second_of_day(t) + h * 3600 + mi * 60 + second_of(t)
}

/// The instants, in seconds from 1970-01-01 00:00:00 UTC, that chrono can
/// hold: from the first second of its earliest date to the last second of its
/// latest.
pub open spec fn chrono_instant(t: int) -> bool {
    -8_334_601_228_800 <= t <= 8_210_266_876_799
}

pub open spec fn fits_i64(x: int) -> bool {
    i64::MIN <= x <= i64::MAX
}

/// Setting the hour and minute of a wall time gives that hour and minute on the
/// same day, with the second kept.
pub proof fn lemma_with_hour_minute(t: int, h: int, mi: int)
    requires
        0 <= h < 24,
        0 <= mi < 60,
    ensures
        hour_of(with_hour_minute(t, h, mi)) == h,
        minute_of(with_hour_minute(t, h, mi)) == mi,
        second_of(with_hour_minute(t, h, mi)) == second_of(t),
        day_number(with_hour_minute(t, h, mi)) == day_number(t),
{
    let w = with_hour_minute(t, h, mi);
    let q = t / 86400;
    let sec = t % 60;
    let x = h * 3600 + mi * 60 + sec;
    lemma_fundamental_div_mod(t, 86400);
    assert(w == q * 86400 + x);
    lemma_fundamental_div_mod_converse(w, 86400, q, x);
    lemma_fundamental_div_mod_converse(x, 3600, h, mi * 60 + sec);
    lemma_fundamental_div_mod_converse(mi * 60 + sec, 60, mi, sec);
    lemma_fundamental_div_mod(t, 60);
    let k = q * 1440 + h * 60 + mi;
    assert(w == k * 60 + sec);
    lemma_fundamental_div_mod_converse(w, 60, k, sec);
}

/// The second of the day of a wall time.
pub(crate) fn second_in_day(t: i64) -> (r: i64)
    ensures
        r == second_of_day(t as int),
        0 <= r < 86400,
{
    match t.checked_rem_euclid(86400) {
        Some(s) => s,
        None => 0,
    }
}

/// Sets the hour and minute of the wall time `t`, keeping its day and its
/// second; `None` where the result does not fit.
pub fn set_hour_minute(t: i64, hour: u32, minute: u32) -> (r: Option<i64>)
    requires
        hour < 24,
        minute < 60,
    ensures
        fits_i64(with_hour_minute(t as int, hour as int, minute as int)) ==> r == Some(
            with_hour_minute(t as int, hour as int, minute as int) as i64,
        ),
        !fits_i64(with_hour_minute(t as int, hour as int, minute as int)) ==> r is None,
{
    let s = second_in_day(t);
    let sec = match t.checked_rem_euclid(60) {
        Some(v) => v,
        None => 0,
    };
    let delta: i64 = (hour as i64) * 3600 + (minute as i64) * 60 + sec - s;
    t.checked_add(delta)
}

/// Relies on chrono's `TimeZone::with_ymd_and_hms` on `Utc` and
/// `DateTime::timestamp`: a date and time of the proleptic Gregorian calendar
/// within chrono's years, counted in seconds from 1970-01-01 00:00:00.
#[verifier::external_body]
fn chrono_civil_seconds(y: i32, m: u32, d: u32, h: u32, mi: u32, s: u32) -> (r: Option<i64>)
    ensures
        r is Some <==> civil_valid(y as int, m as int, d as int, h as int, mi as int, s as int),
        r matches Some(t) ==> t == civil_seconds(
            y as int,
            m as int,
            d as int,
            h as int,
            mi as int,
            s as int,
        ),
{
    chrono::Utc.with_ymd_and_hms(y, m, d, h, mi, s).single().map(|t| t.timestamp())
}

/// The wall time of the given date and time, in seconds from 1970-01-01
/// 00:00:00 of the same frame; `None` where no such moment exists.
pub fn civil_to_seconds(y: i32, m: u32, d: u32, h: u32, mi: u32, s: u32) -> (r: Option<i64>)
    ensures
        civil_valid(y as int, m as int, d as int, h as int, mi as int, s as int) ==> r == Some(
            civil_seconds(y as int, m as int, d as int, h as int, mi as int, s as int) as i64,
        ),
        !civil_valid(y as int, m as int, d as int, h as int, mi as int, s as int) ==> r is None,
{
    chrono_civil_seconds(y, m, d, h, mi, s)
}

} // verus!
