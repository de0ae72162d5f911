//! UTC timestamps in the `YYYY-MM-DDThh:mm:ss+00:00` form used by sitemaps.
use vstd::prelude::*;
use vstd::string::*;
use crate::text::{padded, push_padded};

verus! {

pub open spec fn is_leap_year(y: nat) -> bool {
    y % 4 == 0 && (y % 100 != 0 || y % 400 == 0)
}

pub open spec fn days_in_year(y: nat) -> nat {
    if is_leap_year(y) {
        366
    } else {
        365
    }
}

/// The year, and the day within it (from zero), that lies `days` days
/// after the first of January of `year`.
pub open spec fn year_and_day(year: nat, days: nat) -> (nat, nat)
    decreases days,
{
    if days >= days_in_year(year) {
        year_and_day(year + 1, (days - days_in_year(year)) as nat)
    } else {
        (year, days)
    }
}

/// The length of month `m` (from zero, January first).
pub open spec fn days_in_month(leap: bool, m: nat) -> nat {
    if m == 1 {
        if leap {
            29
        } else {
            28
        }
    } else if m == 3 || m == 5 || m == 8 || m == 10 {
        30
    } else {
        31
    }
}

/// The month (from zero), and the day within it (from zero), of day `days`
/// counted from the start of month `m`.
pub open spec fn month_and_day(leap: bool, m: nat, days: nat) -> (nat, nat)
    decreases 12 - m,
{
    if m < 12 && days >= days_in_month(leap, m) {
        month_and_day(leap, m + 1, (days - days_in_month(leap, m)) as nat)
    } else {
        (m, days)
    }
}

/// The timestamp text of the moment `secs` seconds after the Unix epoch.
pub open spec fn datetime_text(secs: nat) -> Seq<char> {
    let (year, yday) = year_and_day(1970, secs / 86400);
    let (month, mday) = month_and_day(is_leap_year(year), 0, yday);
    let s = secs % 86400;
    padded(year, 4) + "-"@ + padded(month + 1, 2) + "-"@ + padded(mday + 1, 2) + "T"@ + padded(
        s / 3600,
        2,
    ) + ":"@ + padded((s % 3600) / 60, 2) + ":"@ + padded(s % 60, 2) + "+00:00"@
}

/// Relies on `std::time::SystemTime::now`: whole seconds since the Unix
/// epoch, zero if the clock reads earlier. Any value may come back.
#[verifier::external_body]
fn unix_seconds_now() -> (r: u64) {
    match std::time::SystemTime::now().duration_since(std::time::UNIX_EPOCH) {
        Ok(d) => d.as_secs(),
        Err(_) => 0,
    }
}

fn month_length(leap: bool, m: u64) -> (r: u64)
    ensures
        r == days_in_month(leap, m as nat),
{
    if m == 1 {
        if leap {
            29
        } else {
            28
        }
    } else if m == 3 || m == 5 || m == 8 || m == 10 {
        30
    } else {
        31
    }
}

/// Formats the moment `total_seconds` seconds after the Unix epoch as
/// `YYYY-MM-DDThh:mm:ss+00:00` (UTC).
pub fn format_datetime(total_seconds: u64) -> (r: String)
    ensures
        r@ == datetime_text(total_seconds as nat),
{
    let days_since_epoch = total_seconds / 86400;
    let seconds_in_day = total_seconds % 86400;
    let mut year: u64 = 1970;
    let mut days_remaining: u64 = days_since_epoch;
    loop
        invariant
            days_remaining <= days_since_epoch,
            year <= 1970 + (days_since_epoch - days_remaining),
            days_since_epoch < u64::MAX / 86400 + 1,
            year_and_day(1970, days_since_epoch as nat) == year_and_day(
                year as nat,
                days_remaining as nat,
            ),
        ensures
            year_and_day(1970, days_since_epoch as nat) == (year as nat, days_remaining as nat),
            days_remaining < days_in_year(year as nat),
        decreases days_remaining,
    {
        let leap = year % 4 == 0 && (year % 100 != 0 || year % 400 == 0);
        let days_in: u64 = if leap {
            366
        } else {
            365
        };
        if days_remaining >= days_in {
            days_remaining = days_remaining - days_in;
            year = year + 1;
        } else {
            break;
        }
    }
    let leap = year % 4 == 0 && (year % 100 != 0 || year % 400 == 0);
    let ghost yday = days_remaining;
    let mut month: u64 = 0;
    while month < 12 && days_remaining >= month_length(leap, month)
        invariant
            month <= 12,
            days_remaining <= yday,
            leap == is_leap_year(year as nat),
            month_and_day(leap, 0, yday as nat) == month_and_day(
                leap,
                month as nat,
                days_remaining as nat,
            ),
        decreases 12 - month,
    {
        days_remaining = days_remaining - month_length(leap, month);
        month = month + 1;
    }
    let day = days_remaining + 1;
    let mut r = String::new();
    push_padded(&mut r, year, 4);
    r.append("-");
    push_padded(&mut r, month + 1, 2);
    r.append("-");
    push_padded(&mut r, day, 2);
    r.append("T");
    push_padded(&mut r, seconds_in_day / 3600, 2);
    r.append(":");
    push_padded(&mut r, (seconds_in_day % 3600) / 60, 2);
    r.append(":");
    push_padded(&mut r, seconds_in_day % 60, 2);
    r.append("+00:00");
    r
}

/// The current moment, formatted as `format_datetime` does.
pub fn get_current_datetime() -> (r: String)
    ensures
        exists|t: u64| r@ == datetime_text(t as nat),
{
    let now = unix_seconds_now();
    format_datetime(now)
}

} // verus!
