use vstd::prelude::*;

verus! {

/// Whether `year` is a leap year of the Gregorian calendar.
pub open spec fn leap(year: int) -> bool {
    (year % 4 == 0 && year % 100 != 0) || year % 400 == 0
}

/// Number of days in `month` (1 to 12) of `year`.
pub open spec fn days_in_month(year: int, month: int) -> int {
    if month == 2 {
        if leap(year) { 29 } else { 28 }
    } else if month == 4 || month == 6 || month == 9 || month == 11 {
        30
    } else {
        31
    }
}

/// Days of a non-leap year that come before the first day of `month`.
pub open spec fn days_before_month(month: int) -> int {
    if month <= 1 { 0 }
    else if month == 2 { 31 }
    else if month == 3 { 59 }
    else if month == 4 { 90 }
    else if month == 5 { 120 }
    else if month == 6 { 151 }
    else if month == 7 { 181 }
    else if month == 8 { 212 }
    else if month == 9 { 243 }
    else if month == 10 { 273 }
    else if month == 11 { 304 }
    else { 334 }
}

/// Zero-based day of the year of a valid date.
pub open spec fn yday(year: int, month: int, day: int) -> int {
    days_before_month(month) + day - 1 + if month > 2 && leap(year) { 1int } else { 0int }
}

/// Number of leap years among the years 1 to `n` (extended to all integers).
pub open spec fn leaps_through(n: int) -> int {
    n / 4 - n / 100 + n / 400
}

/// Days from 1970-01-01 to the given date of the proleptic Gregorian calendar.
pub open spec fn days_from_civil(year: int, month: int, day: int) -> int {
    365 * (year - 1970) + (leaps_through(year - 1) - leaps_through(1969)) + yday(year, month, day)
}

/// A valid calendar date.
pub open spec fn valid_date(year: int, month: int, day: int) -> bool {
    1 <= month <= 12 && 1 <= day <= days_in_month(year, month)
}

/// The calendar date `days` days after 1970-01-01, by the era decomposition
/// of the Gregorian 400-year cycle (146097 days) that starts on March 1st.
pub open spec fn civil(days: int) -> (int, int, int) {
    let z = days + 719468;
    let era = z / 146097;
    let doe = z - era * 146097;
    let yoe = (doe - doe / 1460 + doe / 36524 - doe / 146096) / 365;
    let y = yoe + era * 400;
    let doy = doe - (365 * yoe + yoe / 4 - yoe / 100);
    let mp = (5 * doy + 2) / 153;
    let day = doy - (153 * mp + 2) / 5 + 1;
    let month = if mp < 10 { mp + 3 } else { mp - 9 };
    let year = if month <= 2 { y + 1 } else { y };
    (year, month, day)
}

/// The era that contains day `z` of the shifted count, with Rust's truncating
/// division corrected to round toward negative infinity.
fn era_of(z: i64) -> (era: i64)
    requires
        z >= i64::MIN + 146096,
    ensures
        era == z / 146097,
{
    if z >= 0 {
        z / 146097
    } else {
        let q = (z - 146096) / 146097;
        assert(q as int == -((146096 - z as int) / 146097));
        assert(q as int == z as int / 146097) by {
            let a = 146096 - z as int;
            let k = a / 146097;
            assert(a == k * 146097 + a % 146097);
        }
        q
    }
}

/// Converts a count of days since 1970-01-01 into (year, month, day).
pub fn civil_from_days(days: i64) -> (r: (i32, u32, u32))
    requires
        days <= i64::MAX - 719468,
    ensures
        r.0 == civil(days as int).0 as i32,
        r.1 == civil(days as int).1,
        r.2 == civil(days as int).2,
        1 <= r.1 <= 12,
        1 <= r.2 <= 31,
        i32::MIN <= civil(days as int).0 <= i32::MAX ==> valid_date(r.0 as int, r.1 as int, r.2 as int)
            && days_from_civil(r.0 as int, r.1 as int, r.2 as int) == days,
{
    proof {
        civil_is_date(days as int);
    }
    let z = days + 719_468;
    let era = era_of(z);
    let doe = z - era * 146_097;
    assert(0 <= doe < 146097);
    let yoe = (doe - doe / 1_460 + doe / 36_524 - doe / 146_096) / 365;
    let y = yoe + era * 400;
    let doy = doe - (365 * yoe + yoe / 4 - yoe / 100);
    let mp = (5 * doy + 2) / 153;
    let day = doy - (153 * mp + 2) / 5 + 1;
    let month = mp + if mp < 10 { 3 } else { -9 };
    let year = y + if month <= 2 { 1 } else { 0 };
    (year as i32, month as u32, day as u32)
}

/// Day of the week (0 is Sunday) of the day `days` after 1970-01-01, a Thursday.
pub fn days_since_sunday(days: i64) -> (r: i32)
    requires
        days <= i64::MAX - 4,
    ensures
        r == (days as int + 4) % 7,
        0 <= r < 7,
{
    let x = days + 4;
    let m = x % 7;
    let r = if m < 0 { m + 7 } else { m };
    r as i32
}

/// Zero-based day of the year of the date (`year`, `month`, `day`).
pub fn day_of_year(year: i32, month: u32, day: u32) -> (r: i32)
    requires
        1 <= month <= 12,
        day <= i32::MAX - 400,
    ensures
        r == yday(year as int, month as int, day as int),
{
    let month_days: [u16; 12] = [0, 31, 59, 90, 120, 151, 181, 212, 243, 273, 304, 334];
    let mut yday = month_days[(month - 1) as usize] as i32 + day as i32 - 1;
    if month > 2 && is_leap_year(year) {
        yday += 1;
    }
    yday
}

/// Divisibility does not depend on the sign.
proof fn lemma_divisible_neg(x: int, d: int)
    requires
        d > 0,
    ensures
        (x % d == 0) == ((-x) % d == 0),
{
    vstd::arithmetic::div_mod::lemma_fundamental_div_mod(x, d);
    vstd::arithmetic::div_mod::lemma_fundamental_div_mod(-x, d);
    if x % d == 0 {
        let q = x / d;
        assert(-x == (-q) * d) by (nonlinear_arith)
            requires
                x == d * q,
        ;
        vstd::arithmetic::div_mod::lemma_fundamental_div_mod_converse(-x, d, -q, 0);
    }
    if (-x) % d == 0 {
        let q = (-x) / d;
        assert(x == (-q) * d) by (nonlinear_arith)
            requires
                -x == d * q,
        ;
        vstd::arithmetic::div_mod::lemma_fundamental_div_mod_converse(x, d, -q, 0);
    }
}

/// Whether `year` is a leap year.
pub fn is_leap_year(year: i32) -> (r: bool)
    ensures
        r == leap(year as int),
{
    let a: u32 = if year < 0 {
        (0i64 - year as i64) as u32
    } else {
        year as u32
    };
    proof {
        lemma_divisible_neg(year as int, 4);
        lemma_divisible_neg(year as int, 100);
        lemma_divisible_neg(year as int, 400);
    }
    (a % 4 == 0 && a % 100 != 0) || a % 400 == 0
}


/// Within a 400-year era counted from March 1st, the year formula finds the
/// year that holds day `doe`, and the day of that year is below its length
/// (366 days only when the February it ends with has 29 days).
#[verifier::rlimit(100)]
proof fn lemma_year_of_era(doe: u32)
    requires
        doe < 146097,
    ensures
        ({
            let yoe = (doe - doe / 1460 + doe / 36524 - doe / 146096) / 365;
            let start = 365 * yoe + yoe / 4 - yoe / 100;
            &&& yoe < 400
            &&& start <= doe
            &&& doe - start < 366
            &&& doe - start == 365 ==> ((yoe + 1) % 4 == 0 && (yoe + 1) % 100 != 0) || (yoe + 1)
                % 400 == 0
        }),
{
    assert(doe < 146097 ==> {
        let yoe = (doe - doe / 1460 + doe / 36524 - doe / 146096) / 365;
        let start = 365 * yoe + yoe / 4 - yoe / 100;
        &&& yoe < 400
        &&& start <= doe
        &&& doe - start < 366
        &&& doe - start == 365 ==> ((yoe + 1) % 4 == 0 && (yoe + 1) % 100 != 0) || (yoe + 1) % 400
            == 0
    }) by (bit_vector);
}


/// `days_before_month` on machine words.
pub open spec fn days_before_month32(month: u32) -> u32 {
    if month <= 1 { 0 }
    else if month == 2 { 31 }
    else if month == 3 { 59 }
    else if month == 4 { 90 }
    else if month == 5 { 120 }
    else if month == 6 { 151 }
    else if month == 7 { 181 }
    else if month == 8 { 212 }
    else if month == 9 { 243 }
    else if month == 10 { 273 }
    else if month == 11 { 304 }
    else { 334 }
}

/// Length of `month` in a year without February 29th, on machine words.
pub open spec fn month_len32(month: u32) -> u32 {
    if month == 2 {
        28
    } else if month == 4 || month == 6 || month == 9 || month == 11 {
        30
    } else {
        31
    }
}

/// The month and day formulas turn day `doy` of a year that starts on March
/// 1st into the date of that day.
#[verifier::rlimit(100)]
proof fn lemma_month_of_year(doy: u32)
    requires
        doy < 366,
    ensures
        ({
            let mp = (5 * doy + 2) / 153;
            let day = doy - (153 * mp + 2) / 5 + 1;
            let month = (if mp < 10 { mp + 3 } else { mp - 9 }) as u32;
            &&& mp < 12
            &&& 1 <= month <= 12
            &&& 1 <= day
            &&& month >= 3 ==> doy + 59 == days_before_month32(month) + day - 1 && day
                <= month_len32(month)
            &&& month <= 2 ==> doy == days_before_month32(month) + 306 + day - 1 && (day
                <= month_len32(month) || (month == 2 && day == 29 && doy == 365))
        }),
{
    assert(doy < 366 ==> {
        let mp = (5 * doy + 2) / 153;
        let day = doy - (153 * mp + 2) / 5 + 1;
        let month = (if mp < 10 { mp + 3 } else { mp - 9 }) as u32;
        &&& mp < 12
        &&& 1 <= month <= 12
        &&& 1 <= day
        &&& month >= 3 ==> doy + 59 == days_before_month32(month) + day - 1 && day
            <= month_len32(month)
        &&& month <= 2 ==> doy == days_before_month32(month) + 306 + day - 1 && (day
            <= month_len32(month) || (month == 2 && day == 29 && doy == 365))
    }) by (bit_vector);
}


/// Within the first 400 years, counting leap years one year at a time
/// agrees with the closed form.
#[verifier::rlimit(100)]
proof fn lemma_leaps_step(y: u32)
    requires
        1 <= y < 400,
    ensures
        (y - 1) / 4 - (y - 1) / 100 + (y - 1) / 400 + (if (y % 4 == 0 && y % 100 != 0) || y % 400
            == 0 {
            1int
        } else {
            0int
        }) == y / 4 - y / 100,
{
    assert(1 <= y < 400 ==> (y - 1) / 4 - (y - 1) / 100 + (y - 1) / 400 + (if (y % 4 == 0 && y
        % 100 != 0) || y % 400 == 0 {
        1u32
    } else {
        0u32
    }) == y / 4 - y / 100) by (bit_vector);
}

proof fn lemma_leaps_local(y: int)
    requires
        0 <= y < 400,
    ensures
        leaps_through(y) == y / 4 - y / 100,
        leaps_through(y - 1) + (if leap(y) { 1int } else { 0int }) == y / 4 - y / 100,
{
    if y == 0 {
        assert(leaps_through(-1) == -1);
    } else {
        lemma_leaps_step(y as u32);
    }
}

/// The date that the era-local formulas give for day `doe` of a 400-year
/// era is valid, and it is `doe` days after the era's March 1st.
proof fn lemma_civil_local(doe: int)
    requires
        0 <= doe < 146097,
    ensures
        ({
            let yoe = (doe - doe / 1460 + doe / 36524 - doe / 146096) / 365;
            let doy = doe - (365 * yoe + yoe / 4 - yoe / 100);
            let mp = (5 * doy + 2) / 153;
            let day = doy - (153 * mp + 2) / 5 + 1;
            let month = if mp < 10 { mp + 3 } else { mp - 9 };
            let y = if month <= 2 { yoe + 1 } else { yoe };
            &&& valid_date(y, month, day)
            &&& days_from_civil(y, month, day) == doe - 719468
        }),
{
    let d32 = doe as u32;
    lemma_year_of_era(d32);
    let yoe = (doe - doe / 1460 + doe / 36524 - doe / 146096) / 365;
    let doy = doe - (365 * yoe + yoe / 4 - yoe / 100);
    lemma_month_of_year(doy as u32);
    let mp = (5 * doy + 2) / 153;
    let day = doy - (153 * mp + 2) / 5 + 1;
    let month = if mp < 10 { mp + 3 } else { mp - 9 };
    let m32 = month as u32;
    assert(days_before_month32(m32) == days_before_month(month));
    assert(month != 2 ==> month_len32(m32) == days_in_month(0, month));
    assert(leaps_through(1969) == 477);
    lemma_leaps_local(yoe);
    if month <= 2 {
        let y = yoe + 1;
        if month == 2 && day == 29 {
            assert(leap(y));
        }
        assert(valid_date(y, month, day));
        assert(yday(y, month, day) == doy - 306);
        assert(days_from_civil(y, month, day) == 365 * (y - 1970) + (leaps_through(yoe) - 477)
            + doy - 306);
    } else {
        assert(valid_date(yoe, month, day));
        assert(yday(yoe, month, day) == doy + 59 + (if leap(yoe) { 1int } else { 0int }));
    }
}

/// Moving a date by a whole number of 400-year eras moves it by that many
/// times 146097 days and keeps leap years.
proof fn lemma_era_shift(y: int, month: int, day: int, era: int)
    ensures
        leap(y + 400 * era) == leap(y),
        days_from_civil(y + 400 * era, month, day) == days_from_civil(y, month, day) + 146097
            * era,
{
    let n = y + 400 * era;
    vstd::arithmetic::div_mod::lemma_hoist_over_denominator(y, 100 * era, 4);
    vstd::arithmetic::div_mod::lemma_hoist_over_denominator(y, 4 * era, 100);
    vstd::arithmetic::div_mod::lemma_hoist_over_denominator(y, era, 400);
    vstd::arithmetic::div_mod::lemma_hoist_over_denominator(y - 1, 100 * era, 4);
    vstd::arithmetic::div_mod::lemma_hoist_over_denominator(y - 1, 4 * era, 100);
    vstd::arithmetic::div_mod::lemma_hoist_over_denominator(y - 1, era, 400);
    vstd::arithmetic::div_mod::lemma_fundamental_div_mod(y, 4);
    vstd::arithmetic::div_mod::lemma_fundamental_div_mod(y, 100);
    vstd::arithmetic::div_mod::lemma_fundamental_div_mod(y, 400);
    vstd::arithmetic::div_mod::lemma_fundamental_div_mod(n, 4);
    vstd::arithmetic::div_mod::lemma_fundamental_div_mod(n, 100);
    vstd::arithmetic::div_mod::lemma_fundamental_div_mod(n, 400);
    assert(n % 4 == y % 4);
    assert(n % 100 == y % 100);
    assert(n % 400 == y % 400);
    assert(leaps_through(n - 1) == leaps_through(y - 1) + 97 * era);
}

/// `civil(days)` is the valid calendar date that lies `days` days after
/// 1970-01-01.
pub proof fn civil_is_date(days: int)
    ensures
        valid_date(civil(days).0, civil(days).1, civil(days).2),
        days_from_civil(civil(days).0, civil(days).1, civil(days).2) == days,
{
    let z = days + 719468;
    let era = z / 146097;
    vstd::arithmetic::div_mod::lemma_fundamental_div_mod(z, 146097);
    let doe = z - era * 146097;
    assert(0 <= doe < 146097);
    lemma_civil_local(doe);
    let yoe = (doe - doe / 1460 + doe / 36524 - doe / 146096) / 365;
    let doy = doe - (365 * yoe + yoe / 4 - yoe / 100);
    let mp = (5 * doy + 2) / 153;
    let day = doy - (153 * mp + 2) / 5 + 1;
    let month = if mp < 10 { mp + 3 } else { mp - 9 };
    let y = if month <= 2 { yoe + 1 } else { yoe };
    assert(civil(days) == (y + 400 * era, month, day));
    lemma_era_shift(y, month, day, era);
}

/// A broken-down calendar time, as the RTC device reports it.
#[derive(Clone, Copy, Debug, PartialEq, Eq, Structural)]
pub struct RtcTime {
    pub tm_sec: i32,
    pub tm_min: i32,
    pub tm_hour: i32,
    pub tm_mday: i32,
    /// Month, 0 for January.
    pub tm_mon: i32,
    /// Years since 1900.
    pub tm_year: i32,
    /// Day of the week, 0 for Sunday.
    pub tm_wday: i32,
    /// Day of the year, 0 for January 1st.
    pub tm_yday: i32,
    pub tm_isdst: i32,
}

/// The calendar time `unix_seconds` seconds after 1970-01-01 00:00 UTC.
pub open spec fn rtc_time_spec(unix_seconds: int) -> RtcTime {
    let days = unix_seconds / 86400;
    let sod = unix_seconds % 86400;
    let (y, m, d) = civil(days);
    RtcTime {
        tm_sec: (sod % 60) as i32,
        tm_min: ((sod % 3600) / 60) as i32,
        tm_hour: (sod / 3600) as i32,
        tm_mday: d as i32,
        tm_mon: (m - 1) as i32,
        tm_year: (y - 1900) as i32,
        tm_wday: ((days + 4) % 7) as i32,
        tm_yday: yday(y, m, d) as i32,
        tm_isdst: 0,
    }
}

/// Breaks the time `unix_seconds` (seconds since 1970-01-01 00:00 UTC) down
/// into calendar fields; the year must be one that `tm_year` can hold.
pub fn rtc_time_of(unix_seconds: i64) -> (r: RtcTime)
    requires
        i32::MIN + 1900 <= civil(unix_seconds as int / 86400).0 <= i32::MAX,
    ensures
        r == rtc_time_spec(unix_seconds as int),
{
    let q = unix_seconds / 86400;
    let m = unix_seconds % 86400;
    let (days, sod) = if m < 0 { (q - 1, m + 86400) } else { (q, m) };
    assert(days as int == unix_seconds as int / 86400 && sod as int == unix_seconds as int % 86400) by {
        assert(unix_seconds as int == 86400 * (q as int) + m as int);
    }
    proof {
        civil_is_date(days as int);
    }
    let (year, month, day) = civil_from_days(days);
    RtcTime {
        tm_sec: (sod % 60) as i32,
        tm_min: ((sod % 3600) / 60) as i32,
        tm_hour: (sod / 3600) as i32,
        tm_mday: day as i32,
        tm_mon: month as i32 - 1,
        tm_year: year - 1900,
        tm_wday: days_since_sunday(days),
        tm_yday: day_of_year(year, month, day),
        tm_isdst: 0,
    }
}

} // verus!
