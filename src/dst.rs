use vstd::prelude::*;

use chrono::Datelike;

use crate::error::GreenButtonError;

verus! {

/// The first year that the calendar library represents.
pub const MIN_YEAR: i32 = -262143;

/// The last year that the calendar library represents.
pub const MAX_YEAR: i32 = 262142;

/// The day number of 1970-01-01, counting 0001-01-01 as day 1.
pub const UNIX_EPOCH_DAY: i32 = 719163;

/// The sentinel rule that means "no daylight-saving transition".
pub const NO_RULE: u32 = 0xFFFF_FFFF;

/// A day of the week.
#[derive(Debug, Clone, Copy, PartialEq, Eq, Structural)]
pub enum Weekday {
    Mon,
    Tue,
    Wed,
    Thu,
    Fri,
    Sat,
    Sun,
}

impl Weekday {
    pub open spec fn index(self) -> int {
        match self {
            Weekday::Mon => 0,
            Weekday::Tue => 1,
            Weekday::Wed => 2,
            Weekday::Thu => 3,
            Weekday::Fri => 4,
            Weekday::Sat => 5,
            Weekday::Sun => 6,
        }
    }

    /// Days since the Monday of the same week: 0 for Monday, 6 for Sunday.
    pub fn num_days_from_monday(&self) -> (r: u32)
        ensures
            r == self.index(),
    {
        match self {
            Weekday::Mon => 0,
            Weekday::Tue => 1,
            Weekday::Wed => 2,
            Weekday::Thu => 3,
            Weekday::Fri => 4,
            Weekday::Sat => 5,
            Weekday::Sun => 6,
        }
    }

    /// The weekday `i` days after Monday, for `i < 7`.
    pub fn from_index(i: u32) -> (r: Option<Weekday>)
        ensures
            i < 7 <==> r is Some,
            r matches Some(w) ==> w.index() == i,
    {
        match i {
            0 => Some(Weekday::Mon),
            1 => Some(Weekday::Tue),
            2 => Some(Weekday::Wed),
            3 => Some(Weekday::Thu),
            4 => Some(Weekday::Fri),
            5 => Some(Weekday::Sat),
            6 => Some(Weekday::Sun),
            _ => None,
        }
    }
}

pub open spec fn is_leap_year(y: int) -> bool {
    (y % 4 == 0 && y % 100 != 0) || y % 400 == 0
}

pub open spec fn days_in_month(y: int, m: int) -> int {
    if m == 2 {
        if is_leap_year(y) {
            29
        } else {
            28
        }
    } else if m == 4 || m == 6 || m == 9 || m == 11 {
        30
    } else {
        31
    }
}

/// `y-m-d` is a date of the proleptic Gregorian calendar that the calendar
/// library represents.
pub open spec fn valid_ymd(y: int, m: int, d: int) -> bool {
    &&& MIN_YEAR <= y <= MAX_YEAR
    &&& 1 <= m <= 12
    &&& 1 <= d <= days_in_month(y, m)
}

pub open spec fn days_before_month(y: int, m: int) -> int
    decreases m,
{
    if m <= 1 {
        0
    } else {
        days_before_month(y, m - 1) + days_in_month(y, m - 1)
    }
}

pub open spec fn days_before_year(y: int) -> int {
    let p = y - 1;
    365 * p + p / 4 - p / 100 + p / 400
}

/// The day number of `y-m-d` in the proleptic Gregorian calendar, with
/// 0001-01-01 as day 1.
pub open spec fn day_number(y: int, m: int, d: int) -> int {
    days_before_year(y) + days_before_month(y, m) + d
}

/// The weekday of day number `n`, as days since Monday (day 1 is a Monday).
pub open spec fn weekday_of(n: int) -> int {
    (n - 1) % 7
}

/// Days from weekday `from` forward to weekday `to`, both counted from Monday.
pub open spec fn days_until(from: int, to: int) -> int {
    (to - from) % 7
}

/// The day of `get_date`: the day that operator `op` selects in month
/// `m` of year `y`, or `None` where no such day exists.
pub open spec fn rule_date(y: int, wd: int, dom: int, op: int, m: int) -> Option<int> {
    if op == 0 {
        if valid_ymd(y, m, dom) {
            Some(day_number(y, m, dom))
        } else {
            None
        }
    } else if op == 1 {
        if valid_ymd(y, m, dom) {
            let d = day_number(y, m, dom);
            Some(d + days_until(weekday_of(d), wd))
        } else {
            None
        }
    } else if !valid_ymd(y, m, 1) {
        None
    } else if op == 7 {
        let last = day_number(y, m, days_in_month(y, m));
        Some(last - days_until(wd, weekday_of(last)))
    } else {
        let first = day_number(y, m, 1);
        let nth = first + days_until(weekday_of(first), wd) + 7 * (op - 2);
        if nth <= day_number(y, m, days_in_month(y, m)) {
            Some(nth)
        } else {
            None
        }
    }
}

/// The local date and time, in seconds since 1970-01-01T00:00:00, of
/// `seconds` past hour `hours` of day number `day`.
pub open spec fn naive_seconds(day: int, hours: int, seconds: int) -> int {
    (day - UNIX_EPOCH_DAY) * 86400 + hours * 3600 + seconds
}

pub open spec fn rule_datetime(
    y: int,
    seconds: int,
    hours: int,
    wd: int,
    dom: int,
    op: int,
    m: int,
) -> Option<int> {
    match rule_date(y, wd, dom, op, m) {
        Some(d) => if hours < 24 && seconds < 3600 {
            Some(naive_seconds(d, hours, seconds))
        } else {
            None
        },
        None => None,
    }
}

/// The fields of a packed rule: bits 0-11 seconds, 12-16 hours, 17-19 day
/// of the week, 20-24 day of the month, 25-27 operator, 28-31 month.
pub open spec fn rule_seconds(rule: u32) -> int {
    rule as int % 4096
}

pub open spec fn rule_hours(rule: u32) -> int {
    (rule as int / 4096) % 32
}

pub open spec fn rule_day_of_week(rule: u32) -> int {
    (rule as int / 131072) % 8
}

pub open spec fn rule_day_of_month(rule: u32) -> int {
    (rule as int / 1048576) % 32
}

pub open spec fn rule_operator(rule: u32) -> int {
    (rule as int / 33554432) % 8
}

pub open spec fn rule_month(rule: u32) -> int {
    rule as int / 268435456
}

/// Every field of a packed rule lies in its range.
pub open spec fn rule_in_range(rule: u32) -> bool {
    rule_seconds(rule) <= 3599 && rule_hours(rule) <= 23 && rule_day_of_month(rule) <= 31
        && 1 <= rule_month(rule) <= 12
}

/// What `get_date_from_dst_rule` returns: `Ok(None)` for the sentinel, an
/// error for a field out of range, else the local date and time of the
/// rule in `year` (in seconds since 1970-01-01T00:00:00), if that day exists.
/// The day-of-week field `b` names the weekday `(b + 1) % 7` days after Monday.
pub open spec fn decoded_rule(rule: u32, year: int) -> Result<Option<int>, GreenButtonError> {
    if rule == NO_RULE {
        Ok(None)
    } else if !rule_in_range(rule) {
        Err(GreenButtonError::InvalidDstRule)
    } else {
        Ok(
            rule_datetime(
                year,
                rule_seconds(rule),
                rule_hours(rule),
                (rule_day_of_week(rule) + 1) % 7,
                rule_day_of_month(rule),
                rule_operator(rule),
                rule_month(rule),
            ),
        )
    }
}

/// Relies on chrono's `NaiveDate::from_ymd_opt`, which accepts exactly the
/// Gregorian dates of its years, and on `num_days_from_ce`, which counts days
/// with 0001-01-01 as day 1.
#[verifier::external_body]
fn day_number_of(year: i32, month: u32, day: u32) -> (r: Option<i32>)
    ensures
        r is Some <==> valid_ymd(year as int, month as int, day as int),
        r matches Some(n) ==> n == day_number(year as int, month as int, day as int),
{
    chrono::NaiveDate::from_ymd_opt(year, month, day).map(|d| d.num_days_from_ce())
}

proof fn lemma_day_number_bounds(y: int, m: int, d: int)
    requires
        valid_ymd(y, m, d),
    ensures
        -100_000_000 <= day_number(y, m, d) <= 100_000_000,
        day_number(y, m, d) - d + days_in_month(y, m) <= 100_000_000,
{
    lemma_days_before_month_bounds(y, m);
    assert(-100_000_000 <= days_before_year(y) <= 96_000_000) by (nonlinear_arith)
        requires
            MIN_YEAR <= y <= MAX_YEAR,
    ;
}

proof fn lemma_days_before_month_bounds(y: int, m: int)
    requires
        1 <= m <= 12,
    ensures
        0 <= days_before_month(y, m) <= 31 * (m - 1),
    decreases m,
{
    if m > 1 {
        lemma_days_before_month_bounds(y, m - 1);
    }
}

/// The weekday of day number `n`, as days since Monday.
fn weekday_index_of(n: i32) -> (r: u32)
    requires
        -100_000_000 <= n <= 100_000_000,
    ensures
        r == weekday_of(n as int),
{
    let shifted: i64 = n as i64 - 1 + 7 * 20_000_000;
    let r = (shifted % 7) as u32;
    assert((shifted as int) % 7 == ((n as int) - 1) % 7) by {
        assert(shifted as int == ((n as int) - 1) + 7 * 20_000_000);
        vstd::arithmetic::div_mod::lemma_mod_multiples_vanish(20_000_000, (n as int) - 1, 7);
    }
    r
}

/// Days from weekday `from` forward to weekday `to`.
fn days_until_exec(from: u32, to: u32) -> (r: u32)
    requires
        from < 7,
        to < 7,
    ensures
        r == days_until(from as int, to as int),
        r < 7,
{
    if to >= from {
        to - from
    } else {
        proof {
            vstd::arithmetic::div_mod::lemma_mod_add_multiples_vanish(
                (to as int) - (from as int),
                7,
            );
        }
        to + 7 - from
    }
}

/// The day number of the day that `operator` selects in `month` of `year`:
/// 0 the day of the month itself; 1 the first `day_of_week` on or after it;
/// 2 to 6 the first to fifth `day_of_week` of the month; 7 the last one.
/// `None` where that day does not exist.
pub fn get_date(
    year: i32,
    day_of_week: Weekday,
    day_of_month: u32,
    operator: u32,
    month: u32,
) -> (r: Option<i32>)
    requires
        operator <= 7,
    ensures
        r matches Some(d) ==> rule_date(
            year as int,
            day_of_week.index(),
            day_of_month as int,
            operator as int,
            month as int,
        ) == Some(d as int),
        r is None ==> rule_date(
            year as int,
            day_of_week.index(),
            day_of_month as int,
            operator as int,
            month as int,
        ) is None,
{
    let wd = day_of_week.num_days_from_monday();
    if operator == 0 {
        return day_number_of(year, month, day_of_month);
    }
    if operator == 1 {
        let d = match day_number_of(year, month, day_of_month) {
            Some(d) => d,
            None => return None,
        };
        proof {
            lemma_day_number_bounds(year as int, month as int, day_of_month as int);
        }
        let offset = days_until_exec(weekday_index_of(d), wd);
        return Some(d + offset as i32);
    }
    let first = match day_number_of(year, month, 1) {
        Some(d) => d,
        None => return None,
    };
    proof {
        lemma_day_number_bounds(year as int, month as int, 1);
    }
    let length = days_in_month_exec(year, month);
    let last = first + (length - 1) as i32;
    assert(last == day_number(year as int, month as int, days_in_month(year as int, month as int)));
    if operator == 7 {
        let back = days_until_exec(wd, weekday_index_of(last));
        return Some(last - back as i32);
    }
    let nth = first + days_until_exec(weekday_index_of(first), wd) as i32 + 7 * (operator - 2) as i32;
    if nth <= last {
        Some(nth)
    } else {
        None
    }
}

/// The number of days in `month` of `year`, for a month from 1 to 12.
fn days_in_month_exec(year: i32, month: u32) -> (r: u32)
    requires
        1 <= month <= 12,
    ensures
        r == days_in_month(year as int, month as int),
{
    if month == 2 {
        if (year % 4 == 0 && year % 100 != 0) || year % 400 == 0 {
            29
        } else {
            28
        }
    } else if month == 4 || month == 6 || month == 9 || month == 11 {
        30
    } else {
        31
    }
}

/// The local date and time, in seconds since 1970-01-01T00:00:00, of the
/// day that `get_date` selects at `hours` and `seconds` past the hour;
/// `None` where that day does not exist or the time of day is out of range.
pub fn get_datetime(
    year: i32,
    seconds: u32,
    hours: u32,
    day_of_week: Weekday,
    day_of_month: u32,
    operator: u32,
    month: u32,
) -> (r: Option<i64>)
    requires
        operator <= 7,
    ensures
        r matches Some(t) ==> rule_datetime(
            year as int,
            seconds as int,
            hours as int,
            day_of_week.index(),
            day_of_month as int,
            operator as int,
            month as int,
        ) == Some(t as int),
        r is None ==> rule_datetime(
            year as int,
            seconds as int,
            hours as int,
            day_of_week.index(),
            day_of_month as int,
            operator as int,
            month as int,
        ) is None,
{
    let date = get_date(year, day_of_week, day_of_month, operator, month);
    match date {
        Some(d) => {
            if hours < 24 && seconds < 3600 {
                proof {
                    lemma_rule_date_bounds(
                        year as int,
                        day_of_week.index(),
                        day_of_month as int,
                        operator as int,
                        month as int,
                    );
                }
                let days: i64 = d as i64 - UNIX_EPOCH_DAY as i64;
                assert(-200_000_000 <= days <= 200_000_000);
                let t = days * 86400 + hours as i64 * 3600 + seconds as i64;
                Some(t)
            } else {
                None
            }
        },
        None => None,
    }
}

proof fn lemma_rule_date_bounds(y: int, wd: int, dom: int, op: int, m: int)
    requires
        0 <= wd < 7,
        0 <= op <= 7,
        rule_date(y, wd, dom, op, m) is Some,
    ensures
        -100_000_010 <= rule_date(y, wd, dom, op, m)->Some_0 <= 100_000_010,
{
    if op <= 1 {
        lemma_day_number_bounds(y, m, dom);
    } else {
        lemma_day_number_bounds(y, m, 1);
    }
}

/// Decodes a packed daylight-saving rule for `year`: `Ok(None)` for the
/// sentinel `0xFFFFFFFF` or a day that does not exist that year, an error
/// for a field out of its range, else the local date and time of the
/// transition in seconds since 1970-01-01T00:00:00.
pub fn get_date_from_dst_rule(rule: u32, year: i32) -> (r: Result<Option<i64>, GreenButtonError>)
    ensures
        r matches Ok(Some(t)) ==> decoded_rule(rule, year as int) == Ok::<Option<int>, GreenButtonError>(
            Some(t as int),
        ),
        r matches Ok(None) ==> decoded_rule(rule, year as int) == Ok::<Option<int>, GreenButtonError>(
            None,
        ),
        r matches Err(e) ==> decoded_rule(rule, year as int) == Err::<Option<int>, GreenButtonError>(
            e,
        ),
{
    if rule == NO_RULE {
        return Ok(None);
    }
    let seconds = rule & 0x0000_0fff;
    let hours = (rule & 0x0001_f000) >> 12;
    let day_of_week_bits = (rule & 0x000e_0000) >> 17;
    let day_of_month = (rule & 0x01f0_0000) >> 20;
    let operator = (rule & 0x0e00_0000) >> 25;
    let month = (rule & 0xf000_0000) >> 28;
    assert(seconds == rule % 4096) by (bit_vector)
        requires
            seconds == rule & 0x0000_0fff,
    ;
    assert(hours == (rule / 4096) % 32) by (bit_vector)
        requires
            hours == (rule & 0x0001_f000) >> 12,
    ;
    assert(day_of_week_bits == (rule / 131072) % 8) by (bit_vector)
        requires
            day_of_week_bits == (rule & 0x000e_0000) >> 17,
    ;
    assert(day_of_month == (rule / 1048576) % 32) by (bit_vector)
        requires
            day_of_month == (rule & 0x01f0_0000) >> 20,
    ;
    assert(operator == (rule / 33554432) % 8) by (bit_vector)
        requires
            operator == (rule & 0x0e00_0000) >> 25,
    ;
    assert(month == rule / 268435456) by (bit_vector)
        requires
            month == (rule & 0xf000_0000) >> 28,
    ;
    if !(seconds <= 3599 && hours <= 23 && day_of_month <= 31 && operator <= 7 && 1 <= month
        && month <= 12) {
        return Err(GreenButtonError::InvalidDstRule);
    }
    let day_of_week = match Weekday::from_index((day_of_week_bits + 1) % 7) {
        Some(w) => w,
        None => return Err(GreenButtonError::InvalidDstRule),
    };
    Ok(get_datetime(year, seconds, hours, day_of_week, day_of_month, operator, month))
}

/// `y` is the calendar year of the UTC instant `t` seconds after
/// 1970-01-01T00:00:00.
pub open spec fn is_year_of(t: int, y: int) -> bool {
    let day = t / 86400 + UNIX_EPOCH_DAY;
    day_number(y, 1, 1) <= day < day_number(y + 1, 1, 1)
}

/// Relies on chrono's `DateTime::from_timestamp`, which finds the instant's
/// day as `secs.div_euclid(86400)` days after 1970-01-01 and fails only
/// beyond its years, and on `Datelike::year`.
#[verifier::external_body]
fn year_of_timestamp(t: i64) -> (r: Option<i32>)
    ensures
        r matches Some(y) ==> is_year_of(t as int, y as int),
        -8_000_000_000_000 <= t <= 8_000_000_000_000 ==> r is Some,
{
    chrono::DateTime::from_timestamp(t, 0).map(|d| d.year())
}

/// Daylight-saving time is in effect at `t` in `year`: both rules decode
/// to a day of that year and `t` lies strictly between the two.
pub open spec fn in_dst(t: int, start_rule: u32, end_rule: u32, year: int) -> bool {
    match (decoded_rule(start_rule, year), decoded_rule(end_rule, year)) {
        (Ok(Some(a)), Ok(Some(b))) => a < t && t < b,
        _ => false,
    }
}

/// The local time of the UTC instant `t`, `year` being its year: the
/// daylight-saving offset added while it is in effect (a rule that fails to
/// decode means none that year), then the timezone offset.
pub open spec fn local_time(
    t: int,
    year: int,
    start_rule: u32,
    end_rule: u32,
    dst_offset: int,
    tz_offset: int,
) -> int {
    t + (if in_dst(t, start_rule, end_rule, year) {
        dst_offset
    } else {
        0
    }) + tz_offset
}

/// The local time, in seconds since 1970-01-01T00:00:00, of the UTC instant
/// `unix_seconds` under the given daylight-saving rules and offsets; `None`
/// where the instant lies beyond the calendar's years or the sum does not
/// fit in an `i64`.
pub fn local_time_of(
    unix_seconds: i64,
    dst_start_rule: u32,
    dst_end_rule: u32,
    dst_offset: i64,
    tz_offset: i64,
) -> (r: Option<i64>)
    ensures
        r matches Some(v) ==> exists|y: int|
            is_year_of(unix_seconds as int, y) && v == local_time(
                unix_seconds as int,
                y,
                dst_start_rule,
                dst_end_rule,
                dst_offset as int,
                tz_offset as int,
            ),
        -8_000_000_000_000 <= unix_seconds <= 8_000_000_000_000 && -1_000_000_000_000 <= dst_offset
            <= 1_000_000_000_000 && -1_000_000_000_000 <= tz_offset <= 1_000_000_000_000 ==> r is Some,
{
    let year = match year_of_timestamp(unix_seconds) {
        Some(y) => y,
        None => return None,
    };
    let start = get_date_from_dst_rule(dst_start_rule, year);
    let end = get_date_from_dst_rule(dst_end_rule, year);
    let in_effect = match (start, end) {
        (Ok(Some(a)), Ok(Some(b))) => a < unix_seconds && unix_seconds < b,
        _ => false,
    };
    assert(in_effect == in_dst(unix_seconds as int, dst_start_rule, dst_end_rule, year as int));
    let shifted = if in_effect {
        match unix_seconds.checked_add(dst_offset) {
            Some(v) => v,
            None => return None,
        }
    } else {
        unix_seconds
    };
    let local = match shifted.checked_add(tz_offset) {
        Some(v) => v,
        None => return None,
    };
    assert(is_year_of(unix_seconds as int, year as int));
    Some(local)
}

} // verus!
