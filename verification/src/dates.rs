//! Instants and calendar days. An instant is a UTC Unix timestamp in seconds; a calendar
//! day is its number counted from 0001-01-01 (day 1) in the proleptic Gregorian calendar.
//! Calendar arithmetic and text formatting come from `chrono`.
use vstd::prelude::*;
use crate::domain::ts_ok;
use chrono::{Datelike, NaiveDate, DateTime};

verus! {

/// The widest instant any formatting helper is handed: a stored instant shifted by any
/// `i32` minute offset stays within it, and chrono represents every instant within it.
pub const FMT_LIMIT: i64 = 8_100_000_000_000;

pub open spec fn fmt_ok(t: i64) -> bool {
    -FMT_LIMIT <= t <= FMT_LIMIT
}

/// The smallest and largest day numbers chrono's `NaiveDate` represents
/// (-262143-01-01 and 262142-12-31).
pub const MIN_DAY: i32 = -95_746_129;

pub const MAX_DAY: i32 = 95_745_399;

/// Day number of 1970-01-01.
pub const UNIX_EPOCH_DAY: i64 = 719_163;

pub const SECS_PER_DAY: i64 = 86_400;

/// The user's wall-clock reading of the UTC instant `ts`, for a browser timezone offset of
/// `tz` minutes (`local = utc - offset`).
pub open spec fn to_local_spec(ts: int, tz: int) -> int {
    ts - tz * 60
}

/// Converts a UTC instant to the user's local wall-clock time.
pub fn to_local(ts: i64, tz_offset_minutes: i32) -> (r: i64)
    requires
        ts_ok(ts),
    ensures
        r == to_local_spec(ts as int, tz_offset_minutes as int),
        fmt_ok(r),
{
    ts - (tz_offset_minutes as i64) * 60
}

/// The calendar day an instant falls on (read as UTC).
pub open spec fn day_of_spec(ts: int) -> int {
    ts / (SECS_PER_DAY as int) + UNIX_EPOCH_DAY as int
}

/// The calendar day an instant falls on.
pub fn day_of(ts: i64) -> (r: i32)
    requires
        fmt_ok(ts),
    ensures
        r == day_of_spec(ts as int),
        MIN_DAY <= r <= MAX_DAY,
{
    let q: i64 = if ts >= 0 {
        ts / SECS_PER_DAY
    } else {
        let m: i64 = (0 - ts) + (SECS_PER_DAY - 1);
        0 - (m / SECS_PER_DAY)
    };
    assert(q == ts as int / (SECS_PER_DAY as int)) by (nonlinear_arith)
        requires
            q == (if ts >= 0 {
                ts as int / 86400
            } else {
                -((-ts + 86399) / 86400)
            }),
            SECS_PER_DAY == 86400,
    {
    }
    (q + UNIX_EPOCH_DAY) as i32
}

/// The local calendar day of a UTC instant, for a timezone offset of `tz` minutes.
pub open spec fn local_day_spec(ts: int, tz: int) -> int {
    day_of_spec(to_local_spec(ts, tz))
}

pub fn local_day(ts: i64, tz_offset_minutes: i32) -> (r: i32)
    requires
        ts_ok(ts),
    ensures
        r == local_day_spec(ts as int, tz_offset_minutes as int),
{
    day_of(to_local(ts, tz_offset_minutes))
}

// ---- chrono -------------------------------------------------------------------

/// The proleptic Gregorian (year, month, day) of a day number (day 1 is 0001-01-01),
/// counted in 400-year eras of 146,097 days that start on 1 March.
pub open spec fn gregorian_of(days: int) -> (int, int, int) {
    let z = days - 1 + 306;
    let era = z / 146097;
    let doe = z - era * 146097;
    let yoe = (doe - doe / 1460 + doe / 36524 - doe / 146096) / 365;
    let doy = doe - (365 * yoe + yoe / 4 - yoe / 100);
    let mp = (5 * doy + 2) / 153;
    let d = doy - (153 * mp + 2) / 5 + 1;
    let m = if mp < 10 { mp + 3 } else { mp - 9 };
    let y = yoe + era * 400 + if m <= 2 { 1int } else { 0int };
    (y, m, d)
}

/// The day number (day 1 is 0001-01-01) of a proleptic Gregorian date.
pub open spec fn gregorian_day(year: int, month: int, day: int) -> int {
    let y = if month <= 2 { year - 1 } else { year };
    let era = y / 400;
    let yoe = y - era * 400;
    let doy = (153 * (if month > 2 { month - 3 } else { month + 9 }) + 2) / 5 + day - 1;
    let doe = yoe * 365 + yoe / 4 - yoe / 100 + doy;
    era * 146097 + doe - 306 + 1
}

pub open spec fn is_leap_year(year: int) -> bool {
    year % 4 == 0 && (year % 100 != 0 || year % 400 == 0)
}

pub open spec fn days_in_month(year: int, month: int) -> int {
    if month == 2 {
        if is_leap_year(year) { 29 } else { 28 }
    } else if month == 4 || month == 6 || month == 9 || month == 11 {
        30
    } else {
        31
    }
}

/// The (year, month, day) chrono gives a day number: its Gregorian date, within chrono's
/// range.
pub open spec fn civil_from_days(days: int) -> Option<(i32, u32, u32)> {
    if MIN_DAY <= days <= MAX_DAY {
        let (y, m, d) = gregorian_of(days);
        Some((y as i32, m as u32, d as u32))
    } else {
        None
    }
}

/// The day number chrono gives a (year, month, day): its Gregorian day number, for a date
/// that exists in a year of chrono's range.
pub open spec fn days_from_civil(year: int, month: int, day: int) -> Option<i32> {
    if -262143 <= year <= 262142 && 1 <= month <= 12 && 1 <= day <= days_in_month(year, month) {
        Some(gregorian_day(year, month, day) as i32)
    } else {
        None
    }
}

/// Days since the Monday before (0 = Monday .. 6 = Sunday) of a day number in chrono's
/// range: day 1 (0001-01-01) is a Monday, and weekdays repeat every seven days.
pub open spec fn weekday_from_monday(days: int) -> Option<u32> {
    if MIN_DAY <= days <= MAX_DAY {
        Some(((days - 1) % 7) as u32)
    } else {
        None
    }
}

/// `YYYY-MM-DD` of a year from 0 to 9999, a month and a day.
pub open spec fn ymd_digits(y: int, m: int, d: int) -> Seq<char> {
    crate::text::zero_pad(crate::text::nat_digits(y as nat), 4) + seq!['-'] + crate::text::zero_pad(
        crate::text::nat_digits(m as nat),
        2,
    ) + seq!['-'] + crate::text::zero_pad(crate::text::nat_digits(d as nat), 2)
}

/// A day number written `%Y-%m-%d` by chrono.
pub uninterp spec fn iso_day_text(days: int) -> Option<Seq<char>>;

/// An instant written `%Y-%m-%d` (its UTC date) by chrono.
pub uninterp spec fn ymd_text(ts: int) -> Seq<char>;

/// A number below 100 written with two digits.
pub open spec fn two_digits(n: int) -> Seq<char> {
    seq![crate::text::digit_char((n / 10) as nat), crate::text::digit_char((n % 10) as nat)]
}

/// An instant's UTC time of day written `%H:%M`: zero-padded hours and minutes.
pub open spec fn hm_text(ts: int) -> Seq<char> {
    two_digits((ts % 86400) / 3600) + seq![':'] + two_digits((ts % 3600) / 60)
}

/// An instant written `%Y-%m-%d %H:%M` by chrono.
pub uninterp spec fn ymd_hm_text(ts: int) -> Seq<char>;

/// `NaiveDate::from_num_days_from_ce_opt`, then the date's year, month and day: `None`
/// outside chrono's date range; the year lies in that range (-262143 to 262142), month is
/// 1-12 and day 1-31.
#[verifier::external_body]
pub(crate) fn date_parts(days: i32) -> (r: Option<(i32, u32, u32)>)
    ensures
        r == civil_from_days(days as int),
        MIN_DAY <= days <= MAX_DAY ==> r is Some,
        r matches Some((y, m, d)) ==> -262143 <= y <= 262142 && 1 <= m <= 12 && 1 <= d <= 31,
{
    match NaiveDate::from_num_days_from_ce_opt(days) {
        Some(d) => Some((d.year(), d.month(), d.day())),
        None => None,
    }
}

/// `NaiveDate::from_ymd_opt`, then `num_days_from_ce`: `None` for a day that does not
/// exist or a year outside chrono's range (-262143 to 262142); every month has days 1-28.
#[verifier::external_body]
pub(crate) fn days_from_ymd(year: i32, month: u32, day: u32) -> (r: Option<i32>)
    ensures
        r == days_from_civil(year as int, month as int, day as int),
        (1 <= month <= 12 && 1 <= day <= 28 && -262143 <= year <= 262142) ==> r is Some,
        r matches Some(n) ==> MIN_DAY <= n <= MAX_DAY,
{
    match NaiveDate::from_ymd_opt(year, month, day) {
        Some(d) => Some(d.num_days_from_ce()),
        None => None,
    }
}

/// `NaiveDate::from_num_days_from_ce_opt`, then `weekday().num_days_from_monday()`.
#[verifier::external_body]
pub(crate) fn weekday_index(days: i32) -> (r: Option<u32>)
    ensures
        r == weekday_from_monday(days as int),
{
    match NaiveDate::from_num_days_from_ce_opt(days) {
        Some(d) => Some(d.weekday().num_days_from_monday()),
        None => None,
    }
}

/// `NaiveDate::from_num_days_from_ce_opt`, then `format("%Y-%m-%d")`. For a year from 0 to
/// 9999 the text is the zero-padded year (four digits), month and day (two digits each).
#[verifier::external_body]
pub(crate) fn iso_day(days: i32) -> (r: Option<String>)
    ensures
        crate::domain::opt_view(r) == iso_day_text(days as int),
        MIN_DAY <= days <= MAX_DAY ==> r is Some,
        r matches Some(t) ==> match civil_from_days(days as int) {
            Some((y, m, d)) => 0 <= y <= 9999 ==> t@ == ymd_digits(y as int, m as int, d as int),
            None => true,
        },
{
    match NaiveDate::from_num_days_from_ce_opt(days) {
        Some(d) => Some(d.format("%Y-%m-%d").to_string()),
        None => None,
    }
}

/// `DateTime::from_timestamp(ts, 0)`, then `format("%Y-%m-%d")`.
#[verifier::external_body]
pub(crate) fn format_ymd(ts: i64) -> (r: String)
    requires
        fmt_ok(ts),
    ensures
        r@ == ymd_text(ts as int),
{
    DateTime::from_timestamp(ts, 0).unwrap().format("%Y-%m-%d").to_string()
}

/// `DateTime::from_timestamp(ts, 0)`, then `format("%H:%M")`.
#[verifier::external_body]
pub(crate) fn format_hm(ts: i64) -> (r: String)
    requires
        fmt_ok(ts),
    ensures
        r@ == hm_text(ts as int),
{
    DateTime::from_timestamp(ts, 0).unwrap().format("%H:%M").to_string()
}

/// `DateTime::from_timestamp(ts, 0)`, then `format("%Y-%m-%d %H:%M")`.
#[verifier::external_body]
pub(crate) fn format_ymd_hm(ts: i64) -> (r: String)
    requires
        fmt_ok(ts),
    ensures
        r@ == ymd_hm_text(ts as int),
{
    DateTime::from_timestamp(ts, 0).unwrap().format("%Y-%m-%d %H:%M").to_string()
}

/// A day number written `%a %-d %b` (e.g. `Thu 27 Aug`) by chrono.
pub uninterp spec fn short_day_text(days: int) -> Option<Seq<char>>;

/// A day number written `%a %-d %b %Y` (e.g. `Thu 27 Aug 2027`) by chrono.
pub uninterp spec fn long_day_text(days: int) -> Option<Seq<char>>;

/// An instant's time of day written `%-I:%M %p` (e.g. `3:05 PM`) by chrono.
pub uninterp spec fn clock_text(ts: int) -> Seq<char>;

/// `NaiveDate::from_num_days_from_ce_opt`, then `format("%a %-d %b")`.
#[verifier::external_body]
pub(crate) fn format_short_day(days: i32) -> (r: Option<String>)
    ensures
        crate::domain::opt_view(r) == short_day_text(days as int),
        MIN_DAY <= days <= MAX_DAY ==> r is Some,
{
    match NaiveDate::from_num_days_from_ce_opt(days) {
        Some(d) => Some(d.format("%a %-d %b").to_string()),
        None => None,
    }
}

/// `NaiveDate::from_num_days_from_ce_opt`, then `format("%a %-d %b %Y")`.
#[verifier::external_body]
pub(crate) fn format_long_day(days: i32) -> (r: Option<String>)
    ensures
        crate::domain::opt_view(r) == long_day_text(days as int),
        MIN_DAY <= days <= MAX_DAY ==> r is Some,
{
    match NaiveDate::from_num_days_from_ce_opt(days) {
        Some(d) => Some(d.format("%a %-d %b %Y").to_string()),
        None => None,
    }
}

/// A day number written `%B %Y` (e.g. `November 2023`) by chrono.
pub uninterp spec fn month_year_text(days: int) -> Option<Seq<char>>;

/// `NaiveDate::from_num_days_from_ce_opt`, then `format("%B %Y")`.
#[verifier::external_body]
pub(crate) fn format_month_year(days: i32) -> (r: Option<String>)
    ensures
        crate::domain::opt_view(r) == month_year_text(days as int),
        MIN_DAY <= days <= MAX_DAY ==> r is Some,
{
    match NaiveDate::from_num_days_from_ce_opt(days) {
        Some(d) => Some(d.format("%B %Y").to_string()),
        None => None,
    }
}

/// `DateTime::from_timestamp(ts, 0)`, then `format("%-I:%M %p")`.
#[verifier::external_body]
pub(crate) fn format_clock(ts: i64) -> (r: String)
    requires
        fmt_ok(ts),
    ensures
        r@ == clock_text(ts as int),
{
    DateTime::from_timestamp(ts, 0).unwrap().format("%-I:%M %p").to_string()
}

// ---- labels and form inputs ----------------------------------------------------

/// A stored instant shown in local time: `%Y-%m-%d %H:%M`, or `%Y-%m-%d` without the time.
pub open spec fn label_spec(ts: int, tz: int, with_time: bool) -> Seq<char> {
    if with_time {
        ymd_hm_text(to_local_spec(ts, tz))
    } else {
        ymd_text(to_local_spec(ts, tz))
    }
}

pub fn local_label(ts: i64, tz_offset_minutes: i32, with_time: bool) -> (r: String)
    requires
        ts_ok(ts),
    ensures
        r@ == label_spec(ts as int, tz_offset_minutes as int, with_time),
{
    let local = to_local(ts, tz_offset_minutes);
    if with_time {
        format_ymd_hm(local)
    } else {
        format_ymd(local)
    }
}

pub open spec fn opt_label_spec(o: Option<i64>, tz: int, with_time: bool) -> Option<Seq<char>> {
    match o {
        Some(ts) => Some(label_spec(ts as int, tz, with_time)),
        None => None,
    }
}

pub fn opt_label(o: Option<i64>, tz_offset_minutes: i32, with_time: bool) -> (r: Option<String>)
    requires
        crate::domain::opt_ts_ok(o),
    ensures
        crate::domain::opt_view(r) == opt_label_spec(o, tz_offset_minutes as int, with_time),
{
    match o {
        Some(ts) => Some(local_label(ts, tz_offset_minutes, with_time)),
        None => None,
    }
}

/// The value of a date `<input>` for an optional instant: its local `%Y-%m-%d`, or empty.
pub open spec fn date_input_spec(o: Option<i64>, tz: int) -> Seq<char> {
    match o {
        Some(ts) => ymd_text(to_local_spec(ts as int, tz)),
        None => Seq::empty(),
    }
}

pub fn date_input(o: Option<i64>, tz_offset_minutes: i32) -> (r: String)
    requires
        crate::domain::opt_ts_ok(o),
    ensures
        r@ == date_input_spec(o, tz_offset_minutes as int),
{
    match o {
        Some(ts) => format_ymd(to_local(ts, tz_offset_minutes)),
        None => String::new(),
    }
}

/// The value of a time `<input>`: the local `%H:%M` when the instant carries a time of day,
/// else empty.
pub open spec fn time_input_spec(o: Option<i64>, tz: int, has_time: bool) -> Seq<char> {
    match o {
        Some(ts) => if has_time {
            hm_text(to_local_spec(ts as int, tz))
        } else {
            Seq::empty()
        },
        None => Seq::empty(),
    }
}

pub fn time_input(o: Option<i64>, tz_offset_minutes: i32, has_time: bool) -> (r: String)
    requires
        crate::domain::opt_ts_ok(o),
    ensures
        r@ == time_input_spec(o, tz_offset_minutes as int, has_time),
{
    match o {
        Some(ts) => if has_time {
            format_hm(to_local(ts, tz_offset_minutes))
        } else {
            String::new()
        },
        None => String::new(),
    }
}

// ---- display dates ----------------------------------------------------------------

/// The app-wide human-readable day: `Thu 27 Aug`, with the year appended when it is not
/// `this_year`.
pub open spec fn display_day_spec(day: int, this_year: int) -> Seq<char> {
    if civil_from_days(day).unwrap().0 == this_year {
        short_day_text(day).unwrap()
    } else {
        long_day_text(day).unwrap()
    }
}

/// The display form of a day number, judged against `this_year`.
pub fn format_display_naive_date(day: i32, this_year: i32) -> (r: String)
    requires
        MIN_DAY <= day <= MAX_DAY,
    ensures
        r@ == display_day_spec(day as int, this_year as int),
{
    let (y, _m, _d) = date_parts(day).unwrap();
    if y == this_year {
        format_short_day(day).unwrap()
    } else {
        format_long_day(day).unwrap()
    }
}

/// The display form of a local wall-clock instant: its day, and with `with_time` a comma and
/// its `%-I:%M %p` time.
pub open spec fn display_date_spec(local: int, with_time: bool, this_year: int) -> Seq<char> {
    let day = display_day_spec(day_of_spec(local), this_year);
    if with_time {
        day + ", "@ + clock_text(local)
    } else {
        day
    }
}

pub fn format_display_date(local: i64, with_time: bool, this_year: i32) -> (r: String)
    requires
        fmt_ok(local),
    ensures
        r@ == display_date_spec(local as int, with_time, this_year as int),
{
    let day = format_display_naive_date(day_of(local), this_year);
    if with_time {
        day.concat(", ").concat(format_clock(local).as_str())
    } else {
        day
    }
}

// ---- months -------------------------------------------------------------------

pub open spec fn valid_month(month: u32) -> bool {
    1 <= month <= 12
}

pub open spec fn prev_month_spec(year: int, month: int) -> (int, int) {
    if month == 1 {
        (year - 1, 12)
    } else {
        (year, month - 1)
    }
}

pub open spec fn next_month_spec(year: int, month: int) -> (int, int) {
    if month == 12 {
        (year + 1, 1)
    } else {
        (year, month + 1)
    }
}

/// The month before `month` of `year`.
pub fn prev_month(year: i32, month: u32) -> (r: (i32, u32))
    requires
        valid_month(month),
        year > i32::MIN,
    ensures
        (r.0 as int, r.1 as int) == prev_month_spec(year as int, month as int),
        valid_month(r.1),
{
    if month == 1 {
        (year - 1, 12)
    } else {
        (year, month - 1)
    }
}

/// The month after `month` of `year`.
pub fn next_month(year: i32, month: u32) -> (r: (i32, u32))
    requires
        valid_month(month),
        year < i32::MAX,
    ensures
        (r.0 as int, r.1 as int) == next_month_spec(year as int, month as int),
        valid_month(r.1),
{
    if month == 12 {
        (year + 1, 1)
    } else {
        (year, month + 1)
    }
}

/// Stepping back a month and then forward again (or the reverse) returns to the start.
pub proof fn lemma_month_steps_invert(year: int, month: int)
    requires
        1 <= month <= 12,
    ensures
        ({
            let (py, pm) = prev_month_spec(year, month);
            next_month_spec(py, pm) == (year, month)
        }),
        ({
            let (ny, nm) = next_month_spec(year, month);
            prev_month_spec(ny, nm) == (year, month)
        }),
{
}

} // verus!
