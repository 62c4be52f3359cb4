//! Low level algorithms pertaining to the proleptic Gregorian calendar.
//!
//! Day counts are relative to the UNIX epoch, 1970-01-01. The conversions
//! between a civil date and a day count follow Howard Hinnant's algorithms,
//! which split time into 400 year eras of 146097 days whose years start in March.
use vstd::prelude::*;
use crate::utils::divmod_i32;

verus! {

// ---------------------------------------------------------------------------
// The calendar model
// ---------------------------------------------------------------------------

/// A year is a leap year when it is divisible by 4, except centuries that are
/// not divisible by 400.
pub open spec fn spec_is_leap_year(year: int) -> bool {
    year % 4 == 0 && (year % 100 != 0 || year % 400 == 0)
}

/// The number of days in a month; `0` for a month outside `1..=12`.
pub open spec fn spec_days_in_month(year: int, month: int) -> int {
    if month == 2 {
        if spec_is_leap_year(year) { 29 } else { 28 }
    } else if month == 4 || month == 6 || month == 9 || month == 11 {
        30
    } else if 1 <= month <= 12 {
        31
    } else {
        0
    }
}

/// The number of days of the year that precede the first day of `month`.
pub open spec fn spec_days_before_month(year: int, month: int) -> int
    decreases month,
{
    if month <= 1 {
        0
    } else {
        spec_days_before_month(year, month - 1) + spec_days_in_month(year, month - 1)
    }
}

/// A year, month and day that name an existing day of the calendar.
pub open spec fn is_valid_date(year: int, month: int, day: int) -> bool {
    1 <= month <= 12 && 1 <= day <= spec_days_in_month(year, month)
}

/// The number of leap years in `1..=year` (negative for years before 1).
pub open spec fn leap_years_through(year: int) -> int {
    year / 4 - year / 100 + year / 400
}

/// The number of days from 0001-01-01 to the first day of `year`.
pub open spec fn days_before_year(year: int) -> int {
    365 * (year - 1) + leap_years_through(year - 1)
}

/// The number of days from 1970-01-01 to the given date.
pub open spec fn spec_epoch_days(year: int, month: int, day: int) -> int {
    days_before_year(year) + spec_days_before_month(year, month) + day - 1 - days_before_year(1970)
}

/// The date that lies `days` days after 1970-01-01.
pub open spec fn date_of_epoch_days(days: int) -> (int, int, int) {
    choose|y: int, m: int, d: int| is_valid_date(y, m, d) && spec_epoch_days(y, m, d) == days
}

/// The weekday of a day count, where 0 is Sunday and 6 is Saturday.
pub open spec fn spec_weekday_from_days(days: int) -> int {
    (days + 4) % 7
}

/// Clamps an integer into the range of `i16`.
pub open spec fn clamp_i16(v: int) -> int {
    if v > i16::MAX {
        i16::MAX as int
    } else if v < i16::MIN {
        i16::MIN as int
    } else {
        v
    }
}

// ---------------------------------------------------------------------------
// The era based formulas and their correctness
// ---------------------------------------------------------------------------

/// The day of a 400 year era on which the March-based year `yoe` starts, plus `doy`.
pub open spec fn doe_of(yoe: int, doy: int) -> int {
    365 * yoe + yoe / 4 - yoe / 100 + doy
}

/// The March-based year of an era that contains the day `doe` of the era.
pub open spec fn yoe_of(doe: int) -> int {
    (doe - doe / 1460 + doe / 36524 - doe / 146096) / 365
}

/// Length of the March-based year `yoe` of an era (its February is in the following year).
pub open spec fn march_year_len(yoe: int) -> int {
    if spec_is_leap_year(yoe + 1) { 366 } else { 365 }
}

/// The day of the March-based year on which the March-based month `mp` starts.
pub open spec fn march_month_start(mp: int) -> int {
    (153 * mp + 2) / 5
}

/// The March-based month (0 is March) that contains day `doy` of the March-based year.
pub open spec fn march_month_of(doy: int) -> int {
    (5 * doy + 2) / 153
}

/// The civil month of a March-based month.
pub open spec fn civil_month_of(mp: int) -> int {
    if mp < 10 { mp + 3 } else { mp - 9 }
}

/// The era based day count of a date, as computed by [`date_to_epoch_days`].
pub open spec fn civil_to_days_formula(year: int, month: int, day: int) -> int {
    let y = if month <= 2 { year - 1 } else { year };
    let era = y / 400;
    let yoe = y - era * 400;
    let m = if month > 2 { month - 3 } else { month + 9 };
    era * 146097 + doe_of(yoe, march_month_start(m) + day - 1) - 719468
}

/// The era based date of a day count, as computed by [`date_from_epoch_days`].
pub open spec fn civil_from_days_formula(days: int) -> (int, int, int) {
    let z = days + 719468;
    let era = z / 146097;
    let doe = z - era * 146097;
    let yoe = yoe_of(doe);
    let doy = doe - doe_of(yoe, 0);
    let mp = march_month_of(doy);
    let d = doy - march_month_start(mp) + 1;
    let m = civil_month_of(mp);
    (yoe + era * 400 + if m <= 2 { 1int } else { 0int }, m, d)
}

#[verifier::rlimit(60)]
proof fn lemma_yoe_recovery(yoe: int, doy: int)
    requires
        0 <= yoe < 400,
        0 <= doy < march_year_len(yoe),
    ensures
        yoe_of(doe_of(yoe, doy)) == yoe,
{
}

#[verifier::rlimit(60)]
proof fn lemma_doe_decompose(doe: int)
    requires
        0 <= doe < 146097,
    ensures
        0 <= yoe_of(doe) < 400,
        0 <= doe - doe_of(yoe_of(doe), 0) < march_year_len(yoe_of(doe)),
{
}

#[verifier::rlimit(60)]
proof fn lemma_march_month(doy: int)
    requires
        0 <= doy < 366,
    ensures
        0 <= march_month_of(doy) <= 11,
        march_month_start(march_month_of(doy)) <= doy,
        march_month_of(doy) < 11 ==> doy < march_month_start(march_month_of(doy) + 1),
{
}

#[verifier::rlimit(60)]
proof fn lemma_march_month_inverse(mp: int, d: int)
    requires
        0 <= mp <= 11,
        1 <= d,
        mp < 11 ==> march_month_start(mp) + d - 1 < march_month_start(mp + 1),
        mp == 11 ==> march_month_start(mp) + d - 1 < 366,
    ensures
        march_month_of(march_month_start(mp) + d - 1) == mp,
{
}

#[verifier::rlimit(60)]
proof fn lemma_leap_period(x: int, e: int)
    ensures
        spec_is_leap_year(x + 400 * e) == spec_is_leap_year(x),
{
}

/// The length of a civil month agrees with the distance between March-based month starts.
#[verifier::rlimit(60)]
proof fn lemma_month_lengths(year: int, mp: int)
    requires
        0 <= mp < 11,
    ensures
        spec_days_in_month(year, civil_month_of(mp)) == march_month_start(mp + 1) - march_month_start(mp),
{
}

pub proof fn lemma_days_before_month_values(year: int)
    ensures
        spec_days_before_month(year, 1) == 0,
        spec_days_before_month(year, 2) == 31,
        spec_days_before_month(year, 3) == 59 + if spec_is_leap_year(year) { 1int } else { 0int },
        spec_days_before_month(year, 4) == 90 + if spec_is_leap_year(year) { 1int } else { 0int },
        spec_days_before_month(year, 5) == 120 + if spec_is_leap_year(year) { 1int } else { 0int },
        spec_days_before_month(year, 6) == 151 + if spec_is_leap_year(year) { 1int } else { 0int },
        spec_days_before_month(year, 7) == 181 + if spec_is_leap_year(year) { 1int } else { 0int },
        spec_days_before_month(year, 8) == 212 + if spec_is_leap_year(year) { 1int } else { 0int },
        spec_days_before_month(year, 9) == 243 + if spec_is_leap_year(year) { 1int } else { 0int },
        spec_days_before_month(year, 10) == 273 + if spec_is_leap_year(year) { 1int } else { 0int },
        spec_days_before_month(year, 11) == 304 + if spec_is_leap_year(year) { 1int } else { 0int },
        spec_days_before_month(year, 12) == 334 + if spec_is_leap_year(year) { 1int } else { 0int },
        spec_days_before_month(year, 13) == 365 + if spec_is_leap_year(year) { 1int } else { 0int },
{
    reveal_with_fuel(spec_days_before_month, 14);
}

/// Leap years up to `year` grow by one exactly when `year` is a leap year.
pub proof fn lemma_leap_years_step(year: int)
    ensures
        leap_years_through(year) == leap_years_through(year - 1) + if spec_is_leap_year(year) { 1int } else { 0int },
{
}

/// The number of days from 0000-03-01 to `y`-03-01 split across 400 year eras.
proof fn lemma_era_split(y: int)
    ensures
        365 * y + leap_years_through(y) == (y / 400) * 146097 + doe_of(y - (y / 400) * 400, 0),
{
}

/// The era based formula computes the day count of every date whose month is in range.
pub proof fn lemma_formula_is_epoch_days(year: int, month: int, day: int)
    requires
        1 <= month <= 12,
    ensures
        civil_to_days_formula(year, month, day) == spec_epoch_days(year, month, day),
{
    lemma_days_before_month_values(year);
    lemma_leap_years_step(year);
    let y = if month <= 2 { year - 1 } else { year };
    lemma_era_split(y);
}

/// Converting a valid date to its day count and back gives the date again.
pub proof fn lemma_formula_roundtrip_date(year: int, month: int, day: int)
    requires
        is_valid_date(year, month, day),
    ensures
        civil_from_days_formula(civil_to_days_formula(year, month, day)) == (year, month, day),
{
    let y = if month <= 2 { year - 1 } else { year };
    let era = y / 400;
    let yoe = y - era * 400;
    let mp = if month > 2 { month - 3 } else { month + 9 };
    let doy = march_month_start(mp) + day - 1;
    lemma_leap_period(yoe + 1, era);
    if mp < 11 {
        lemma_month_lengths(year, mp);
    }
    assert(0 <= doy < march_year_len(yoe));
    lemma_yoe_recovery(yoe, doy);
    lemma_march_month_inverse(mp, day);
    let doe = doe_of(yoe, doy);
    let z = civil_to_days_formula(year, month, day) + 719468;
    assert(z == era * 146097 + doe);
    assert(z / 146097 == era);
}

/// Converting a day count to a date gives a valid date whose day count is the original one.
pub proof fn lemma_formula_roundtrip_days(days: int)
    ensures
        is_valid_date(civil_from_days_formula(days).0, civil_from_days_formula(days).1, civil_from_days_formula(days).2),
        civil_to_days_formula(civil_from_days_formula(days).0, civil_from_days_formula(days).1, civil_from_days_formula(days).2) == days,
{
    let z = days + 719468;
    let era = z / 146097;
    let doe = z - era * 146097;
    lemma_doe_decompose(doe);
    let yoe = yoe_of(doe);
    let doy = doe - doe_of(yoe, 0);
    lemma_march_month(doy);
    let mp = march_month_of(doy);
    let (year, month, day) = civil_from_days_formula(days);
    lemma_leap_period(yoe + 1, era);
    if mp < 11 {
        lemma_month_lengths(year, mp);
    }
    let y = if month <= 2 { year - 1 } else { year };
    assert(y == yoe + era * 400);
    assert(y / 400 == era);
}

/// Every day count names exactly one valid date, which the era based formula computes.
pub proof fn lemma_date_of_epoch_days(days: int)
    ensures
        date_of_epoch_days(days) == civil_from_days_formula(days),
        is_valid_date(date_of_epoch_days(days).0, date_of_epoch_days(days).1, date_of_epoch_days(days).2),
        spec_epoch_days(date_of_epoch_days(days).0, date_of_epoch_days(days).1, date_of_epoch_days(days).2) == days,
{
    let (y, m, d) = civil_from_days_formula(days);
    lemma_formula_roundtrip_days(days);
    lemma_formula_is_epoch_days(y, m, d);
    assert(is_valid_date(y, m, d) && spec_epoch_days(y, m, d) == days);
    let (y2, m2, d2) = date_of_epoch_days(days);
    assert(is_valid_date(y2, m2, d2) && spec_epoch_days(y2, m2, d2) == days);
    lemma_formula_is_epoch_days(y2, m2, d2);
    lemma_formula_roundtrip_date(y2, m2, d2);
}

/// The day count of a valid date converts back to that date.
pub proof fn lemma_epoch_days_roundtrip(year: int, month: int, day: int)
    requires
        is_valid_date(year, month, day),
    ensures
        date_of_epoch_days(spec_epoch_days(year, month, day)) == (year, month, day),
{
    lemma_formula_is_epoch_days(year, month, day);
    lemma_formula_roundtrip_date(year, month, day);
    lemma_date_of_epoch_days(spec_epoch_days(year, month, day));
}

/// The day following a date.
pub open spec fn spec_next_day(year: int, month: int, day: int) -> (int, int, int) {
    if day < spec_days_in_month(year, month) {
        (year, month, day + 1)
    } else if month < 12 {
        (year, month + 1, 1)
    } else {
        (year + 1, 1, 1)
    }
}

/// Consecutive days of the calendar have consecutive day counts, and the weekday
/// advances by one from each day to the next.
pub proof fn lemma_next_day(year: int, month: int, day: int)
    requires
        is_valid_date(year, month, day),
    ensures
        is_valid_date(spec_next_day(year, month, day).0, spec_next_day(year, month, day).1, spec_next_day(year, month, day).2),
        spec_epoch_days(spec_next_day(year, month, day).0, spec_next_day(year, month, day).1, spec_next_day(year, month, day).2)
            == spec_epoch_days(year, month, day) + 1,
        spec_weekday_from_days(spec_epoch_days(year, month, day) + 1)
            == (spec_weekday_from_days(spec_epoch_days(year, month, day)) + 1) % 7,
{
    let z = spec_epoch_days(year, month, day);
    assert(spec_weekday_from_days(z + 1) == (spec_weekday_from_days(z) + 1) % 7);
    if day < spec_days_in_month(year, month) {
    } else if month < 12 {
        assert(spec_days_before_month(year, month + 1) == spec_days_before_month(year, month)
            + spec_days_in_month(year, month));
    } else {
        lemma_days_before_month_values(year);
        lemma_leap_years_step(year);
        assert(days_before_year(year + 1) == days_before_year(year) + 365
            + if spec_is_leap_year(year) { 1int } else { 0int });
    }
}

/// The smallest day count of a date whose year fits in an `i16` (`-32768-01-01`).
pub const MIN_EPOCH_DAYS: i32 = -12687794;

/// The largest day count of a date whose year fits in an `i16` (`32767-12-31`).
pub const MAX_EPOCH_DAYS: i32 = 11248737;

/// The day counts of the dates with an `i16` year span `MIN_EPOCH_DAYS..=MAX_EPOCH_DAYS`.
pub proof fn lemma_epoch_days_bounds(year: int, month: int, day: int)
    requires
        is_valid_date(year, month, day),
        i16::MIN <= year <= i16::MAX,
    ensures
        MIN_EPOCH_DAYS == spec_epoch_days(i16::MIN as int, 1, 1),
        MAX_EPOCH_DAYS == spec_epoch_days(i16::MAX as int, 12, 31),
        MIN_EPOCH_DAYS <= spec_epoch_days(year, month, day) <= MAX_EPOCH_DAYS,
{
    lemma_days_before_month_values(year);
    lemma_days_before_month_values(i16::MAX as int);
    lemma_days_before_month_values(i16::MIN as int);
    assert(days_before_year(year) >= days_before_year(i16::MIN as int));
    assert(days_before_year(year) <= days_before_year(i16::MAX as int));
}

/// Returns the weekday for December 31st of a given year
///
/// Note that 0 is Sunday and 6 is Saturday.
pub fn end_of_year_weekday(year: i16) -> (r: u8)
    ensures
        r == spec_weekday_from_days(spec_epoch_days(year as int, 12, 31)),
{
    proof {
        lemma_epoch_days_bounds(year as int, 12, 31);
    }
    let days = date_to_epoch_days(year, 12, 31);
    weekday_from_days(days)
}

/// Returns the number of ISO weeks in a given year: 53 when December 31st is a
/// Thursday or the year before ends on a Wednesday, 52 otherwise.
pub fn iso_weeks_in_year(year: i16) -> (r: u8)
    ensures
        r == if spec_weekday_from_days(spec_epoch_days(year as int, 12, 31)) == 4 || spec_weekday_from_days(
            spec_epoch_days(year - 1, 12, 31),
        ) == 3 {
            53int
        } else {
            52int
        },
{
    proof {
        lemma_epoch_days_bounds(year as int, 1, 1);
        lemma_next_day(year - 1, 12, 31);
        assert(spec_next_day(year - 1, 12, 31) == (year as int, 1int, 1int));
    }
    let new_year = date_to_epoch_days(year, 1, 1);
    let before = weekday_from_days(new_year - 1);
    if end_of_year_weekday(year) == 4 || before == 3 {
        53
    } else {
        52
    }
}

/// Returns the difference between two weekdays, where 0 is Sunday and 6 is Saturday.
///
/// This returns a number between `0..=6`.
pub fn weekday_difference(x: u8, y: u8) -> (r: u8)
    requires
        x <= 6,
        y <= 6,
    ensures
        r == (x - y) % 7,
{
    if x >= y {
        x - y
    } else {
        x + 7 - y
    }
}

/// Returns the weekday from the days after 1970-01-01.
///
/// Note that 0 is Sunday and 6 is Saturday.
pub fn weekday_from_days(civil: i32) -> (r: u8)
    requires
        civil <= i32::MAX - 4,
    ensures
        r == spec_weekday_from_days(civil as int),
{
    let rem: i32 = (civil + 4) % 7;
    if rem < 0 {
        (rem + 7) as u8
    } else {
        rem as u8
    }
}

/// Returns the next weekday, given a weekday.
///
/// Note that 0 is Sunday and 6 is Saturday
pub fn next_weekday(wd: u8) -> (r: u8)
    ensures
        r == if wd < 6 { wd + 1 } else { 0 },
        wd <= 6 ==> r == (wd + 1) % 7,
{
    if wd < 6 {
        wd + 1
    } else {
        0
    }
}

/// Returns the previous weekday, given a weekday.
///
/// Note that 0 is Sunday and 6 is Saturday
pub fn prev_weekday(wd: u8) -> (r: u8)
    ensures
        r == if wd > 0 { wd - 1 } else { 6 },
        wd <= 6 ==> r == (wd + 6) % 7,
{
    if wd > 0 {
        wd - 1
    } else {
        6
    }
}

/// The day count of the Monday on or before January 4th of `year`, on which
/// the ISO year `year` starts.
pub open spec fn spec_iso_week_start(year: int) -> int {
    let jan4 = spec_epoch_days(year, 1, 4);
    jan4 - (spec_weekday_from_days(jan4) - 1) % 7
}

/// Stepping back `(weekday - 1) mod 7` days from any day reaches the Monday on or before it.
pub proof fn lemma_monday_on_or_before(e: int)
    ensures
        spec_weekday_from_days(e - (spec_weekday_from_days(e) - 1) % 7) == 1,
        e - 6 <= e - (spec_weekday_from_days(e) - 1) % 7 <= e,
{
    let w = spec_weekday_from_days(e);
    let r = e - (w - 1) % 7;
    assert(0 <= w < 7);
    if w == 0 {
        assert((w - 1) % 7 == 6);
    } else {
        assert((w - 1) % 7 == w - 1);
    }
    assert(r + 4 == (e + 4) - (w - 1) % 7);
}


/// The days of a year lie between its first and last day, and the last day of a
/// year is followed by the first day of the next one.
pub proof fn lemma_epoch_days_within_year(year: int, month: int, day: int)
    requires
        is_valid_date(year, month, day),
    ensures
        spec_epoch_days(year, 1, 1) <= spec_epoch_days(year, month, day) <= spec_epoch_days(year, 12, 31),
        spec_epoch_days(year + 1, 1, 1) == spec_epoch_days(year, 12, 31) + 1,
{
    lemma_days_before_month_values(year);
    lemma_days_before_month_values(year + 1);
    lemma_leap_years_step(year);
    assert(spec_days_before_month(year, month + 1) == spec_days_before_month(year, month)
        + spec_days_in_month(year, month));
}

/// The first day of a year comes later for later years.
#[verifier::spinoff_prover]
#[verifier::rlimit(40)]
pub proof fn lemma_days_before_year_monotone(a: int, b: int)
    requires
        a <= b,
    ensures
        days_before_year(a) <= days_before_year(b),
        a < b ==> days_before_year(a) + 365 <= days_before_year(b),
{
}

/// A day count between the first and last day of a year names a date of that year.
pub proof fn lemma_year_of_epoch_days(days: int, year: int)
    requires
        spec_epoch_days(year, 1, 1) <= days <= spec_epoch_days(year, 12, 31),
    ensures
        date_of_epoch_days(days).0 == year,
{
    lemma_date_of_epoch_days(days);
    let (y, m, d) = date_of_epoch_days(days);
    lemma_epoch_days_within_year(y, m, d);
    lemma_days_before_month_values(year);
    lemma_days_before_month_values(y);
    if y > year {
        lemma_days_before_year_monotone(year + 1, y);
        lemma_epoch_days_within_year(year, 12, 31);
    } else if y < year {
        lemma_days_before_year_monotone(y + 1, year);
        lemma_epoch_days_within_year(y, 12, 31);
    }
}

/// Every day of an earlier year comes before every day of a later year.
pub proof fn lemma_epoch_days_year_order(y1: int, m1: int, d1: int, y2: int, m2: int, d2: int)
    requires
        is_valid_date(y1, m1, d1),
        is_valid_date(y2, m2, d2),
        y1 < y2,
    ensures
        spec_epoch_days(y1, m1, d1) < spec_epoch_days(y2, m2, d2),
{
    lemma_epoch_days_within_year(y1, m1, d1);
    lemma_epoch_days_within_year(y2, m2, d2);
    lemma_days_before_month_values(y1);
    lemma_days_before_month_values(y1 + 1);
    lemma_days_before_month_values(y2);
    lemma_days_before_year_monotone(y1 + 1, y2);
}

/// The day counts `MIN_EPOCH_DAYS..=MAX_EPOCH_DAYS` name dates whose year fits in an `i16`.
pub proof fn lemma_epoch_days_year_in_range(days: int)
    requires
        MIN_EPOCH_DAYS <= days <= MAX_EPOCH_DAYS,
    ensures
        i16::MIN <= date_of_epoch_days(days).0 <= i16::MAX,
{
    lemma_date_of_epoch_days(days);
    let (y, m, d) = date_of_epoch_days(days);
    lemma_epoch_days_within_year(y, m, d);
    lemma_days_before_month_values(y);
    lemma_days_before_month_values(i16::MAX as int);
    lemma_days_before_month_values(i16::MIN as int);
    if y > i16::MAX {
        lemma_days_before_year_monotone(i16::MAX + 1, y);
    } else if y < i16::MIN {
        lemma_days_before_year_monotone(y + 1, i16::MIN as int);
    }
}

/// Consecutive ISO years start 52 or 53 weeks apart.
#[verifier::rlimit(30)]
pub proof fn lemma_iso_year_length(year: int)
    ensures
        spec_iso_week_start(year + 1) - spec_iso_week_start(year) == 364
            || spec_iso_week_start(year + 1) - spec_iso_week_start(year) == 371,
        spec_iso_week_start(year) <= spec_epoch_days(year, 1, 4) <= spec_iso_week_start(year) + 6,
        spec_weekday_from_days(spec_iso_week_start(year)) == 1,
{
    let a = spec_epoch_days(year, 1, 4);
    let b = spec_epoch_days(year + 1, 1, 4);
    lemma_monday_on_or_before(a);
    lemma_monday_on_or_before(b);
    lemma_days_before_month_values(year);
    lemma_days_before_month_values(year + 1);
    lemma_leap_years_step(year);
    assert(b - a == 365 || b - a == 366);
    let sa = spec_iso_week_start(year);
    let sb = spec_iso_week_start(year + 1);
    assert((sa + 4) % 7 == 1 && (sb + 4) % 7 == 1);
    assert((sb - sa) % 7 == 0) by {
        vstd::arithmetic::div_mod::lemma_fundamental_div_mod(sa + 4, 7);
        vstd::arithmetic::div_mod::lemma_fundamental_div_mod(sb + 4, 7);
        vstd::arithmetic::div_mod::lemma_mod_multiples_basic((sb + 4) / 7 - (sa + 4) / 7, 7);
    }
    assert(359 <= sb - sa <= 372);
}

/// The Thursday of the first ISO week of a year lies in that year.
pub proof fn lemma_iso_week_start_year(year: int)
    ensures
        date_of_epoch_days(spec_iso_week_start(year) + 3).0 == year,
{
    lemma_iso_year_length(year);
    lemma_days_before_month_values(year);
    lemma_year_of_epoch_days(spec_iso_week_start(year) + 3, year);
}

/// Returns the day count on which an ISO year starts.
pub fn iso_week_start_epoch_from_year(year: i16) -> (r: i32)
    ensures
        r == spec_iso_week_start(year as int),
        spec_weekday_from_days(r as int) == 1,
        r <= spec_epoch_days(year as int, 1, 4) < r + 7,
{
    proof {
        lemma_epoch_days_bounds(year as int, 1, 4);
        lemma_monday_on_or_before(spec_epoch_days(year as int, 1, 4));
    }
    let epoch = date_to_epoch_days(year, 1, 4);
    let weekday = weekday_from_days(epoch);
    // difference from Monday
    epoch - weekday_difference(weekday, 1) as i32
}

/// Determines where the ISO week starts from a given year and epoch of date.
pub fn find_iso_week_start_epoch(year: i16, epoch: i32) -> (r: i32)
    requires
        i16::MIN < year < i16::MAX,
    ensures
        r == if epoch < spec_iso_week_start(year as int) {
            spec_iso_week_start(year - 1)
        } else if epoch >= spec_iso_week_start(year + 1) {
            spec_iso_week_start(year + 1)
        } else {
            spec_iso_week_start(year as int)
        },
{
    let start = iso_week_start_epoch_from_year(year);
    if epoch < start {
        return iso_week_start_epoch_from_year(year - 1);
    }
    let next_start = iso_week_start_epoch_from_year(year + 1);
    if epoch >= next_start {
        next_start
    } else {
        start
    }
}

// ---------------------------------------------------------------------------
// Executable algorithms
// ---------------------------------------------------------------------------

/// Returns `true` if the year is a leap year or not.
pub fn is_leap_year(year: i16) -> (r: bool)
    ensures
        r == spec_is_leap_year(year as int),
{
    year % 4 == 0 && (year % 100 != 0 || year % 400 == 0)
}

/// Returns the number of days in that given month and year.
///
/// A month of `0` has no days.
pub fn days_in_month(year: i16, month: u8) -> (r: u8)
    requires
        month <= 12,
    ensures
        r == spec_days_in_month(year as int, month as int),
{
    if month == 2 && is_leap_year(year) {
        29
    } else {
        match month {
            0 => 0,
            2 => 28,
            4 | 6 | 9 | 11 => 30,
            _ => 31,
        }
    }
}

/// Returns how many days precede the first day of the given month in the year.
pub fn days_before_month(year: i16, month: u8) -> (r: u16)
    requires
        month <= 12,
    ensures
        r == spec_days_before_month(year as int, month as int),
{
    proof {
        lemma_days_before_month_values(year as int);
    }
    let base: u16 = match month {
        0 | 1 => 0,
        2 => 31,
        3 => 59,
        4 => 90,
        5 => 120,
        6 => 151,
        7 => 181,
        8 => 212,
        9 => 243,
        10 => 273,
        11 => 304,
        _ => 334,
    };
    let offset = month > 2 && is_leap_year(year);
    if offset {
        base + 1
    } else {
        base
    }
}

/// Returns the ordinal date of a given year, month, and day.
pub fn date_to_ordinal(year: i16, month: u8, day: u8) -> (r: u16)
    requires
        is_valid_date(year as int, month as int, day as int),
    ensures
        r == spec_days_before_month(year as int, month as int) + day,
{
    proof {
        lemma_days_before_month_values(year as int);
    }
    days_before_month(year, month) + day as u16
}

/// Returns the number of days from 1970-01-01 of a given year, month, and day.
///
/// Month and day are not bound checked: for a month outside `1..=12` the era based
/// formula is still evaluated.
pub fn date_to_epoch_days(year: i16, month: u8, day: u8) -> (r: i32)
    ensures
        r == civil_to_days_formula(year as int, month as int, day as int),
        1 <= month <= 12 ==> r == spec_epoch_days(year as int, month as int, day as int),
{
    proof {
        if 1 <= month <= 12 {
            lemma_formula_is_epoch_days(year as int, month as int, day as int);
        }
    }
    let y: i32 = year as i32 - if month <= 2 { 1i32 } else { 0i32 };
    let (era, _) = divmod_i32(y, 400);
    let year_of_era: i32 = y - era * 400;
    let m: i32 = if month > 2 { (month - 3) as i32 } else { month as i32 + 9 };
    let day_of_year: i32 = (153 * m + 2) / 5 + day as i32 - 1;
    let day_of_era: i32 = 365 * year_of_era + year_of_era / 4 - year_of_era / 100 + day_of_year;
    era * 146097 + day_of_era - 719468
}

/// Converts the number of days since 1970-01-01 into a (year, month, day) tuple.
///
/// The year saturates at the bounds of `i16`.
pub fn date_from_epoch_days(days: i32) -> (r: (i16, u8, u8))
    requires
        days <= i32::MAX - 719468,
    ensures
        r.0 == clamp_i16(date_of_epoch_days(days as int).0),
        r.1 == date_of_epoch_days(days as int).1,
        r.2 == date_of_epoch_days(days as int).2,
{
    proof {
        lemma_date_of_epoch_days(days as int);
        lemma_formula_roundtrip_days(days as int);
        let doe = days + 719468 - ((days + 719468) / 146097) * 146097;
        lemma_doe_decompose(doe);
        lemma_march_month(doe - doe_of(yoe_of(doe), 0));
    }
    let days: i32 = days + 719468;
    let (era, _) = divmod_i32(days, 146097);
    let day_of_era: i32 = days - era * 146097;
    let year_of_era: i32 = (day_of_era - day_of_era / 1460 + day_of_era / 36524 - day_of_era / 146096) / 365;
    let mut y: i32 = year_of_era + era * 400;
    let day_of_year: i32 = day_of_era - (365 * year_of_era + year_of_era / 4 - year_of_era / 100);
    let mp: i32 = (5 * day_of_year + 2) / 153;
    let d: i32 = day_of_year - (153 * mp + 2) / 5 + 1;
    let m: i32 = if mp < 10 { mp + 3 } else { mp - 9 };
    if m <= 2 {
        y = y + 1;
    }
    let y: i16 = if y > i16::MAX as i32 {
        i16::MAX
    } else if y < i16::MIN as i32 {
        i16::MIN
    } else {
        y as i16
    };
    (y, m as u8, d as u8)
}

} // verus!
