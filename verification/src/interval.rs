//! Intervals of time such as 2 years or 30 minutes.
use vstd::prelude::*;

use crate::date::{spec_add_months, spec_add_years, Date};
use crate::gregorian::{date_of_epoch_days, is_valid_date, spec_epoch_days, MAX_EPOCH_DAYS, MIN_EPOCH_DAYS};
use crate::time::Time;
use crate::timezone::UtcOffset;
use crate::utils::{trunc_div, trunc_rem};

verus! {

pub const MICROS_PER_SEC: i64 = 1_000_000;
pub const MICROS_PER_MIN: i64 = 60_000_000;
pub const MICROS_PER_HOUR: i64 = 3_600_000_000;

/// An interval of time such as 2 years, 30 minutes, etc.
///
/// For performance and memory reasons this only has up to microsecond precision.
///
/// An interval keeps each unit as it was given: years, months, days, hours, minutes,
/// and the microseconds within the seconds. Adding intervals adds unit by unit, so
/// `9 hours + 75 minutes - 94 seconds` keeps its 75 minutes and is written
/// `PT9H75M-94S`. Two intervals are equal when their total months, days and
/// microseconds are. The accessors normalize to the nearest unit. For example, `1234`
/// months is equivalent to 102 years and 10 months, so [`Interval::months`] returns
/// `10` rather than `1234`.
#[derive(Debug, Clone, Copy, Eq)]
pub struct Interval {
    years: i32,
    months: i32,
    days: i32,
    hours: i64,
    minutes: i64,
    microseconds: i64,
}

/// The total months, days and microseconds of units as written: years, months, days,
/// hours, minutes and microseconds.
pub open spec fn interval_totals(w: (int, int, int, int, int, int)) -> (int, int, int) {
    (w.0 * 12 + w.1, w.2, w.3 * MICROS_PER_HOUR + w.4 * MICROS_PER_MIN + w.5)
}

/// Units as written that each fit their storage, and whose totals fit too.
pub open spec fn units_fit(w: (int, int, int, int, int, int)) -> bool {
    &&& i32::MIN <= w.0 <= i32::MAX
    &&& i32::MIN <= w.1 <= i32::MAX
    &&& i32::MIN <= w.2 <= i32::MAX
    &&& i64::MIN <= w.3 <= i64::MAX
    &&& i64::MIN <= w.4 <= i64::MAX
    &&& i64::MIN <= w.5 <= i64::MAX
    &&& Interval::fits(interval_totals(w))
}

/// Two sets of units, added unit by unit.
pub open spec fn units_add(a: (int, int, int, int, int, int), b: (int, int, int, int, int, int)) -> (
    int,
    int,
    int,
    int,
    int,
    int,
) {
    (a.0 + b.0, a.1 + b.1, a.2 + b.2, a.3 + b.3, a.4 + b.4, a.5 + b.5)
}

/// A set of units, each negated.
pub open spec fn units_neg(a: (int, int, int, int, int, int)) -> (int, int, int, int, int, int) {
    (-a.0, -a.1, -a.2, -a.3, -a.4, -a.5)
}

/// The units that a total of months, days and microseconds is written in: whole years
/// and the months left, the days, whole hours, the minutes left and the microseconds
/// left, each with the sign of its total.
pub open spec fn normalized_units(months: int, days: int, micros: int) -> (int, int, int, int, int, int) {
    let in_hour = trunc_rem(micros, MICROS_PER_HOUR as int);
    (
        trunc_div(months, 12),
        trunc_rem(months, 12),
        days,
        trunc_div(micros, MICROS_PER_HOUR as int),
        trunc_div(in_hour, MICROS_PER_MIN as int),
        trunc_rem(in_hour, MICROS_PER_MIN as int),
    )
}

/// Totals that fit are written in units that fit and add up to them.
pub proof fn lemma_normalized_units(months: int, days: int, micros: int)
    requires
        Interval::fits((months, days, micros)),
    ensures
        units_fit(normalized_units(months, days, micros)),
        interval_totals(normalized_units(months, days, micros)) == (months, days, micros),
{
    let in_hour = trunc_rem(micros, MICROS_PER_HOUR as int);
    if micros >= 0 {
        assert(micros == (micros / 3_600_000_000) * 3_600_000_000 + micros % 3_600_000_000);
        assert(in_hour == (in_hour / 60_000_000) * 60_000_000 + in_hour % 60_000_000);
    } else {
        assert(-micros == ((-micros) / 3_600_000_000) * 3_600_000_000 + (-micros) % 3_600_000_000);
        assert(-in_hour == ((-in_hour) / 60_000_000) * 60_000_000 + (-in_hour) % 60_000_000);
    }
    if months >= 0 {
        assert(months == (months / 12) * 12 + months % 12);
    } else {
        assert(-months == ((-months) / 12) * 12 + (-months) % 12);
    }
}

impl View for Interval {
    type V = (int, int, int);

    /// The total months, days and microseconds of the interval: what equality compares.
    open spec fn view(&self) -> (int, int, int) {
        interval_totals(self.written())
    }
}

impl Interval {
    /// The units of the interval as written: years, months, days, hours, minutes and
    /// the microseconds within the seconds.
    pub closed spec fn written(self) -> (int, int, int, int, int, int) {
        (
            self.years as int,
            self.months as int,
            self.days as int,
            self.hours as int,
            self.minutes as int,
            self.microseconds as int,
        )
    }

    /// The totals of every interval fit in `i32`, `i32` and `i64`.
    #[verifier::type_invariant]
    spec fn totals_fit(self) -> bool {
        Interval::fits(interval_totals(self.written()))
    }

    /// The total months, days and microseconds of an interval fit in `i32`, `i32` and `i64`.
    pub open spec fn fits(v: (int, int, int)) -> bool {
        &&& i32::MIN <= v.0 <= i32::MAX
        &&& i32::MIN <= v.1 <= i32::MAX
        &&& i64::MIN <= v.2 <= i64::MAX
    }

    /// Builds an interval from units as written whose totals fit.
    pub(crate) fn of_units(years: i32, months: i32, days: i32, hours: i64, minutes: i64, microseconds: i64) -> (r: Interval)
        requires
            Interval::fits(
                interval_totals(
                    (years as int, months as int, days as int, hours as int, minutes as int, microseconds as int),
                ),
            ),
        ensures
            r.written() == (years as int, months as int, days as int, hours as int, minutes as int, microseconds as int),
    {
        Interval { years, months, days, hours, minutes, microseconds }
    }

    /// Creates an interval from its total months, days and microseconds, written in
    /// whole years and months, days, and whole hours, minutes and microseconds.
    pub fn from_parts(months: i32, days: i32, microseconds: i64) -> (r: Interval)
        ensures
            r@ == (months as int, days as int, microseconds as int),
            r.written() == normalized_units(months as int, days as int, microseconds as int),
    {
        let (years, rest_months) = crate::utils::divrem_i64(months as i64, 12);
        let (hours, in_hour) = crate::utils::divrem_i64(microseconds, MICROS_PER_HOUR);
        let (minutes, rest) = crate::utils::divrem_i64(in_hour, MICROS_PER_MIN);
        proof {
            assert(-3_600_000_000 < in_hour < 3_600_000_000) by {
                if microseconds >= 0 {
                    assert(0 <= (microseconds as int) % 3_600_000_000 < 3_600_000_000);
                } else {
                    assert(0 <= (-(microseconds as int)) % 3_600_000_000 < 3_600_000_000);
                }
            }
            if months >= 0 {
                assert(0 <= years <= i32::MAX);
            } else {
                assert(i32::MIN <= years <= 0);
            }
        }
        Interval::of_units(years as i32, rest_months as i32, days, hours, minutes, rest)
    }

    /// An interval that contains only zero values.
    pub fn zero() -> (r: Interval)
        ensures
            r@ == (0int, 0int, 0int),
            r.written() == (0int, 0int, 0int, 0int, 0int, 0int),
    {
        Interval::of_units(0, 0, 0, 0, 0, 0)
    }

    /// Creates an [`Interval`] representing the specified number of years.
    pub fn from_years(years: i16) -> (r: Interval)
        ensures
            r@ == (years * 12, 0int, 0int),
            r.written() == (years as int, 0int, 0int, 0int, 0int, 0int),
    {
        Interval::of_units(years as i32, 0, 0, 0, 0, 0)
    }

    /// Creates an [`Interval`] representing the specified number of days.
    pub fn from_days(days: i32) -> (r: Interval)
        ensures
            r@ == (0int, days as int, 0int),
            r.written() == (0int, 0int, days as int, 0int, 0int, 0int),
    {
        Interval::of_units(0, 0, days, 0, 0, 0)
    }

    /// Creates an [`Interval`] representing the specified number of months.
    pub fn from_months(months: i32) -> (r: Interval)
        ensures
            r@ == (months as int, 0int, 0int),
            r.written() == (0int, months as int, 0int, 0int, 0int, 0int),
    {
        Interval::of_units(0, months, 0, 0, 0, 0)
    }

    /// Creates an [`Interval`] representing the specified number of weeks.
    pub fn from_weeks(weeks: i32) -> (r: Interval)
        requires
            i32::MIN <= weeks * 7 <= i32::MAX,
        ensures
            r@ == (0int, weeks * 7, 0int),
            r.written() == (0int, 0int, weeks * 7, 0int, 0int, 0int),
    {
        Interval::of_units(0, 0, weeks * 7, 0, 0, 0)
    }

    /// Creates an [`Interval`] representing the specified number of hours.
    pub fn from_hours(hours: i32) -> (r: Interval)
        ensures
            r@ == (0int, 0int, hours * MICROS_PER_HOUR),
            r.written() == (0int, 0int, 0int, hours as int, 0int, 0int),
    {
        Interval::of_units(0, 0, 0, hours as i64, 0, 0)
    }

    /// Creates an [`Interval`] representing the specified number of minutes.
    pub fn from_minutes(minutes: i32) -> (r: Interval)
        ensures
            r@ == (0int, 0int, minutes * MICROS_PER_MIN),
            r.written() == (0int, 0int, 0int, 0int, minutes as int, 0int),
    {
        Interval::of_units(0, 0, 0, 0, minutes as i64, 0)
    }

    /// Creates an [`Interval`] representing the specified number of seconds.
    pub fn from_seconds(seconds: i32) -> (r: Interval)
        ensures
            r@ == (0int, 0int, seconds * MICROS_PER_SEC),
            r.written() == (0int, 0int, 0int, 0int, 0int, seconds * MICROS_PER_SEC),
    {
        Interval::of_units(0, 0, 0, 0, 0, seconds as i64 * MICROS_PER_SEC)
    }

    /// Creates an [`Interval`] representing the specified number of milliseconds.
    ///
    /// The internal structure only stores microseconds. If the computation
    /// would end up overflowing then the value saturates.
    pub fn from_milliseconds(milliseconds: i64) -> (r: Interval)
        ensures
            r@ == (0int, 0int, clamp_i64(milliseconds * 1000)),
            r.written() == (0int, 0int, 0int, 0int, 0int, clamp_i64(milliseconds * 1000)),
    {
        let microseconds = match milliseconds.checked_mul(1000) {
            Some(v) => v,
            None => if milliseconds < 0 {
                i64::MIN
            } else {
                i64::MAX
            },
        };
        Interval::of_units(0, 0, 0, 0, 0, microseconds)
    }

    /// Creates an [`Interval`] representing the specified number of microseconds.
    pub fn from_microseconds(microseconds: i64) -> (r: Interval)
        ensures
            r@ == (0int, 0int, microseconds as int),
            r.written() == (0int, 0int, 0int, 0int, 0int, microseconds as int),
    {
        Interval::of_units(0, 0, 0, 0, 0, microseconds)
    }

    /// The total number of months of the interval.
    pub fn total_months(&self) -> (r: i32)
        ensures
            r == self@.0,
    {
        proof {
            use_type_invariant(self);
        }
        (self.years as i64 * 12 + self.months as i64) as i32
    }

    /// The total number of microseconds of the interval.
    pub fn total_microseconds(&self) -> (r: i64)
        ensures
            r == self@.2,
    {
        proof {
            use_type_invariant(self);
        }
        (self.hours as i128 * MICROS_PER_HOUR as i128 + self.minutes as i128 * MICROS_PER_MIN as i128
            + self.microseconds as i128) as i64
    }

    /// The units of the interval as written: years, months, days, hours, minutes and
    /// the microseconds within the seconds.
    pub fn units(&self) -> (r: (i32, i32, i32, i64, i64, i64))
        ensures
            (r.0 as int, r.1 as int, r.2 as int, r.3 as int, r.4 as int, r.5 as int) == self.written(),
    {
        (self.years, self.months, self.days, self.hours, self.minutes, self.microseconds)
    }

    /// Returns the number of *whole* years within this interval.
    ///
    /// The years wrap around when they do not fit in an `i16`.
    pub fn years(&self) -> (r: i16)
        ensures
            r == trunc_div(self@.0, 12) as i16,
            i16::MIN <= trunc_div(self@.0, 12) <= i16::MAX ==> r == trunc_div(self@.0, 12),
    {
        #[verifier::truncate]
        ((self.total_months() / 12) as i16)
    }

    /// Returns the number of *whole* days within this interval.
    ///
    /// Note that 86400 seconds does not equal a day in this interval.
    pub fn days(&self) -> (r: i32)
        ensures
            r == self@.1,
    {
        self.days
    }

    /// Returns the number of *whole* months within this interval, after whole years.
    pub fn months(&self) -> (r: i32)
        ensures
            r == trunc_rem(self@.0, 12),
    {
        self.total_months() % 12
    }

    /// Returns the number of *whole* weeks within this interval.
    pub fn weeks(&self) -> (r: i32)
        ensures
            r == trunc_div(self@.1, 7),
    {
        self.days / 7
    }

    /// Returns the number of *whole* weeks within this interval.
    pub fn total_weeks(&self) -> (r: i32)
        ensures
            r == trunc_div(self@.1, 7),
    {
        self.weeks()
    }

    /// Returns the number of *whole* hours within this interval.
    pub fn hours(&self) -> (r: i64)
        ensures
            r == trunc_div(self@.2, MICROS_PER_HOUR as int),
    {
        self.total_microseconds() / MICROS_PER_HOUR
    }

    /// Returns the number of *whole* minutes within this interval, after whole hours.
    pub fn minutes(&self) -> (r: i64)
        ensures
            r == trunc_div(trunc_rem(self@.2, MICROS_PER_HOUR as int), MICROS_PER_MIN as int),
    {
        (self.total_microseconds() % MICROS_PER_HOUR) / MICROS_PER_MIN
    }

    /// Returns the number of *whole* seconds within this interval, after whole minutes.
    pub fn seconds(&self) -> (r: i64)
        ensures
            r == trunc_div(trunc_rem(self@.2, MICROS_PER_MIN as int), MICROS_PER_SEC as int),
    {
        (self.total_microseconds() % MICROS_PER_MIN) / MICROS_PER_SEC
    }

    /// Returns the number of *whole* milliseconds within this interval, after whole seconds.
    pub fn milliseconds(&self) -> (r: i64)
        ensures
            r == trunc_div(trunc_rem(self@.2, MICROS_PER_SEC as int), 1000),
    {
        self.microseconds() / 1_000
    }

    /// Returns the number of *whole* microseconds within this interval, after whole seconds.
    pub fn microseconds(&self) -> (r: i64)
        ensures
            r == trunc_rem(self@.2, MICROS_PER_SEC as int),
    {
        self.total_microseconds() % MICROS_PER_SEC
    }

    /// Returns the time components of this interval as a duration: whether it is
    /// negative, its whole seconds and its nanoseconds.
    ///
    /// The seconds are the Euclidean quotient of the microseconds by a million, so a
    /// negative interval with a fraction of a second is one second longer than its
    /// magnitude, minus the fraction.
    pub fn get_time_duration(&self) -> (r: (bool, u64, u32))
        ensures
            r.0 == ((self@.2 / (MICROS_PER_SEC as int)) < 0),
            r.1 == if (self@.2 / (MICROS_PER_SEC as int)) < 0 {
                -(self@.2 / (MICROS_PER_SEC as int))
            } else {
                self@.2 / (MICROS_PER_SEC as int)
            },
            r.2 == (self@.2 % (MICROS_PER_SEC as int)) * 1000,
            r.1 <= 9_223_372_036_855,
    {
        let (seconds, microseconds) = crate::utils::divmod_i64(self.total_microseconds(), MICROS_PER_SEC);
        let nanoseconds: u32 = microseconds as u32 * 1_000;
        let abs: u64 = if seconds < 0 { (-seconds) as u64 } else { seconds as u64 };
        (seconds < 0, abs, nanoseconds)
    }

    /// Constructs an [`Interval`] between two times: the microseconds from `start` to `end`.
    pub fn between_times(start: &Time, end: &Time) -> (r: Interval)
        ensures
            r@ == (0int, 0int, end.spec_total_nanos() / 1000 - start.spec_total_nanos() / 1000),
            r.written() == normalized_units(0, 0, end.spec_total_nanos() / 1000 - start.spec_total_nanos() / 1000),
    {
        let microseconds = end.total_micros() - start.total_micros();
        Interval::from_parts(0, 0, microseconds)
    }

    /// Converts an offset to an interval of its total seconds.
    pub fn from_offset(offset: UtcOffset) -> (r: Interval)
        ensures
            r@ == (0int, 0int, offset.spec_total_seconds() * MICROS_PER_SEC),
            r.written() == (0int, 0int, 0int, 0int, 0int, offset.spec_total_seconds() * MICROS_PER_SEC),
    {
        Interval::from_seconds(offset.total_seconds())
    }

    /// Negates every unit of the interval.
    pub fn negate(self) -> (r: Interval)
        requires
            units_fit(units_neg(self.written())),
        ensures
            r.written() == units_neg(self.written()),
            r@ == (-self@.0, -self@.1, -self@.2),
    {
        Interval::of_units(-self.years, -self.months, -self.days, -self.hours, -self.minutes, -self.microseconds)
    }

    /// Attempts to convert a duration of `secs` seconds and `subsec_micros` microseconds
    /// into an [`Interval`] of days and microseconds.
    ///
    /// If the days or the microseconds do not fit then [`crate::Error::OutOfRange`] is returned.
    pub fn try_from_duration(secs: u64, subsec_micros: u32) -> (r: Result<Interval, crate::error::Error>)
        requires
            subsec_micros < 1_000_000,
        ensures
            r is Ok <==> secs / 86400 <= i32::MAX && (secs % 86400) * 1_000_000 + subsec_micros <= i64::MAX,
            r matches Ok(i) ==> i@ == (0int, (secs / 86400) as int, (secs % 86400) * 1_000_000 + subsec_micros)
                && i.written() == normalized_units(0, (secs / 86400) as int, (secs % 86400) * 1_000_000 + subsec_micros),
            r matches Err(e) ==> e == crate::error::Error::OutOfRange,
    {
        let days = secs / 86400;
        let seconds = secs % 86400;
        if days > i32::MAX as u64 {
            return Err(crate::error::Error::OutOfRange);
        }
        let micros: u64 = seconds * 1_000_000 + subsec_micros as u64;
        if micros > i64::MAX as u64 {
            return Err(crate::error::Error::OutOfRange);
        }
        Ok(Interval::from_parts(0, days as i32, micros as i64))
    }
}

impl Default for Interval {
    /// An interval that contains only zero values.
    fn default() -> (r: Interval)
        ensures
            r@ == (0int, 0int, 0int),
            r.written() == (0int, 0int, 0int, 0int, 0int, 0int),
    {
        Interval::zero()
    }
}

impl PartialEq for Interval {
    /// Two intervals are equal when their total months, days and microseconds are.
    fn eq(&self, other: &Interval) -> (r: bool) {
        self.total_months() == other.total_months() && self.days == other.days && self.total_microseconds()
            == other.total_microseconds()
    }
}

impl vstd::std_specs::cmp::PartialEqSpecImpl for Interval {
    open spec fn obeys_eq_spec() -> bool {
        true
    }

    open spec fn eq_spec(&self, other: &Interval) -> bool {
        self@ == other@
    }
}

impl PartialOrd for Interval {
    /// Intervals are ordered by their total months, then their days, then their total
    /// microseconds.
    fn partial_cmp(&self, other: &Interval) -> (r: Option<core::cmp::Ordering>) {
        let (a, b) = (self.total_months(), other.total_months());
        if a != b {
            return if a < b {
                Some(core::cmp::Ordering::Less)
            } else {
                Some(core::cmp::Ordering::Greater)
            };
        }
        if self.days != other.days {
            return if self.days < other.days {
                Some(core::cmp::Ordering::Less)
            } else {
                Some(core::cmp::Ordering::Greater)
            };
        }
        let (x, y) = (self.total_microseconds(), other.total_microseconds());
        if x < y {
            Some(core::cmp::Ordering::Less)
        } else if x > y {
            Some(core::cmp::Ordering::Greater)
        } else {
            Some(core::cmp::Ordering::Equal)
        }
    }
}

impl vstd::std_specs::cmp::PartialOrdSpecImpl for Interval {
    open spec fn obeys_partial_cmp_spec() -> bool {
        true
    }

    open spec fn partial_cmp_spec(&self, other: &Interval) -> Option<core::cmp::Ordering> {
        if self@.0 != other@.0 {
            if self@.0 < other@.0 {
                Some(core::cmp::Ordering::Less)
            } else {
                Some(core::cmp::Ordering::Greater)
            }
        } else if self@.1 != other@.1 {
            if self@.1 < other@.1 {
                Some(core::cmp::Ordering::Less)
            } else {
                Some(core::cmp::Ordering::Greater)
            }
        } else if self@.2 < other@.2 {
            Some(core::cmp::Ordering::Less)
        } else if self@.2 > other@.2 {
            Some(core::cmp::Ordering::Greater)
        } else {
            Some(core::cmp::Ordering::Equal)
        }
    }
}

/// The interval with the given units as written.
pub closed spec fn interval_of_units(w: (int, int, int, int, int, int)) -> Interval {
    Interval {
        years: w.0 as i32,
        months: w.1 as i32,
        days: w.2 as i32,
        hours: w.3 as i64,
        minutes: w.4 as i64,
        microseconds: w.5 as i64,
    }
}

/// Two intervals with the same units as written are the same interval.
pub proof fn lemma_interval_view_eq(a: Interval, b: Interval)
    requires
        a.written() == b.written(),
    ensures
        a == b,
{
}

/// An interval built from units that fit has those units.
pub broadcast proof fn lemma_interval_of_units(w: (int, int, int, int, int, int))
    requires
        units_fit(w),
    ensures
        #[trigger] interval_of_units(w).written() == w,
{
}

/// Adding two intervals adds them unit by unit, and so adds their total months, days
/// and microseconds; equality, which compares totals, sees the sum of the totals.
pub proof fn lemma_add_adds_totals(a: Interval, b: Interval)
    requires
        units_fit(units_add(a.written(), b.written())),
    ensures
        interval_of_units(units_add(a.written(), b.written())).written() == units_add(a.written(), b.written()),
        interval_of_units(units_add(a.written(), b.written()))@ == (a@.0 + b@.0, a@.1 + b@.1, a@.2 + b@.2),
{
    let w = units_add(a.written(), b.written());
    lemma_interval_of_units(w);
    let (x, y) = (a.written(), b.written());
    assert((x.3 + y.3) * MICROS_PER_HOUR == x.3 * MICROS_PER_HOUR + y.3 * MICROS_PER_HOUR);
    assert((x.4 + y.4) * MICROS_PER_MIN == x.4 * MICROS_PER_MIN + y.4 * MICROS_PER_MIN);
}

impl core::ops::Sub for Interval {
    type Output = Interval;

    fn sub(self, rhs: Interval) -> (r: Interval) {
        Interval {
            years: self.years - rhs.years,
            months: self.months - rhs.months,
            days: self.days - rhs.days,
            hours: self.hours - rhs.hours,
            minutes: self.minutes - rhs.minutes,
            microseconds: self.microseconds - rhs.microseconds,
        }
    }
}

impl vstd::std_specs::ops::SubSpecImpl for Interval {
    open spec fn obeys_sub_spec() -> bool {
        true
    }

    open spec fn sub_req(self, rhs: Interval) -> bool {
        units_fit(units_add(self.written(), units_neg(rhs.written())))
    }

    open spec fn sub_spec(self, rhs: Interval) -> Interval {
        interval_of_units(units_add(self.written(), units_neg(rhs.written())))
    }
}

impl core::ops::Neg for Interval {
    type Output = Interval;

    fn neg(self) -> (r: Interval) {
        Interval {
            years: -self.years,
            months: -self.months,
            days: -self.days,
            hours: -self.hours,
            minutes: -self.minutes,
            microseconds: -self.microseconds,
        }
    }
}

impl vstd::std_specs::ops::NegSpecImpl for Interval {
    open spec fn obeys_neg_spec() -> bool {
        true
    }

    open spec fn neg_req(self) -> bool {
        units_fit(units_neg(self.written()))
    }

    open spec fn neg_spec(self) -> Interval {
        interval_of_units(units_neg(self.written()))
    }
}

/// One date is on or before another.
pub open spec fn date_le(a: (int, int, int), b: (int, int, int)) -> bool {
    spec_epoch_days(a.0, a.1, a.2) <= spec_epoch_days(b.0, b.1, b.2)
}

/// The whole years from `start` to `end`: the year difference, less one when moving
/// `start` by it overshoots `end`.
pub open spec fn spec_years_between(start: (int, int, int), end: (int, int, int)) -> int {
    let diff = end.0 - start.0;
    let location = spec_add_years(start, diff);
    if date_le(start, end) {
        if date_le(location, end) { diff } else { diff - 1 }
    } else {
        if date_le(end, location) { diff } else { diff + 1 }
    }
}

/// The whole months from `start` to `end`: the month difference, less one when moving
/// `start` by it overshoots `end`.
pub open spec fn spec_months_between(start: (int, int, int), end: (int, int, int)) -> int {
    let diff = (end.0 - start.0) * 12 + end.1 - start.1;
    let location = spec_add_months(start, diff);
    if date_le(start, end) {
        if date_le(location, end) { diff } else { diff - 1 }
    } else {
        if date_le(end, location) { diff } else { diff + 1 }
    }
}

/// The interval from `start` to `end`: whole years, then whole months, then days.
pub open spec fn spec_between_dates(start: (int, int, int), end: (int, int, int)) -> (int, int, int) {
    if start == end {
        (0, 0, 0)
    } else {
        let years = spec_years_between(start, end);
        let after_years = spec_add_years(start, years);
        let months = spec_months_between(after_years, end);
        let after_months = spec_add_months(after_years, months);
        (
            years * 12 + months,
            spec_epoch_days(end.0, end.1, end.2) - spec_epoch_days(after_months.0, after_months.1, after_months.2),
            0,
        )
    }
}

/// Moving a date by whole years and then by months is moving it by the total months,
/// when its day exists in every month.
proof fn lemma_add_years_then_months(start: (int, int, int), years: int, months: int)
    requires
        is_valid_date(start.0, start.1, start.2),
        start.2 <= 28,
        i16::MIN <= start.0 + years <= i16::MAX,
    ensures
        spec_add_months(start, years * 12 + months) == spec_add_months(spec_add_years(start, years), months),
{
    let ay = spec_add_years(start, years);
    assert(ay == (start.0 + years, start.1, start.2));
    let total = start.1 - 1 + years * 12 + months;
    assert(total / 12 == years + (start.1 - 1 + months) / 12);
    assert(total % 12 == (start.1 - 1 + months) % 12);
}

/// Adding the interval between two dates to the first date gives the second one,
/// when the first date's day exists in every month.
pub proof fn lemma_between_dates_then_add(start: (int, int, int), end: (int, int, int))
    requires
        is_valid_date(start.0, start.1, start.2),
        is_valid_date(end.0, end.1, end.2),
        i16::MIN <= start.0 <= i16::MAX,
        i16::MIN < end.0 < i16::MAX,
        i16::MIN <= end.0 - start.0 <= i16::MAX,
        start.2 <= 28,
    ensures
        date_of_epoch_days(
            spec_epoch_days(
                spec_add_months(start, spec_between_dates(start, end).0).0,
                spec_add_months(start, spec_between_dates(start, end).0).1,
                spec_add_months(start, spec_between_dates(start, end).0).2,
            ) + spec_between_dates(start, end).1,
        ) == end,
{
    crate::gregorian::lemma_epoch_days_roundtrip(end.0, end.1, end.2);
    if start == end {
        crate::gregorian::lemma_epoch_days_roundtrip(start.0, start.1, start.2);
        assert(spec_add_months(start, 0) == start);
    } else {
        if start.0 < end.0 {
            crate::gregorian::lemma_epoch_days_year_order(start.0, start.1, start.2, end.0, end.1, end.2);
        } else if end.0 < start.0 {
            crate::gregorian::lemma_epoch_days_year_order(end.0, end.1, end.2, start.0, start.1, start.2);
        }
        let years = spec_years_between(start, end);
        assert(i16::MIN <= start.0 + years <= i16::MAX);
        let ay = spec_add_years(start, years);
        let months = spec_months_between(ay, end);
        lemma_add_years_then_months(start, years, months);
    }
}

fn years_between(start: &Date, end: &Date) -> (r: i16)
    requires
        i16::MIN <= end@.0 - start@.0 <= i16::MAX,
    ensures
        r == spec_years_between(start@, end@),
        i16::MIN <= start@.0 + r <= i16::MAX,
{
    proof {
        use_type_invariant(start);
        use_type_invariant(end);
        if start@.0 < end@.0 {
            crate::gregorian::lemma_epoch_days_year_order(start@.0, start@.1, start@.2, end@.0, end@.1, end@.2);
        } else if end@.0 < start@.0 {
            crate::gregorian::lemma_epoch_days_year_order(end@.0, end@.1, end@.2, start@.0, start@.1, start@.2);
        }
    }
    let diff: i16 = end.year() - start.year();
    let location = start.add_years(diff);
    if start.is_on_or_before(end) {
        if location.is_on_or_before(end) {
            diff
        } else {
            diff - 1
        }
    } else {
        if end.is_on_or_before(&location) {
            diff
        } else {
            diff + 1
        }
    }
}

fn months_between(start: &Date, end: &Date) -> (r: i32)
    ensures
        r == spec_months_between(start@, end@),
        -1_000_000 <= r <= 1_000_000,
{
    proof {
        use_type_invariant(start);
        use_type_invariant(end);
    }
    let diff: i32 = (end.year() as i32 - start.year() as i32) * 12 + end.month() as i32 - start.month() as i32;
    let location = start.add_months(diff);
    if start.is_on_or_before(end) {
        if location.is_on_or_before(end) {
            diff
        } else {
            diff - 1
        }
    } else {
        if end.is_on_or_before(&location) {
            diff
        } else {
            diff + 1
        }
    }
}

impl Interval {
    /// Constructs an [`Interval`] between two dates: whole years, then whole months,
    /// then days.
    ///
    /// If `end` is before `start` then each property will be negative.
    pub fn between_dates(start: &Date, end: &Date) -> (r: Interval)
        requires
            i16::MIN <= end@.0 - start@.0 <= i16::MAX,
        ensures
            r@ == spec_between_dates(start@, end@),
            r.written() == normalized_units(
                spec_between_dates(start@, end@).0,
                spec_between_dates(start@, end@).1,
                spec_between_dates(start@, end@).2,
            ),
    {
        proof {
            use_type_invariant(start);
            use_type_invariant(end);
        }
        if start == end {
            return Interval::zero();
        }
        let years = years_between(start, end);
        let result = start.add_years(years);
        let months = months_between(&result, end);
        let result = result.add_months(months);
        let days = end.days_since_epoch() - result.days_since_epoch();
        Interval::from_parts(years as i32 * 12 + months, days, 0)
    }
}

/// The signed nanoseconds by which the time part of an interval moves a time: its
/// duration counted as an `i64` (see [`Interval::get_time_duration`]).
pub open spec fn spec_interval_nanos(microseconds: int) -> int {
    let q = microseconds / (MICROS_PER_SEC as int);
    let nanos = (microseconds % (MICROS_PER_SEC as int)) * 1000;
    if q < 0 {
        -crate::time::duration_nanos_i64(-q, nanos)
    } else {
        crate::time::duration_nanos_i64(q, nanos)
    }
}

/// The date reached by moving a date by whole months and then by days.
pub open spec fn spec_date_add(date: (int, int, int), months: int, days: int) -> (int, int, int) {
    let moved = spec_add_months(date, months);
    date_of_epoch_days(spec_epoch_days(moved.0, moved.1, moved.2) + days)
}

/// The negation of an `i32` that wraps around at `i32::MIN`.
pub open spec fn wrapping_neg_i32(v: int) -> int {
    if v == i32::MIN { v } else { -v }
}

fn wrapping_neg(v: i32) -> (r: i32)
    ensures
        r == wrapping_neg_i32(v as int),
{
    if v == i32::MIN { v } else { -v }
}

impl Date {
    /// Adds the months and then the days of an interval to the date; the time part
    /// of the interval is ignored.
    pub fn add_interval(&self, rhs: Interval) -> (r: Date)
        requires
            i32::MIN < self@.1 - 1 + rhs@.0 <= i32::MAX,
            MIN_EPOCH_DAYS <= ({
                let m = spec_add_months(self@, rhs@.0);
                spec_epoch_days(m.0, m.1, m.2)
            }) + rhs@.1 <= MAX_EPOCH_DAYS,
        ensures
            r@ == spec_date_add(self@, rhs@.0, rhs@.1),
    {
        let moved = self.add_months(rhs.total_months());
        moved.add_days(rhs.days())
    }

    /// Subtracts the months and then the days of an interval from the date; the time
    /// part of the interval is ignored.
    pub fn sub_interval(&self, rhs: Interval) -> (r: Date)
        requires
            i32::MIN < self@.1 - 1 + wrapping_neg_i32(rhs@.0) <= i32::MAX,
            MIN_EPOCH_DAYS <= ({
                let m = spec_add_months(self@, wrapping_neg_i32(rhs@.0));
                spec_epoch_days(m.0, m.1, m.2)
            }) + wrapping_neg_i32(rhs@.1) <= MAX_EPOCH_DAYS,
        ensures
            r@ == spec_date_add(self@, wrapping_neg_i32(rhs@.0), wrapping_neg_i32(rhs@.1)),
    {
        let moved = self.add_months(wrapping_neg(rhs.total_months()));
        moved.add_days(wrapping_neg(rhs.days()))
    }

    /// The interval from `rhs` to this date.
    pub fn sub_date(self, rhs: Date) -> (r: Interval)
        requires
            i16::MIN <= self@.0 - rhs@.0 <= i16::MAX,
        ensures
            r@ == spec_between_dates(rhs@, self@),
    {
        Interval::between_dates(&rhs, &self)
    }
}

impl Time {
    /// Adds the time part of an interval to the time, wrapping around midnight.
    pub fn add_interval(self, rhs: Interval) -> (r: Time)
        requires
            i64::MIN <= self.spec_total_nanos() + spec_interval_nanos(rhs@.2) <= i64::MAX,
        ensures
            r@ == crate::time::time_of_nanos(
                (self.spec_total_nanos() + spec_interval_nanos(rhs@.2)) % (crate::time::NANOS_PER_DAY as int),
            ),
    {
        let (sub, secs, nanos) = rhs.get_time_duration();
        let (_, ret) = if sub {
            self.sub_with_duration(secs, nanos)
        } else {
            self.add_with_duration(secs, nanos)
        };
        ret
    }

    /// Subtracts the time part of an interval from the time, wrapping around midnight.
    pub fn sub_interval(self, rhs: Interval) -> (r: Time)
        requires
            i64::MIN <= self.spec_total_nanos() - spec_interval_nanos(rhs@.2) <= i64::MAX,
        ensures
            r@ == crate::time::time_of_nanos(
                (self.spec_total_nanos() - spec_interval_nanos(rhs@.2)) % (crate::time::NANOS_PER_DAY as int),
            ),
    {
        let (sub, secs, nanos) = rhs.get_time_duration();
        let (_, ret) = if sub {
            self.add_with_duration(secs, nanos)
        } else {
            self.sub_with_duration(secs, nanos)
        };
        ret
    }

    /// The interval from `rhs` to this time.
    pub fn sub_time(self, rhs: Time) -> (r: Interval)
        ensures
            r@ == (0int, 0int, self.spec_total_nanos() / 1000 - rhs.spec_total_nanos() / 1000),
    {
        Interval::between_times(&rhs, &self)
    }
}

/// Clamps an integer into the range of `i64`.
pub open spec fn clamp_i64(v: int) -> int {
    if v > i64::MAX {
        i64::MAX as int
    } else if v < i64::MIN {
        i64::MIN as int
    } else {
        v
    }
}

impl core::ops::Add for Interval {
    type Output = Interval;

    fn add(self, rhs: Interval) -> (r: Interval) {
        Interval {
            years: self.years + rhs.years,
            months: self.months + rhs.months,
            days: self.days + rhs.days,
            hours: self.hours + rhs.hours,
            minutes: self.minutes + rhs.minutes,
            microseconds: self.microseconds + rhs.microseconds,
        }
    }
}

impl vstd::std_specs::ops::AddSpecImpl for Interval {
    open spec fn obeys_add_spec() -> bool {
        true
    }

    open spec fn add_req(self, rhs: Interval) -> bool {
        units_fit(units_add(self.written(), rhs.written()))
    }

    open spec fn add_spec(self, rhs: Interval) -> Interval {
        interval_of_units(units_add(self.written(), rhs.written()))
    }
}

} // verus!
