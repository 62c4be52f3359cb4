//! Dates combined with a time of day at a fixed offset from UTC.
use vstd::prelude::*;

use crate::date::{spec_add_months, Date, Weekday};
use crate::error::Error;
use crate::gregorian::{
    clamp_i16, date_from_epoch_days, date_of_epoch_days, spec_epoch_days, MAX_EPOCH_DAYS, MIN_EPOCH_DAYS,
};
use crate::interval::{spec_date_add, spec_interval_nanos, wrapping_neg_i32, Interval};
use crate::display::{duration_as_secs, duration_nanos, duration_secs, duration_subsec_nanos};
use crate::time::{
    duration_nanos_i64, nanos_minus_duration, nanos_plus_duration, time_of_nanos, Time, MAXIMUM_SECONDS_FROM_DURATION, NANOS_PER_DAY,
    NANOS_PER_HOUR,
};
use crate::timezone::UtcOffset;
use crate::utils::{divmod_i64, divrem_i64, trunc_div, trunc_rem};

verus! {

/// An ISO 8601 combined date and time at a fixed offset from UTC.
///
/// The date and time are local to the offset. Two date times are equal when they
/// name the same instant, whatever their offsets.
#[derive(Debug, Clone, Copy)]
pub struct DateTime {
    date: Date,
    time: Time,
    offset: UtcOffset,
}

impl View for DateTime {
    type V = (Date, Time, UtcOffset);

    closed spec fn view(&self) -> (Date, Time, UtcOffset) {
        (self.date, self.time, self.offset)
    }
}

impl DateTime {
    /// Two values with the same view are the same value.
    pub proof fn lemma_view_eq(a: DateTime, b: DateTime)
        requires
            a@ == b@,
        ensures
            a == b,
    {
    }
}

/// The local date reached from a date time by moving its wall clock by `nanos`
/// nanoseconds, and the new wall clock time.
pub open spec fn spec_shift_wall_clock(date: Date, time: Time, nanos: int) -> ((int, int, int), (int, int, int, int)) {
    let n = time.spec_total_nanos() + nanos;
    (
        date_of_epoch_days(date.spec_days_since_epoch() + n / (NANOS_PER_DAY as int)),
        time_of_nanos(n % (NANOS_PER_DAY as int)),
    )
}

/// The whole seconds from 1970-01-01T00:00:00 UTC to the instant named by a local
/// date and time of day at an offset of `offset` seconds from UTC.
pub open spec fn spec_instant_seconds(date: (int, int, int), time: (int, int, int, int), offset: int) -> int {
    spec_epoch_days(date.0, date.1, date.2) * 86400 + time.0 * 3600 + time.1 * 60 + time.2 - offset
}

/// Orders two instants given as UTC seconds and nanoseconds: `-1`, `0` or `1`.
pub open spec fn spec_compare_parts(secs1: int, nanos1: int, secs2: int, nanos2: int) -> int {
    if secs1 < secs2 {
        -1
    } else if secs1 > secs2 {
        1
    } else if nanos1 < nanos2 {
        -1
    } else if nanos1 > nanos2 {
        1
    } else {
        0
    }
}

/// Orders the instants of two date times by their UTC seconds and then their
/// nanoseconds: `-1`, `0` or `1`.
pub open spec fn spec_compare_instants(a: DateTime, b: DateTime) -> int {
    spec_compare_parts(a.spec_utc_seconds(), a@.1@.3, b.spec_utc_seconds(), b@.1@.3)
}

/// The days and microseconds from an instant to another, both taking the sign of
/// the difference, with the months left at zero.
pub open spec fn spec_days_between(secs1: int, nanos1: int, secs2: int, nanos2: int) -> (int, int, int) {
    let delta = secs2 - secs1;
    (0, trunc_div(delta, 86400), trunc_rem(delta, 86400) * 1_000_000 + (nanos2 / 1000 - nanos1 / 1000))
}

/// The interval from `start` to `end`: whole months first, counted on the calendar
/// of `start`'s offset and never overshooting `end`, then days, then microseconds.
pub open spec fn spec_between(start: DateTime, end: DateTime) -> (int, int, int) {
    let c = spec_compare_instants(start, end);
    let soff = start@.2.spec_total_seconds();
    let local = date_of_epoch_days((end.spec_utc_seconds() + soff) / 86400);
    let m0 = (clamp_i16(local.0) - start@.0@.0) * 12 + local.1 - start@.0@.1;
    if c == 0 {
        (0, 0, 0)
    } else if m0 == 0 {
        spec_days_between(start.spec_utc_seconds(), start@.1@.3, end.spec_utc_seconds(), end@.1@.3)
    } else {
        let c0 = spec_compare_parts(
            spec_instant_seconds(spec_add_months(start@.0@, m0), start@.1@, soff),
            start@.1@.3,
            end.spec_utc_seconds(),
            end@.1@.3,
        );
        let m = if c == 1 && c0 == -1 {
            m0 + 1
        } else if c == -1 && c0 == 1 {
            m0 - 1
        } else {
            m0
        };
        let d = spec_days_between(
            spec_instant_seconds(spec_add_months(start@.0@, m), start@.1@, soff),
            start@.1@.3,
            end.spec_utc_seconds(),
            end@.1@.3,
        );
        (m, d.1, d.2)
    }
}

impl PartialEq for DateTime {
    fn eq(&self, other: &DateTime) -> (r: bool) {
        self.compare_instants(other) == 0
    }
}

impl vstd::std_specs::cmp::PartialEqSpecImpl for DateTime {
    open spec fn obeys_eq_spec() -> bool {
        true
    }

    open spec fn eq_spec(&self, other: &DateTime) -> bool {
        spec_compare_instants(*self, *other) == 0
    }
}

impl Eq for DateTime {

}

impl PartialOrd for DateTime {
    fn partial_cmp(&self, other: &DateTime) -> (r: Option<core::cmp::Ordering>) {
        Some(self.cmp_cross_timezone(other))
    }
}

impl vstd::std_specs::cmp::PartialOrdSpecImpl for DateTime {
    open spec fn obeys_partial_cmp_spec() -> bool {
        true
    }

    open spec fn partial_cmp_spec(&self, other: &DateTime) -> Option<core::cmp::Ordering> {
        let c = spec_compare_instants(*self, *other);
        if c < 0 {
            Some(core::cmp::Ordering::Less)
        } else if c > 0 {
            Some(core::cmp::Ordering::Greater)
        } else {
            Some(core::cmp::Ordering::Equal)
        }
    }
}

impl DateTime {
    /// The whole seconds from 1970-01-01T00:00:00 UTC to the instant this date time names.
    pub open spec fn spec_utc_seconds(&self) -> int {
        spec_instant_seconds(self@.0@, self@.1@, self@.2.spec_total_seconds())
    }

    /// Combines a date, a time and the offset they are local to.
    pub fn from_components(date: Date, time: Time, offset: UtcOffset) -> (r: DateTime)
        ensures
            r@ == (date, time, offset),
    {
        DateTime { date, time, offset }
    }

    /// Represents a [`DateTime`] at the unix epoch (January 1st, 1970 00:00:00 UTC).
    pub fn unix_epoch() -> (r: DateTime)
        ensures
            r@.0@ == (1970int, 1int, 1int),
            r@.1@ == (0int, 0int, 0int, 0int),
            r@.2@ == (0int, 0int, 0int),
    {
        DateTime { date: Date::unix_epoch(), time: Time::midnight(), offset: UtcOffset::utc() }
    }

    /// Creates a new [`DateTime`] in UTC from a given year, month, and day with the time
    /// set to midnight.
    ///
    /// Returns [`Error`] if the date is out of range. See [`Date::new`] for more info.
    pub fn new(year: i16, month: u8, day: u8) -> (r: Result<DateTime, Error>)
        ensures
            r is Ok <==> crate::gregorian::is_valid_date(year as int, month as int, day as int),
            r matches Ok(dt) ==> dt@.0@ == (year as int, month as int, day as int) && dt@.1@ == (
                0int,
                0int,
                0int,
                0int,
            ) && dt@.2@ == (0int, 0int, 0int),
            r matches Err(e) ==> e == Error::OutOfRange,
    {
        let date = Date::new(year, month, day)?;
        Ok(DateTime { date, time: Time::midnight(), offset: UtcOffset::utc() })
    }

    /// Creates a [`DateTime`] in UTC from the given year and ordinal date. The time is
    /// set to midnight.
    pub fn from_ordinal(year: i16, ordinal: u16) -> (r: Result<DateTime, Error>)
        ensures
            r is Ok <==> 1 <= ordinal <= if crate::gregorian::spec_is_leap_year(year as int) {
                366int
            } else {
                365int
            },
            r matches Ok(dt) ==> dt@.0@.0 == year && crate::gregorian::spec_days_before_month(
                year as int,
                dt@.0@.1,
            ) + dt@.0@.2 == ordinal && dt@.1@ == (0int, 0int, 0int, 0int) && dt@.2@ == (0int, 0int, 0int),
            r matches Err(e) ==> e == Error::OutOfRange,
    {
        let date = Date::from_ordinal(year, ordinal)?;
        Ok(DateTime { date, time: Time::midnight(), offset: UtcOffset::utc() })
    }

    /// Returns the UNIX timestamp of the instant: its whole seconds since
    /// 1970-01-01 00:00:00 UTC and its nanoseconds.
    pub fn timestamp(&self) -> (r: crate::timestamp::Timestamp)
        ensures
            r@ == (self.spec_utc_seconds(), self@.1@.3),
    {
        crate::timestamp::Timestamp::new(self.utc_seconds(), self.time.nanosecond())
    }

    /// The UTC seconds of the instant, as an `i64`.
    fn utc_seconds(&self) -> (r: i64)
        ensures
            r == self.spec_utc_seconds(),
            (MIN_EPOCH_DAYS - 2) * 86400 <= r <= (MAX_EPOCH_DAYS + 2) * 86400,
    {
        proof {
            use_type_invariant(&self.time);
            use_type_invariant(&self.offset);
        }
        self.date.days_since_epoch() as i64 * 86400 + self.time.total_seconds() as i64
            - self.offset.total_seconds() as i64
    }

    /// Compares the instants that two date times name, whatever their offsets:
    /// `-1`, `0` or `1` when `self` is before, at or after `other`.
    pub fn compare_instants(&self, other: &DateTime) -> (r: i8)
        ensures
            r == spec_compare_instants(*self, *other),
    {
        let a = self.utc_seconds();
        let b = other.utc_seconds();
        if a < b {
            -1
        } else if a > b {
            1
        } else if self.time.nanosecond() < other.time.nanosecond() {
            -1
        } else if self.time.nanosecond() > other.time.nanosecond() {
            1
        } else {
            0
        }
    }

    /// Compares the instants that two date times name, whatever their offsets.
    pub fn cmp_cross_timezone(&self, other: &DateTime) -> (r: core::cmp::Ordering)
        ensures
            (r == core::cmp::Ordering::Less) == (spec_compare_instants(*self, *other) == -1),
            (r == core::cmp::Ordering::Equal) == (spec_compare_instants(*self, *other) == 0),
            (r == core::cmp::Ordering::Greater) == (spec_compare_instants(*self, *other) == 1),
    {
        let c = self.compare_instants(other);
        if c < 0 {
            core::cmp::Ordering::Less
        } else if c > 0 {
            core::cmp::Ordering::Greater
        } else {
            core::cmp::Ordering::Equal
        }
    }

    /// Moves the wall clock of the date time by the seconds of `offset`, keeping the
    /// offset the date time is local to.
    pub fn shift(&mut self, offset: UtcOffset)
        requires
            MIN_EPOCH_DAYS <= old(self)@.0.spec_days_since_epoch() + (old(self)@.1.spec_total_nanos()
                + offset.spec_total_seconds() * 1_000_000_000) / (NANOS_PER_DAY as int) <= MAX_EPOCH_DAYS,
        ensures
            (final(self)@.0@, final(self)@.1@) == spec_shift_wall_clock(
                old(self)@.0,
                old(self)@.1,
                offset.spec_total_seconds() * 1_000_000_000,
            ),
            final(self)@.2 == old(self)@.2,
    {
        let nanos: i64 = self.time.total_nanos() as i64 + offset.total_seconds() as i64 * 1_000_000_000;
        let (days, time) = Time::adjust_from_nanos(nanos);
        self.date = self.date.add_days(days);
        self.time = time;
    }

    /// Moves the wall clock of the date time by up to an hour's worth of nanoseconds,
    /// keeping the offset the date time is local to.
    pub(crate) fn shift_nanos(&mut self, nanos: i64)
        requires
            -(NANOS_PER_HOUR as int) <= nanos <= NANOS_PER_HOUR,
            MIN_EPOCH_DAYS + 1 <= old(self)@.0.spec_days_since_epoch() <= MAX_EPOCH_DAYS - 1,
        ensures
            (final(self)@.0@, final(self)@.1@) == spec_shift_wall_clock(old(self)@.0, old(self)@.1, nanos as int),
            final(self)@.2 == old(self)@.2,
    {
        proof {
            use_type_invariant(&self.time);
        }
        self.date.in_range();
        let total: i64 = self.time.total_nanos() as i64 + nanos;
        let (days, time) = Time::adjust_from_nanos(total);
        proof {
            assert(-(NANOS_PER_DAY as int) <= total < 2 * (NANOS_PER_DAY as int));
            assert(-1 <= days <= 1);
        }
        self.date = self.date.add_days(days);
        self.time = time;
    }

    /// Returns the date time with its date moved by `months` months, clamping the day
    /// to the last day of the target month.
    pub fn add_months(self, months: i32) -> (r: DateTime)
        requires
            i32::MIN < self@.0@.1 - 1 + months <= i32::MAX,
        ensures
            r@.0@ == spec_add_months(self@.0@, months as int),
            r@.1 == self@.1,
            r@.2 == self@.2,
    {
        DateTime { date: self.date.add_months(months), ..self }
    }

    /// Adds an interval: its months and days move the date, and its time part moves
    /// the wall clock, carrying whole days into the date.
    pub fn add_interval(self, rhs: Interval) -> (r: DateTime)
        requires
            i64::MIN <= self@.1.spec_total_nanos() + spec_interval_nanos(rhs@.2) <= i64::MAX,
            i32::MIN < self@.0@.1 - 1 + rhs@.0 <= i32::MAX,
            i32::MIN <= rhs@.1 + (self@.1.spec_total_nanos() + spec_interval_nanos(rhs@.2)) / (
            NANOS_PER_DAY as int) <= i32::MAX,
            MIN_EPOCH_DAYS <= ({
                let m = spec_add_months(self@.0@, rhs@.0);
                spec_epoch_days(m.0, m.1, m.2)
            }) + rhs@.1 + (self@.1.spec_total_nanos() + spec_interval_nanos(rhs@.2)) / (
            NANOS_PER_DAY as int) <= MAX_EPOCH_DAYS,
        ensures
            ({
                let n = self@.1.spec_total_nanos() + spec_interval_nanos(rhs@.2);
                &&& r@.0@ == spec_date_add(self@.0@, rhs@.0, rhs@.1 + n / (NANOS_PER_DAY as int))
                &&& r@.1@ == time_of_nanos(n % (NANOS_PER_DAY as int))
            }),
            r@.2 == self@.2,
    {
        let (sub, secs, nanos) = rhs.get_time_duration();
        let (days, time) = if sub {
            self.time.sub_with_duration(secs, nanos)
        } else {
            self.time.add_with_duration(secs, nanos)
        };
        let moved = self.date.add_months(rhs.total_months());
        let date = moved.add_days(rhs.days() + days);
        DateTime { date, time, offset: self.offset }
    }

    /// Subtracts an interval: its months and days move the date back, and its time part
    /// moves the wall clock back, carrying whole days into the date.
    pub fn sub_interval(self, rhs: Interval) -> (r: DateTime)
        requires
            i64::MIN <= self@.1.spec_total_nanos() - spec_interval_nanos(rhs@.2) <= i64::MAX,
            i32::MIN < self@.0@.1 - 1 + wrapping_neg_i32(rhs@.0) <= i32::MAX,
            i32::MIN <= wrapping_neg_i32(rhs@.1) + (self@.1.spec_total_nanos() - spec_interval_nanos(rhs@.2))
                / (NANOS_PER_DAY as int) <= i32::MAX,
            MIN_EPOCH_DAYS <= ({
                let m = spec_add_months(self@.0@, wrapping_neg_i32(rhs@.0));
                spec_epoch_days(m.0, m.1, m.2)
            }) + wrapping_neg_i32(rhs@.1) + (self@.1.spec_total_nanos() - spec_interval_nanos(rhs@.2)) / (
            NANOS_PER_DAY as int) <= MAX_EPOCH_DAYS,
        ensures
            ({
                let n = self@.1.spec_total_nanos() - spec_interval_nanos(rhs@.2);
                &&& r@.0@ == spec_date_add(
                    self@.0@,
                    wrapping_neg_i32(rhs@.0),
                    wrapping_neg_i32(rhs@.1) + n / (NANOS_PER_DAY as int),
                )
                &&& r@.1@ == time_of_nanos(n % (NANOS_PER_DAY as int))
            }),
            r@.2 == self@.2,
    {
        let (sub, secs, nanos) = rhs.get_time_duration();
        let (days, time) = if sub {
            self.time.add_with_duration(secs, nanos)
        } else {
            self.time.sub_with_duration(secs, nanos)
        };
        let neg_months: i32 = if rhs.total_months() == i32::MIN {
            i32::MIN
        } else {
            -rhs.total_months()
        };
        let neg_days: i32 = if rhs.days() == i32::MIN {
            i32::MIN
        } else {
            -rhs.days()
        };
        let moved = self.date.add_months(neg_months);
        let date = moved.add_days(neg_days + days);
        DateTime { date, time, offset: self.offset }
    }

    /// Returns a reference to the time component.
    pub fn time(&self) -> (r: &Time)
        ensures
            *r == self@.1,
    {
        &self.time
    }

    /// Returns a reference to the date component.
    pub fn date(&self) -> (r: &Date)
        ensures
            *r == self@.0,
    {
        &self.date
    }

    /// Returns a reference to the offset from UTC that the date and time are local to.
    pub fn timezone(&self) -> (r: &UtcOffset)
        ensures
            *r == self@.2,
    {
        &self.offset
    }

    /// Returns a mutable reference to the time component.
    pub fn time_mut(&mut self) -> (r: &mut Time)
        ensures
            *r == old(self)@.1,
            final(self)@ == (old(self)@.0, *final(r), old(self)@.2),
    {
        &mut self.time
    }

    /// Returns a mutable reference to the date component.
    pub fn date_mut(&mut self) -> (r: &mut Date)
        ensures
            *r == old(self)@.0,
            final(self)@ == (*final(r), old(self)@.1, old(self)@.2),
    {
        &mut self.date
    }

    /// Returns a mutable reference to the offset from UTC.
    ///
    /// Changing it does not convert the date and time.
    pub fn timezone_mut(&mut self) -> (r: &mut UtcOffset)
        ensures
            *r == old(self)@.2,
            final(self)@ == (old(self)@.0, old(self)@.1, *final(r)),
    {
        &mut self.offset
    }

    /// Returns a new [`DateTime`] with the newly specified [`Time`].
    ///
    /// This does not do timezone conversion.
    pub fn with_time(self, time: Time) -> (r: DateTime)
        ensures
            r@ == (self@.0, time, self@.2),
    {
        DateTime { time, ..self }
    }

    /// Returns a new [`DateTime`] with the newly specified [`Date`].
    pub fn with_date(self, date: Date) -> (r: DateTime)
        ensures
            r@ == (date, self@.1, self@.2),
    {
        DateTime { date, ..self }
    }

    /// Returns a new [`DateTime`] with the same date and time at another offset.
    ///
    /// This does not do timezone conversion.
    pub fn with_timezone(self, offset: UtcOffset) -> (r: DateTime)
        ensures
            r@ == (self@.0, self@.1, offset),
    {
        DateTime { offset, ..self }
    }

    /// Returns the year.
    pub fn year(&self) -> (r: i16)
        ensures
            r == self@.0@.0,
    {
        self.date.year()
    }

    /// Returns the month. This value will always be within `1..=12`.
    pub fn month(&self) -> (r: u8)
        ensures
            r == self@.0@.1,
    {
        self.date.month()
    }

    /// Returns the day. This value will always be within `1..=31`.
    pub fn day(&self) -> (r: u8)
        ensures
            r == self@.0@.2,
    {
        self.date.day()
    }

    /// Returns the ISO ordinal date.
    pub fn ordinal(&self) -> (r: u16)
        ensures
            r == crate::gregorian::spec_days_before_month(self@.0@.0, self@.0@.1) + self@.0@.2,
    {
        self.date.ordinal()
    }

    /// Returns the weekday.
    pub fn weekday(&self) -> (r: Weekday)
        ensures
            r.spec_days_from_sunday() == crate::gregorian::spec_weekday_from_days(
                self@.0.spec_days_since_epoch(),
            ),
    {
        self.date.weekday()
    }

    /// Returns a new [`DateTime`] with the date pointing to the given year.
    ///
    /// A day that does not exist in that year becomes the last day of its month.
    pub fn with_year(self, year: i16) -> (r: DateTime)
        ensures
            r@.0@ == crate::date::spec_add_years(self@.0@, year - self@.0@.0),
            r@.1 == self@.1 && r@.2 == self@.2,
    {
        DateTime { date: self.date.with_year(year), ..self }
    }

    /// Returns a new [`DateTime`] that points to the given month.
    /// If the month is out of bounds (`1..=12`) or if the month
    /// does not have as many days as is currently specified then
    /// an [`Error`] is returned.
    pub fn with_month(self, month: u8) -> (r: Result<DateTime, Error>)
        ensures
            r is Ok <==> crate::gregorian::is_valid_date(self@.0@.0, month as int, self@.0@.2),
            r matches Ok(dt) ==> dt@.0@ == (self@.0@.0, month as int, self@.0@.2) && dt@.1 == self@.1
                && dt@.2 == self@.2,
            r matches Err(e) ==> e == Error::OutOfRange,
    {
        let date = self.date.with_month(month)?;
        Ok(DateTime { date, ..self })
    }

    /// Returns a new [`DateTime`] that points to the given day.
    /// If the day does not exist in the month then an [`Error`] is returned.
    pub fn with_day(self, day: u8) -> (r: Result<DateTime, Error>)
        ensures
            r is Ok <==> crate::gregorian::is_valid_date(self@.0@.0, self@.0@.1, day as int),
            r matches Ok(dt) ==> dt@.0@ == (self@.0@.0, self@.0@.1, day as int) && dt@.1 == self@.1
                && dt@.2 == self@.2,
            r matches Err(e) ==> e == Error::OutOfRange,
    {
        let date = self.date.with_day(day)?;
        Ok(DateTime { date, ..self })
    }

    /// Returns the hour. This value will always be within `0..24`.
    pub fn hour(&self) -> (r: u8)
        ensures
            r == self@.1@.0,
    {
        self.time.hour()
    }

    /// Returns the minute within the hour. This value will always be within `0..60`.
    pub fn minute(&self) -> (r: u8)
        ensures
            r == self@.1@.1,
    {
        self.time.minute()
    }

    /// Returns the second within the minute. This value will always be within `0..60`.
    pub fn second(&self) -> (r: u8)
        ensures
            r == self@.1@.2,
    {
        self.time.second()
    }

    /// Returns the millisecond within the second.
    pub fn millisecond(&self) -> (r: u16)
        ensures
            r == self@.1@.3 / 1_000_000,
    {
        self.time.millisecond()
    }

    /// Returns the microsecond within the second.
    pub fn microsecond(&self) -> (r: u32)
        ensures
            r == self@.1@.3 / 1_000,
    {
        self.time.microsecond()
    }

    /// Returns the nanosecond within the second.
    pub fn nanosecond(&self) -> (r: u32)
        ensures
            r == self@.1@.3,
    {
        self.time.nanosecond()
    }

    /// Returns a new [`DateTime`] that points to the given hour.
    /// If the hour is out of bounds (`0..24`) then [`Error`] is returned.
    ///
    /// This does not do timezone conversion.
    pub fn with_hour(self, hour: u8) -> (r: Result<DateTime, Error>)
        ensures
            r is Ok <==> hour < 24,
            r matches Ok(dt) ==> dt@.1@ == (hour as int, self@.1@.1, self@.1@.2, self@.1@.3) && dt@.0
                == self@.0 && dt@.2 == self@.2,
            r matches Err(e) ==> e == Error::OutOfRange,
    {
        let time = self.time.with_hour(hour)?;
        Ok(DateTime { time, ..self })
    }

    /// Returns a new [`DateTime`] that points to the given minute.
    /// If the minute is out of bounds (`0..60`) then [`Error`] is returned.
    ///
    /// This does not do timezone conversion.
    pub fn with_minute(self, minute: u8) -> (r: Result<DateTime, Error>)
        ensures
            r is Ok <==> minute < 60,
            r matches Ok(dt) ==> dt@.1@ == (self@.1@.0, minute as int, self@.1@.2, self@.1@.3) && dt@.0
                == self@.0 && dt@.2 == self@.2,
            r matches Err(e) ==> e == Error::OutOfRange,
    {
        let time = self.time.with_minute(minute)?;
        Ok(DateTime { time, ..self })
    }

    /// Returns a new [`DateTime`] that points to the given second.
    /// If the second is out of bounds (`0..60`) then [`Error`] is returned.
    ///
    /// This does not do timezone conversion.
    pub fn with_second(self, second: u8) -> (r: Result<DateTime, Error>)
        ensures
            r is Ok <==> second < 60,
            r matches Ok(dt) ==> dt@.1@ == (self@.1@.0, self@.1@.1, second as int, self@.1@.3) && dt@.0
                == self@.0 && dt@.2 == self@.2,
            r matches Err(e) ==> e == Error::OutOfRange,
    {
        let time = self.time.with_second(second)?;
        Ok(DateTime { time, ..self })
    }

    /// Returns a new [`DateTime`] that points to the given millisecond.
    /// If the millisecond is out of bounds (`0..1000`) then [`Error`] is returned.
    ///
    /// This does not do timezone conversion.
    pub fn with_millisecond(self, millisecond: u16) -> (r: Result<DateTime, Error>)
        ensures
            r is Ok <==> millisecond < 1000,
            r matches Ok(dt) ==> dt@.1@ == (self@.1@.0, self@.1@.1, self@.1@.2, millisecond * 1_000_000)
                && dt@.0 == self@.0 && dt@.2 == self@.2,
            r matches Err(e) ==> e == Error::OutOfRange,
    {
        let time = self.time.with_millisecond(millisecond)?;
        Ok(DateTime { time, ..self })
    }

    /// Returns a new [`DateTime`] that points to the given microsecond.
    /// If the microsecond is out of bounds (`0..1_000_000`) then [`Error`] is returned.
    ///
    /// This does not do timezone conversion.
    pub fn with_microsecond(self, microsecond: u32) -> (r: Result<DateTime, Error>)
        ensures
            r is Ok <==> microsecond < 1_000_000,
            r matches Ok(dt) ==> dt@.1@ == (self@.1@.0, self@.1@.1, self@.1@.2, microsecond * 1_000)
                && dt@.0 == self@.0 && dt@.2 == self@.2,
            r matches Err(e) ==> e == Error::OutOfRange,
    {
        let time = self.time.with_microsecond(microsecond)?;
        Ok(DateTime { time, ..self })
    }

    /// Returns a new [`DateTime`] that points to the given nanosecond.
    /// If the nanosecond is out of bounds (`0..2_000_000_000`) then [`Error`] is returned.
    ///
    /// This does not do timezone conversion.
    pub fn with_nanosecond(self, nanosecond: u32) -> (r: Result<DateTime, Error>)
        ensures
            r is Ok <==> nanosecond <= 1_999_999_999,
            r matches Ok(dt) ==> dt@.1@ == (self@.1@.0, self@.1@.1, self@.1@.2, nanosecond as int) && dt@.0
                == self@.0 && dt@.2 == self@.2,
            r matches Err(e) ==> e == Error::OutOfRange,
    {
        let time = self.time.with_nanosecond(nanosecond)?;
        Ok(DateTime { time, ..self })
    }
}

impl Interval {
    /// Constructs an [`Interval`] between two date times.
    ///
    /// If `end` is before `start` then each property will be negative. The months are
    /// counted on the calendar of `start`'s offset, and never carry past `end`.
    pub fn between(start: &DateTime, end: &DateTime) -> (r: Interval)
        ensures
            r@ == spec_between(*start, *end),
    {
        let c = start.compare_instants(end);
        if c == 0 {
            return Interval::zero();
        }
        let soff = start.offset.total_seconds();
        let end_secs = end.utc_seconds();
        let (local_day, _) = divmod_i64(end_secs + soff as i64, 86400);
        let (local_year, local_month, _) = date_from_epoch_days(local_day as i32);
        let mut months: i32 = (local_year as i32 - start.year() as i32) * 12 + local_month as i32
            - start.month() as i32;
        if months != 0 {
            let mut moved = start.add_months(months);
            let mc = moved.compare_instants(end);
            if c > 0 && mc < 0 {
                months = months + 1;
                moved = start.add_months(months);
            } else if c < 0 && mc > 0 {
                months = months - 1;
                moved = start.add_months(months);
            }
            let delta = Interval::days_between(&moved, end);
            Interval::from_parts(months, delta.days(), delta.total_microseconds())
        } else {
            Interval::days_between(start, end)
        }
    }

    /// Returns the days and microseconds between two date times, with no months.
    fn days_between(start: &DateTime, end: &DateTime) -> (r: Interval)
        ensures
            r@ == spec_days_between(start.spec_utc_seconds(), start@.1@.3, end.spec_utc_seconds(), end@.1@.3),
    {
        let delta: i64 = end.utc_seconds() - start.utc_seconds();
        let (days, rem) = divrem_i64(delta, 86400);
        proof {
            let d = delta as int;
            let bound = (MAX_EPOCH_DAYS - MIN_EPOCH_DAYS + 4) * 86400;
            assert(-bound <= d <= bound);
            if d >= 0 {
                assert(d / 86400 <= MAX_EPOCH_DAYS - MIN_EPOCH_DAYS + 4);
            } else {
                assert((-d) / 86400 <= MAX_EPOCH_DAYS - MIN_EPOCH_DAYS + 4);
            }
            assert(-86400 < rem < 86400);
        }
        let micros: i64 = end.time.microsecond() as i64 - start.time.microsecond() as i64;
        Interval::from_parts(0, days as i32, rem * 1_000_000 + micros)
    }
}

/// When `end` is `start` moved by `k` whole months, at the same wall clock time and
/// offset, the interval between them is exactly `k` months, with no days and no
/// microseconds left over.
pub proof fn lemma_between_whole_months(start: DateTime, end: DateTime, k: int)
    requires
        start@.0.inv(),
        start@.1.inv(),
        start@.2.inv(),
        i16::MIN <= start@.0@.0 + (start@.0@.1 - 1 + k) / 12 <= i16::MAX,
        end@.0@ == spec_add_months(start@.0@, k),
        end@.1 == start@.1,
        end@.2 == start@.2,
    ensures
        spec_between(start, end) == (k, 0int, 0int),
{
    let sd = start@.0@;
    let ed = end@.0@;
    let t = start@.1@;
    let soff = start@.2.spec_total_seconds();
    let total = sd.1 - 1 + k;
    assert(total == (total / 12) * 12 + total % 12 && 0 <= total % 12 < 12) by {
        vstd::arithmetic::div_mod::lemma_fundamental_div_mod(total, 12);
    }
    assert(clamp_i16(sd.0 + total / 12) == sd.0 + total / 12);
    assert(ed.0 == sd.0 + total / 12 && ed.1 == total % 12 + 1);
    assert(crate::gregorian::is_valid_date(ed.0, ed.1, ed.2));
    let secs = t.0 * 3600 + t.1 * 60 + t.2;
    assert(0 <= secs < 86400);
    let e = spec_epoch_days(ed.0, ed.1, ed.2);
    assert(end.spec_utc_seconds() + soff == e * 86400 + secs);
    assert((e * 86400 + secs) / 86400 == e) by {
        vstd::arithmetic::div_mod::lemma_fundamental_div_mod_converse(e * 86400 + secs, 86400, e, secs);
    }
    crate::gregorian::lemma_epoch_days_roundtrip(ed.0, ed.1, ed.2);
    assert(clamp_i16(ed.0) == ed.0);
    if k == 0 {
        assert(ed == sd);
        assert(spec_compare_instants(start, end) == 0);
    } else {
        crate::gregorian::lemma_epoch_days_roundtrip(sd.0, sd.1, sd.2);
        let sdays = spec_epoch_days(sd.0, sd.1, sd.2);
        assert(ed.0 * 12 + ed.1 == sd.0 * 12 + sd.1 + k);
        assert(sdays != e);
        assert(spec_compare_instants(start, end) != 0);
    }
}

/// The days and microseconds of the interval between two date times are exactly the
/// time left from `start` moved by the interval's whole months (at the same wall clock
/// time and offset) to `end`, counting a day as 86400 seconds.
pub proof fn lemma_between_rest(start: DateTime, end: DateTime)
    requires
        start@.0.inv(),
        start@.1.inv(),
        start@.2.inv(),
    ensures
        ({
            let r = spec_between(start, end);
            let moved = spec_instant_seconds(
                spec_add_months(start@.0@, r.0),
                start@.1@,
                start@.2.spec_total_seconds(),
            );
            r.1 * 86_400_000_000 + r.2 == (end.spec_utc_seconds() - moved) * 1_000_000 + end@.1@.3 / 1000
                - start@.1@.3 / 1000
        }),
{
    let sd = start@.0@;
    assert(spec_add_months(sd, 0) == sd) by {
        assert(sd.1 - 1 + 0 == (sd.1 - 1) / 12 * 12 + (sd.1 - 1) % 12);
    }
    let r = spec_between(start, end);
    let moved = spec_instant_seconds(spec_add_months(sd, r.0), start@.1@, start@.2.spec_total_seconds());
    let delta = end.spec_utc_seconds() - moved;
    assert(trunc_div(delta, 86400) * 86400 + trunc_rem(delta, 86400) == delta) by {
        if delta >= 0 {
            vstd::arithmetic::div_mod::lemma_fundamental_div_mod(delta, 86400);
        } else {
            vstd::arithmetic::div_mod::lemma_fundamental_div_mod(-delta, 86400);
        }
    }
}

impl Date {
    /// Combines this [`Date`] with a [`Time`] to create a [`DateTime`] in UTC.
    pub fn at(&self, time: Time) -> (r: DateTime)
        ensures
            r@.0 == *self,
            r@.1 == time,
            r@.2@ == (0int, 0int, 0int),
    {
        DateTime::from_components(*self, time, UtcOffset::utc())
    }
}

impl Time {
    /// Combines this [`Time`] with a [`Date`] to create a [`DateTime`] in UTC.
    pub fn at(&self, date: Date) -> (r: DateTime)
        ensures
            r@.0 == date,
            r@.1 == *self,
            r@.2@ == (0int, 0int, 0int),
    {
        DateTime::from_components(date, *self, UtcOffset::utc())
    }
}

/// Splits a count of seconds of a day into hours, minutes and seconds.
pub(crate) proof fn lemma_split_day_seconds(u: int)
    requires
        0 <= u < 86400,
    ensures
        (u / 3600) * 3600 + ((u % 3600) / 60) * 60 + u % 60 == u,
        0 <= u / 3600 < 24,
        0 <= (u % 3600) / 60 < 60,
        0 <= u % 60 < 60,
{
    let a = u / 3600;
    let v = u % 3600;
    vstd::arithmetic::div_mod::lemma_fundamental_div_mod(u, 3600);
    vstd::arithmetic::div_mod::lemma_fundamental_div_mod(v, 60);
    let b = v / 60;
    let c = v % 60;
    assert(u == (60 * a + b) * 60 + c) by (nonlinear_arith)
        requires
            u == 3600 * a + v,
            v == 60 * b + c,
    ;
    vstd::arithmetic::div_mod::lemma_fundamental_div_mod_converse(u, 60, 60 * a + b, c);
}

/// The time of day of `u * 10^9 + ns` nanoseconds, for `u` seconds of a day and `ns`
/// nanoseconds below a second, has the hours, minutes and seconds of `u` and `ns`.
proof fn lemma_time_of_second_nanos(u: int, ns: int)
    requires
        0 <= u < 86400,
        0 <= ns < 1_000_000_000,
    ensures
        ({
            let t = time_of_nanos(u * 1_000_000_000 + ns);
            &&& t.0 * 3600 + t.1 * 60 + t.2 == u
            &&& t.3 == ns
        }),
{
    let r = u * 1_000_000_000 + ns;
    let a = u / 3600;
    let v = u % 3600;
    vstd::arithmetic::div_mod::lemma_fundamental_div_mod(u, 3600);
    lemma_split_day_seconds(u);
    vstd::arithmetic::div_mod::lemma_fundamental_div_mod_converse(r, 3_600_000_000_000, a, v * 1_000_000_000 + ns);
    vstd::arithmetic::div_mod::lemma_fundamental_div_mod_converse(
        v * 1_000_000_000 + ns,
        60_000_000_000,
        v / 60,
        (v % 60) * 1_000_000_000 + ns,
    );
    vstd::arithmetic::div_mod::lemma_fundamental_div_mod(u, 60);
    vstd::arithmetic::div_mod::lemma_fundamental_div_mod_converse(
        r,
        60_000_000_000,
        u / 60,
        (u % 60) * 1_000_000_000 + ns,
    );
    vstd::arithmetic::div_mod::lemma_fundamental_div_mod_converse(
        (u % 60) * 1_000_000_000 + ns,
        1_000_000_000,
        u % 60,
        ns,
    );
    vstd::arithmetic::div_mod::lemma_fundamental_div_mod_converse(r, 1_000_000_000, u, ns);
}

/// Moving a wall clock by `k` whole seconds moves its local seconds by `k` and keeps
/// its nanoseconds, for a time that is not in a leap second.
pub proof fn lemma_shift_wall_clock_seconds(date: Date, time: Time, k: int)
    requires
        0 <= time@.0 < 24,
        0 <= time@.1 < 60,
        0 <= time@.2 < 60,
        0 <= time@.3 < 1_000_000_000,
    ensures
        ({
            let (d, t) = spec_shift_wall_clock(date, time, k * 1_000_000_000);
            &&& spec_epoch_days(d.0, d.1, d.2) * 86400 + t.0 * 3600 + t.1 * 60 + t.2 == date.spec_days_since_epoch()
                * 86400 + time@.0 * 3600 + time@.1 * 60 + time@.2 + k
            &&& t.3 == time@.3
        }),
{
    let s = time@.0 * 3600 + time@.1 * 60 + time@.2;
    let n = time.spec_total_nanos() + k * 1_000_000_000;
    assert(n == (s + k) * 1_000_000_000 + time@.3);
    let day = NANOS_PER_DAY as int;
    vstd::arithmetic::div_mod::lemma_fundamental_div_mod(n, day);
    let q = n / day;
    let r = n % day;
    let u = s + k - 86400 * q;
    assert(r == u * 1_000_000_000 + time@.3);
    assert(0 <= u < 86400);
    lemma_time_of_second_nanos(u, time@.3);
    crate::gregorian::lemma_date_of_epoch_days(date.spec_days_since_epoch() + q);
}

/// Comparing date times by their instants is a total order on instants: swapping
/// the two sides flips the result, and two comparisons that do not go forward
/// chain into one that does not.
pub proof fn lemma_compare_instants_order(a: DateTime, b: DateTime, c: DateTime)
    ensures
        spec_compare_instants(a, b) == -spec_compare_instants(b, a),
        spec_compare_instants(a, a) == 0,
        spec_compare_instants(a, b) <= 0 && spec_compare_instants(b, c) <= 0 ==> spec_compare_instants(a, c) <= 0,
        spec_compare_instants(a, b) == 0 && spec_compare_instants(b, c) == 0 ==> spec_compare_instants(a, c) == 0,
{
}

impl DateTime {
    /// The date time with the given date, time of day and offset.
    pub closed spec fn spec_from_parts(date: Date, time: Time, offset: UtcOffset) -> DateTime {
        DateTime { date, time, offset }
    }

    /// The parts of [`DateTime::spec_from_parts`] are the ones it was given.
    pub proof fn lemma_spec_from_parts(date: Date, time: Time, offset: UtcOffset)
        ensures
            DateTime::spec_from_parts(date, time, offset)@ == (date, time, offset),
    {
    }
}

/// The day count that adding `d` to a date time reaches, when the duration is
/// within [`MAXIMUM_SECONDS_FROM_DURATION`] seconds.
pub open spec fn days_plus_duration(dt: DateTime, d: core::time::Duration) -> int {
    dt@.0.spec_days_since_epoch() + nanos_plus_duration(dt@.1, d) / (NANOS_PER_DAY as int)
}

/// The day count that subtracting `d` from a date time reaches, when the duration
/// is within [`MAXIMUM_SECONDS_FROM_DURATION`] seconds.
pub open spec fn days_minus_duration(dt: DateTime, d: core::time::Duration) -> int {
    dt@.0.spec_days_since_epoch() + nanos_minus_duration(dt@.1, d) / (NANOS_PER_DAY as int)
}

impl core::ops::Add<core::time::Duration> for DateTime {
    type Output = DateTime;

    /// Adds a duration to the wall clock, keeping the offset.
    fn add(self, rhs: core::time::Duration) -> (r: DateTime) {
        let secs = duration_as_secs(&rhs);
        let nanos = duration_nanos(&rhs);
        let (days, time) = self.time.add_with_duration(secs, nanos);
        let date = self.date.add_days(days);
        proof {
            use_type_invariant(&time);
            use_type_invariant(&date);
            Time::lemma_spec_of_nanos_eq(time, nanos_plus_duration(self@.1, rhs));
            Date::lemma_spec_from_epoch_days(date);
        }
        DateTime { date, time, offset: self.offset }
    }
}

impl vstd::std_specs::ops::AddSpecImpl<core::time::Duration> for DateTime {
    open spec fn obeys_add_spec() -> bool {
        true
    }

    open spec fn add_req(self, rhs: core::time::Duration) -> bool {
        &&& duration_secs(rhs) <= MAXIMUM_SECONDS_FROM_DURATION
        &&& i64::MIN <= nanos_plus_duration(self@.1, rhs) <= i64::MAX
        &&& MIN_EPOCH_DAYS <= days_plus_duration(self, rhs) <= MAX_EPOCH_DAYS
    }

    open spec fn add_spec(self, rhs: core::time::Duration) -> DateTime {
        DateTime::spec_from_parts(
            Date::spec_from_epoch_days(days_plus_duration(self, rhs)),
            Time::spec_of_nanos(nanos_plus_duration(self@.1, rhs)),
            self@.2,
        )
    }
}

impl core::ops::Sub<core::time::Duration> for DateTime {
    type Output = DateTime;

    /// Subtracts a duration from the wall clock, keeping the offset.
    fn sub(self, rhs: core::time::Duration) -> (r: DateTime) {
        let secs = duration_as_secs(&rhs);
        let nanos = duration_nanos(&rhs);
        let (days, time) = self.time.sub_with_duration(secs, nanos);
        let date = self.date.add_days(days);
        proof {
            use_type_invariant(&time);
            use_type_invariant(&date);
            Time::lemma_spec_of_nanos_eq(time, nanos_minus_duration(self@.1, rhs));
            Date::lemma_spec_from_epoch_days(date);
        }
        DateTime { date, time, offset: self.offset }
    }
}

impl vstd::std_specs::ops::SubSpecImpl<core::time::Duration> for DateTime {
    open spec fn obeys_sub_spec() -> bool {
        true
    }

    open spec fn sub_req(self, rhs: core::time::Duration) -> bool {
        &&& duration_secs(rhs) <= MAXIMUM_SECONDS_FROM_DURATION
        &&& i64::MIN <= nanos_minus_duration(self@.1, rhs) <= i64::MAX
        &&& MIN_EPOCH_DAYS <= days_minus_duration(self, rhs) <= MAX_EPOCH_DAYS
    }

    open spec fn sub_spec(self, rhs: core::time::Duration) -> DateTime {
        DateTime::spec_from_parts(
            Date::spec_from_epoch_days(days_minus_duration(self, rhs)),
            Time::spec_of_nanos(nanos_minus_duration(self@.1, rhs)),
            self@.2,
        )
    }
}

/// The signed nanoseconds from the UNIX epoch that a measured duration gives, `Ok`
/// after the epoch and `Err` before it, each counted as an `i64` the way
/// [`Time`] counts added durations, wrapping around for durations that do not fit.
pub open spec fn epoch_duration_nanos(since: Result<core::time::Duration, core::time::Duration>) -> int {
    match since {
        Ok(d) => duration_nanos_i64(duration_secs(d) as int, duration_subsec_nanos(d) as int),
        Err(d) => -duration_nanos_i64(duration_secs(d) as int, duration_subsec_nanos(d) as int),
    }
}

/// Whether a duration measured from the UNIX epoch lands on a supported date: its
/// whole seconds are within [`MAXIMUM_SECONDS_FROM_DURATION`], its nanoseconds fit
/// an `i64` and their day is within the supported range.
pub open spec fn epoch_duration_in_range(since: Result<core::time::Duration, core::time::Duration>) -> bool {
    let d = match since {
        Ok(d) => d,
        Err(d) => d,
    };
    let n = epoch_duration_nanos(since);
    &&& duration_secs(d) <= MAXIMUM_SECONDS_FROM_DURATION
    &&& i64::MIN <= n <= i64::MAX
    &&& MIN_EPOCH_DAYS <= n / (NANOS_PER_DAY as int) <= MAX_EPOCH_DAYS
}

/// Whether `r` is the UTC date time that a duration measured from the UNIX epoch
/// reaches: the UNIX epoch moved by the duration's nanoseconds, or, for one that
/// lands outside the supported dates, the last instant of the largest date (after
/// the epoch) or midnight of the smallest date (before it).
pub open spec fn is_epoch_duration_result(since: Result<core::time::Duration, core::time::Duration>, r: DateTime) -> bool {
    let n = epoch_duration_nanos(since);
    &&& r@.2@ == (0int, 0int, 0int)
    &&& epoch_duration_in_range(since) ==> {
        &&& r@.0@ == date_of_epoch_days(n / (NANOS_PER_DAY as int))
        &&& r@.1@ == time_of_nanos(n % (NANOS_PER_DAY as int))
    }
    &&& (!epoch_duration_in_range(since) && since is Ok) ==> {
        &&& r@.0@ == (i16::MAX as int, 12int, 31int)
        &&& r@.1@ == (23int, 59int, 59int, 999_999_999int)
    }
    &&& (!epoch_duration_in_range(since) && since is Err) ==> {
        &&& r@.0@ == (i16::MIN as int, 1int, 1int)
        &&& r@.1@ == (0int, 0int, 0int, 0int)
    }
}

impl DateTime {
    /// The UTC date time a duration measured from the UNIX epoch reaches: `Ok` holds
    /// a duration after the epoch and `Err` one before it, as a system clock reports
    /// them. Durations that land outside the supported dates saturate at their ends.
    pub fn from_epoch_duration(since: Result<core::time::Duration, core::time::Duration>) -> (r: DateTime)
        ensures
            is_epoch_duration_result(since, r),
    {
        let (d, before) = match since {
            Ok(d) => (d, false),
            Err(d) => (d, true),
        };
        let secs = duration_as_secs(&d);
        let nanos = duration_nanos(&d);
        let saturated = if before {
            DateTime { date: Date::min_date(), time: Time::midnight(), offset: UtcOffset::utc() }
        } else {
            DateTime { date: Date::max_date(), time: Time::max_time(), offset: UtcOffset::utc() }
        };
        if secs > MAXIMUM_SECONDS_FROM_DURATION {
            return saturated;
        }
        let raw: i64 = (secs as u128 * 1_000_000_000u128 + nanos as u128) as i64;
        if before && raw == i64::MIN {
            return saturated;
        }
        let n: i64 = if before {
            -raw
        } else {
            raw
        };
        assert(n == epoch_duration_nanos(since));
        let (days, _) = divmod_i64(n, NANOS_PER_DAY as i64);
        if days < MIN_EPOCH_DAYS as i64 || days > MAX_EPOCH_DAYS as i64 {
            return saturated;
        }
        let (days, time) = Time::adjust_from_nanos(n);
        let date = Date::from_epoch_days(days);
        DateTime { date, time, offset: UtcOffset::utc() }
    }
}

} // verus!
