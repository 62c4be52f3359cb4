//! Extension traits to numeric types for [`Interval`] construction.
use vstd::prelude::*;

use crate::interval::{clamp_i64, Interval, MICROS_PER_HOUR, MICROS_PER_MIN, MICROS_PER_SEC};

verus! {

/// A marker trait that keeps [`IntervalLiteral`] implemented by this crate alone.
pub trait Sealed {

}

impl Sealed for i32 {

}

/// Adds methods to integer literals to construct an [`Interval`], such as
/// `2.years()` or `30.minutes()`.
pub trait IntervalLiteral: Sealed + Sized {
    /// The values whose number of weeks, counted in days, fits in an `i32`.
    spec fn weeks_in_range(&self) -> bool;

    /// Returns an [`Interval`] representing the receiver's number of years.
    fn years(self) -> Interval;

    /// Returns an [`Interval`] representing the receiver's number of days.
    fn days(self) -> Interval;

    /// Returns an [`Interval`] representing the receiver's number of months.
    fn months(self) -> Interval;

    /// Returns an [`Interval`] representing the receiver's number of weeks.
    fn weeks(self) -> Interval
        requires
            self.weeks_in_range(),
    ;

    /// Returns an [`Interval`] representing the receiver's number of hours.
    fn hours(self) -> Interval;

    /// Returns an [`Interval`] representing the receiver's number of minutes.
    fn minutes(self) -> Interval;

    /// Returns an [`Interval`] representing the receiver's number of seconds.
    fn seconds(self) -> Interval;

    /// Returns an [`Interval`] representing the receiver's number of milliseconds.
    fn milliseconds(self) -> Interval;

    /// Returns an [`Interval`] representing the receiver's number of microseconds.
    fn microseconds(self) -> Interval;
}

impl IntervalLiteral for i32 {
    open spec fn weeks_in_range(&self) -> bool {
        i32::MIN <= *self * 7 <= i32::MAX
    }

    /// The years are taken as an `i16`, keeping the low 16 bits of the value.
    fn years(self) -> (r: Interval)
        ensures
            r@ == ((self as i16) * 12, 0int, 0int),
            r.written() == ((self as i16) as int, 0int, 0int, 0int, 0int, 0int),
    {
        Interval::from_years(#[verifier::truncate] (self as i16))
    }

    fn days(self) -> (r: Interval)
        ensures
            r@ == (0int, self as int, 0int),
            r.written() == (0int, 0int, self as int, 0int, 0int, 0int),
    {
        Interval::from_days(self)
    }

    fn months(self) -> (r: Interval)
        ensures
            r@ == (self as int, 0int, 0int),
            r.written() == (0int, self as int, 0int, 0int, 0int, 0int),
    {
        Interval::from_months(self)
    }

    fn weeks(self) -> (r: Interval)
        ensures
            r@ == (0int, self * 7, 0int),
            r.written() == (0int, 0int, self * 7, 0int, 0int, 0int),
    {
        Interval::from_weeks(self)
    }

    fn hours(self) -> (r: Interval)
        ensures
            r@ == (0int, 0int, self * MICROS_PER_HOUR),
            r.written() == (0int, 0int, 0int, self as int, 0int, 0int),
    {
        Interval::from_hours(self)
    }

    fn minutes(self) -> (r: Interval)
        ensures
            r@ == (0int, 0int, self * MICROS_PER_MIN),
            r.written() == (0int, 0int, 0int, 0int, self as int, 0int),
    {
        Interval::from_minutes(self)
    }

    fn seconds(self) -> (r: Interval)
        ensures
            r@ == (0int, 0int, self * MICROS_PER_SEC),
            r.written() == (0int, 0int, 0int, 0int, 0int, self * MICROS_PER_SEC),
    {
        Interval::from_seconds(self)
    }

    fn milliseconds(self) -> (r: Interval)
        ensures
            r@ == (0int, 0int, clamp_i64(self * 1000)),
            r.written() == (0int, 0int, 0int, 0int, 0int, clamp_i64(self * 1000)),
    {
        Interval::from_milliseconds(self as i64)
    }

    fn microseconds(self) -> (r: Interval)
        ensures
            r@ == (0int, 0int, self as int),
            r.written() == (0int, 0int, 0int, 0int, 0int, self as int),
    {
        Interval::from_microseconds(self as i64)
    }
}

} // verus!
