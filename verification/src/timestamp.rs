//! UNIX timestamps.
use vstd::prelude::*;

use crate::date::Date;
use crate::datetime::DateTime;
use crate::gregorian::{date_of_epoch_days, MAX_EPOCH_DAYS, MIN_EPOCH_DAYS};
use crate::time::Time;
use crate::timezone::UtcOffset;
use crate::utils::divmod_i64;

verus! {

/// The smallest number of seconds that names a date in range: midnight of the first day.
pub const MIN_VALID_SECONDS: i64 = -1_096_225_401_600;

/// The largest number of seconds that names a date in range: the last second of the last day.
pub const MAX_VALID_SECONDS: i64 = 971_890_963_199;

/// A UNIX timestamp.
///
/// This is defined by the number of seconds since the Unix epoch,
/// defined as January 1st 1970 12:00 AM UTC.
///
/// Each `Timestamp` is composed of a whole number of seconds and a fractional
/// part representing the nanoseconds.
#[derive(Debug, Clone, Copy, PartialEq, Eq, Structural, PartialOrd, Ord, Hash)]
pub struct Timestamp {
    seconds: i64,
    nanoseconds: u32,
}

impl View for Timestamp {
    type V = (int, int);

    /// The whole seconds and the additional nanoseconds.
    closed spec fn view(&self) -> (int, int) {
        (self.seconds as int, self.nanoseconds as int)
    }
}

impl Timestamp {
    /// Two values with the same view are the same value.
    pub proof fn lemma_view_eq(a: Timestamp, b: Timestamp)
        requires
            a@ == b@,
        ensures
            a == b,
    {
    }
}

impl Default for Timestamp {
    fn default() -> (r: Timestamp)
        ensures
            r@ == (0int, 0int),
    {
        Timestamp { seconds: 0, nanoseconds: 0 }
    }
}

impl Timestamp {
    /// The nanoseconds of a timestamp stay below two billion, leaving room for a leap second.
    #[verifier::type_invariant]
    pub open spec fn inv(&self) -> bool {
        self@.1 < 2_000_000_000
    }

    /// Creates a new `Timestamp` from the specified whole seconds and additional nanoseconds.
    ///
    /// If the number of nanoseconds is greater than 2 billion then it is clamped to that value.
    pub fn new(seconds: i64, nanoseconds: u32) -> (r: Timestamp)
        ensures
            r@ == (seconds as int, if nanoseconds >= 2_000_000_000 {
                1_999_999_999int
            } else {
                nanoseconds as int
            }),
    {
        Timestamp {
            seconds,
            nanoseconds: if nanoseconds >= 2_000_000_000 {
                1_999_999_999
            } else {
                nanoseconds
            },
        }
    }

    /// Creates a new `Timestamp` from the given number of seconds.
    pub fn from_seconds(seconds: i64) -> (r: Timestamp)
        ensures
            r@ == (seconds as int, 0int),
    {
        Timestamp { seconds, nanoseconds: 0 }
    }

    /// Creates a new `Timestamp` from the given number of milliseconds.
    pub fn from_milliseconds(milliseconds: i64) -> (r: Timestamp)
        ensures
            r@ == (milliseconds as int / 1000, (milliseconds as int % 1000) * 1_000_000),
    {
        let (seconds, millis) = divmod_i64(milliseconds, 1000);
        Timestamp { seconds, nanoseconds: millis as u32 * 1_000_000 }
    }

    /// Creates a new `Timestamp` from the given number of microseconds.
    pub fn from_microseconds(microseconds: i64) -> (r: Timestamp)
        ensures
            r@ == (microseconds as int / 1_000_000, (microseconds as int % 1_000_000) * 1000),
    {
        let (seconds, micros) = divmod_i64(microseconds, 1_000_000);
        Timestamp { seconds, nanoseconds: micros as u32 * 1000 }
    }

    /// Returns the number of whole seconds in this timestamp.
    ///
    /// This does not return the nanoseconds component.
    pub fn as_seconds(&self) -> (r: i64)
        ensures
            r == self@.0,
    {
        self.seconds
    }

    /// Returns the nanoseconds past the whole seconds of this timestamp.
    pub fn nanoseconds(&self) -> (r: u32)
        ensures
            r == self@.1,
            r < 2_000_000_000,
    {
        proof {
            use_type_invariant(self);
        }
        self.nanoseconds
    }

    /// Returns the total number of milliseconds in this timestamp.
    pub fn as_milliseconds(&self) -> (r: i128)
        ensures
            r == self@.0 * 1000 + self@.1 / 1_000_000,
    {
        self.seconds as i128 * 1000 + (self.nanoseconds / 1_000_000) as i128
    }

    /// Converts the `Timestamp` into a [`DateTime`] in UTC.
    ///
    /// If the timestamp is out of range whether in the negative or positive
    /// direction then it saturates towards the overflowing side.
    pub fn to_utc(self) -> (r: DateTime)
        ensures
            r@.2@ == (0int, 0int, 0int),
            self@.0 >= MAX_VALID_SECONDS ==> r@.0@ == (i16::MAX as int, 12int, 31int) && r@.1@ == (
                23int,
                59int,
                59int,
                999_999_999int,
            ),
            self@.0 <= MIN_VALID_SECONDS ==> r@.0@ == (i16::MIN as int, 1int, 1int) && r@.1@ == (
                0int,
                0int,
                0int,
                0int,
            ),
            MIN_VALID_SECONDS < self@.0 < MAX_VALID_SECONDS ==> {
                let secs = self@.0 % 86400;
                &&& r@.0@ == date_of_epoch_days(self@.0 / 86400)
                &&& r@.1@ == (secs / 3600, secs % 3600 / 60, secs % 60, self@.1)
            },
    {
        proof {
            use_type_invariant(&self);
        }
        if self.seconds >= MAX_VALID_SECONDS {
            return DateTime::from_components(Date::max_date(), Time::max_time(), UtcOffset::utc());
        } else if self.seconds <= MIN_VALID_SECONDS {
            return DateTime::from_components(Date::min_date(), Time::midnight(), UtcOffset::utc());
        }
        let (days, seconds) = divmod_i64(self.seconds, 86400);
        proof {
            assert(MIN_EPOCH_DAYS <= days <= MAX_EPOCH_DAYS);
        }
        let date = Date::from_epoch_days(days as i32);
        let hours = seconds / 3600;
        let minutes = seconds % 3600 / 60;
        let secs = seconds % 60;
        let time = Time::from_parts(hours as u8, minutes as u8, secs as u8, self.nanoseconds);
        DateTime::from_components(date, time, UtcOffset::utc())
    }
}

/// Converting a count of UTC seconds in range to a date and time of day in UTC, as
/// [`Timestamp::to_utc`] does, and reading back its seconds gives the count.
pub proof fn lemma_to_utc_roundtrip(secs: int, nanos: int)
    requires
        MIN_VALID_SECONDS < secs < MAX_VALID_SECONDS,
    ensures
        ({
            let s = secs % 86400;
            crate::datetime::spec_instant_seconds(
                date_of_epoch_days(secs / 86400),
                (s / 3600, s % 3600 / 60, s % 60, nanos),
                0,
            ) == secs
        }),
{
    let s = secs % 86400;
    crate::gregorian::lemma_date_of_epoch_days(secs / 86400);
    crate::datetime::lemma_split_day_seconds(s);
    vstd::arithmetic::div_mod::lemma_fundamental_div_mod(secs, 86400);
}

} // verus!
