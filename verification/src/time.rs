//! A time of day with nanosecond precision.
use vstd::prelude::*;

use crate::display::{duration_as_secs, duration_nanos, duration_secs, duration_subsec_nanos};
use crate::error::Error;

verus! {

pub const NANOS_PER_SEC: u64 = 1_000_000_000;
pub const NANOS_PER_MIN: u64 = 60_000_000_000;
pub const NANOS_PER_HOUR: u64 = 3_600_000_000_000;
pub const NANOS_PER_DAY: u64 = 86_400_000_000_000;

/// The largest number of whole seconds of a duration that is added to a time.
pub const MAXIMUM_SECONDS_FROM_DURATION: u64 = 185_542_587_100_800;

/// The nanoseconds of a duration of `secs` seconds and `nanos` nanoseconds, as an
/// `i64` (wrapping around when it does not fit).
pub open spec fn duration_nanos_i64(secs: int, nanos: int) -> int {
    (secs * 1_000_000_000 + nanos) as i64 as int
}

/// The number of nanoseconds since midnight of a time given as its components.
pub open spec fn nanos_of(hour: int, minute: int, second: int, nanosecond: int) -> int {
    hour * NANOS_PER_HOUR + minute * NANOS_PER_MIN + second * NANOS_PER_SEC + nanosecond
}

/// The components of the time that lies `nanos` nanoseconds after midnight,
/// for `0 <= nanos < NANOS_PER_DAY`.
pub open spec fn time_of_nanos(nanos: int) -> (int, int, int, int) {
    (
        nanos / NANOS_PER_HOUR as int,
        (nanos % NANOS_PER_HOUR as int) / NANOS_PER_MIN as int,
        (nanos % NANOS_PER_MIN as int) / NANOS_PER_SEC as int,
        nanos % NANOS_PER_SEC as int,
    )
}

/// Represents a moment in time. This type is not aware of any particular calendar, date, or time zone.
///
/// This type has nanosecond precision. A nanosecond value of a billion or more
/// represents a leap second.
#[derive(Debug, Clone, Copy, PartialEq, Eq, Structural, PartialOrd, Ord, Hash)]
pub struct Time {
    hour: u8,
    minute: u8,
    second: u8,
    nanosecond: u32,
}

impl View for Time {
    type V = (int, int, int, int);

    closed spec fn view(&self) -> (int, int, int, int) {
        (self.hour as int, self.minute as int, self.second as int, self.nanosecond as int)
    }
}

impl Time {
    /// Two values with the same view are the same value.
    pub proof fn lemma_view_eq(a: Time, b: Time)
        requires
            a@ == b@,
        ensures
            a == b,
    {
    }
}

impl Time {
    /// Hours are below 24, minutes and seconds below 60 and nanoseconds below two billion.
    #[verifier::type_invariant]
    pub open spec fn inv(&self) -> bool {
        &&& 0 <= self@.0 < 24
        &&& 0 <= self@.1 < 60
        &&& 0 <= self@.2 < 60
        &&& 0 <= self@.3 < 2_000_000_000
    }

    /// The number of nanoseconds since midnight.
    pub open spec fn spec_total_nanos(&self) -> int {
        nanos_of(self@.0, self@.1, self@.2, self@.3)
    }

    /// Creates a time from components that are known to be in range.
    pub(crate) fn from_parts(hour: u8, minute: u8, second: u8, nanosecond: u32) -> (r: Time)
        requires
            hour < 24,
            minute < 60,
            second < 60,
            nanosecond < 2_000_000_000,
        ensures
            r@ == (hour as int, minute as int, second as int, nanosecond as int),
    {
        Time { hour, minute, second, nanosecond }
    }

    /// Represents the time at midnight, the smallest time.
    pub fn midnight() -> (r: Time)
        ensures
            r@ == (0int, 0int, 0int, 0int),
    {
        Time { hour: 0, minute: 0, second: 0, nanosecond: 0 }
    }

    /// Represents the largest time, not counting leap seconds.
    pub fn max_time() -> (r: Time)
        ensures
            r@ == (23int, 59int, 59int, 999_999_999int),
    {
        Time { hour: 23, minute: 59, second: 59, nanosecond: 999_999_999 }
    }

    /// Creates a new [`Time`] from the specified hour, minute, and second.
    ///
    /// The `hour` value must be between `0..24` and the `minute` and `second` values must
    /// be between `0..60`.
    pub fn new(hour: u8, minute: u8, second: u8) -> (r: Result<Time, Error>)
        ensures
            r is Ok <==> hour < 24 && minute < 60 && second < 60,
            r matches Ok(t) ==> t@ == (hour as int, minute as int, second as int, 0int),
            r matches Err(e) ==> e == Error::OutOfRange,
    {
        if hour > 23 || minute > 59 || second > 59 {
            return Err(Error::OutOfRange);
        }
        Ok(Time { hour, minute, second, nanosecond: 0 })
    }

    /// Returns the hour. This value will always be within `0..24`.
    pub fn hour(&self) -> (r: u8)
        ensures
            r == self@.0,
            r < 24,
    {
        proof {
            use_type_invariant(self);
        }
        self.hour
    }

    /// Returns the minute within the hour. This value will always be within `0..60`.
    pub fn minute(&self) -> (r: u8)
        ensures
            r == self@.1,
            r < 60,
    {
        proof {
            use_type_invariant(self);
        }
        self.minute
    }

    /// Returns the second within the minute. This value will always be within `0..60`.
    pub fn second(&self) -> (r: u8)
        ensures
            r == self@.2,
            r < 60,
    {
        proof {
            use_type_invariant(self);
        }
        self.second
    }

    /// Returns the millisecond within the second.
    pub fn millisecond(&self) -> (r: u16)
        ensures
            r == self@.3 / 1_000_000,
            r < 2000,
    {
        proof {
            use_type_invariant(self);
        }
        (self.nanosecond / 1_000_000) as u16
    }

    /// Returns the microsecond within the second.
    pub fn microsecond(&self) -> (r: u32)
        ensures
            r == self@.3 / 1_000,
            r < 2_000_000,
    {
        proof {
            use_type_invariant(self);
        }
        self.nanosecond / 1_000
    }

    /// Returns the nanosecond within the second.
    ///
    /// This value will always be within `0..2_000_000_000`.
    pub fn nanosecond(&self) -> (r: u32)
        ensures
            r == self@.3,
            r < 2_000_000_000,
    {
        proof {
            use_type_invariant(self);
        }
        self.nanosecond
    }

    /// Returns a new [`Time`] that points to the given hour.
    /// If the hour is out of bounds (`0..24`) then [`Error`] is returned.
    pub fn with_hour(self, hour: u8) -> (r: Result<Time, Error>)
        ensures
            r is Ok <==> hour < 24,
            r matches Ok(t) ==> t@ == (hour as int, self@.1, self@.2, self@.3),
            r matches Err(e) ==> e == Error::OutOfRange,
    {
        proof {
            use_type_invariant(self);
        }
        if hour > 23 {
            return Err(Error::OutOfRange);
        }
        Ok(Time { hour, ..self })
    }

    /// Returns a new [`Time`] that points to the given minute.
    /// If the minute is out of bounds (`0..60`) then [`Error`] is returned.
    pub fn with_minute(self, minute: u8) -> (r: Result<Time, Error>)
        ensures
            r is Ok <==> minute < 60,
            r matches Ok(t) ==> t@ == (self@.0, minute as int, self@.2, self@.3),
            r matches Err(e) ==> e == Error::OutOfRange,
    {
        proof {
            use_type_invariant(self);
        }
        if minute > 59 {
            return Err(Error::OutOfRange);
        }
        Ok(Time { minute, ..self })
    }

    /// Returns a new [`Time`] that points to the given second.
    /// If the second is out of bounds (`0..60`) then [`Error`] is returned.
    pub fn with_second(self, second: u8) -> (r: Result<Time, Error>)
        ensures
            r is Ok <==> second < 60,
            r matches Ok(t) ==> t@ == (self@.0, self@.1, second as int, self@.3),
            r matches Err(e) ==> e == Error::OutOfRange,
    {
        proof {
            use_type_invariant(self);
        }
        if second > 59 {
            return Err(Error::OutOfRange);
        }
        Ok(Time { second, ..self })
    }

    /// Returns a new [`Time`] that points to the given millisecond.
    /// If the millisecond is out of bounds (`0..1000`) then [`Error`] is returned.
    pub fn with_millisecond(self, millisecond: u16) -> (r: Result<Time, Error>)
        ensures
            r is Ok <==> millisecond < 1000,
            r matches Ok(t) ==> t@ == (self@.0, self@.1, self@.2, millisecond * 1_000_000),
            r matches Err(e) ==> e == Error::OutOfRange,
    {
        proof {
            use_type_invariant(self);
        }
        if millisecond >= 1000 {
            return Err(Error::OutOfRange);
        }
        Ok(Time { nanosecond: millisecond as u32 * 1_000_000, ..self })
    }

    /// Returns a new [`Time`] that points to the given microsecond.
    /// If the microsecond is out of bounds (`0..1_000_000`) then [`Error`] is returned.
    pub fn with_microsecond(self, microsecond: u32) -> (r: Result<Time, Error>)
        ensures
            r is Ok <==> microsecond < 1_000_000,
            r matches Ok(t) ==> t@ == (self@.0, self@.1, self@.2, microsecond * 1_000),
            r matches Err(e) ==> e == Error::OutOfRange,
    {
        proof {
            use_type_invariant(self);
        }
        if microsecond >= 1_000_000 {
            return Err(Error::OutOfRange);
        }
        Ok(Time { nanosecond: microsecond * 1_000, ..self })
    }

    /// Returns a new [`Time`] that points to the given nanosecond.
    /// If the nanosecond is out of bounds (`0..2_000_000_000`) then [`Error`] is returned.
    pub fn with_nanosecond(self, nanosecond: u32) -> (r: Result<Time, Error>)
        ensures
            r is Ok <==> nanosecond <= 1_999_999_999,
            r matches Ok(t) ==> t@ == (self@.0, self@.1, self@.2, nanosecond as int),
            r matches Err(e) ==> e == Error::OutOfRange,
    {
        proof {
            use_type_invariant(self);
        }
        if nanosecond > 1_999_999_999 {
            return Err(Error::OutOfRange);
        }
        Ok(Time { nanosecond, ..self })
    }

    /// The number of whole seconds since midnight.
    pub fn total_seconds(&self) -> (r: i32)
        ensures
            r == self@.0 * 3600 + self@.1 * 60 + self@.2,
    {
        proof {
            use_type_invariant(self);
        }
        self.hour as i32 * 3600 + self.minute as i32 * 60 + self.second as i32
    }

    /// Total number of nanoseconds represented by this time.
    pub fn total_nanos(&self) -> (r: u64)
        ensures
            r == self.spec_total_nanos(),
            r < NANOS_PER_DAY + NANOS_PER_SEC,
    {
        proof {
            use_type_invariant(self);
        }
        self.hour as u64 * NANOS_PER_HOUR + self.minute as u64 * NANOS_PER_MIN + self.second as u64
            * NANOS_PER_SEC + self.nanosecond as u64
    }

    /// Total number of microseconds represented by this time.
    pub fn total_micros(&self) -> (r: i64)
        ensures
            r == self.spec_total_nanos() / 1000,
            0 <= r < (NANOS_PER_DAY + NANOS_PER_SEC) / 1000,
    {
        proof {
            use_type_invariant(self);
        }
        (self.total_nanos() / 1000) as i64
    }

    /// Adds a duration of `secs` seconds and `nanos` nanoseconds to the time and returns
    /// the number of days that have passed along with the new time.
    ///
    /// The duration is counted in nanoseconds as an `i64`, wrapping around for
    /// durations that do not fit; durations of more than
    /// [`MAXIMUM_SECONDS_FROM_DURATION`] seconds leave the time unchanged.
    pub fn add_with_duration(self, secs: u64, nanos: u32) -> (r: (i32, Time))
        requires
            nanos < NANOS_PER_SEC,
            secs <= MAXIMUM_SECONDS_FROM_DURATION ==> i64::MIN <= self.spec_total_nanos()
                + duration_nanos_i64(secs as int, nanos as int) <= i64::MAX,
        ensures
            secs > MAXIMUM_SECONDS_FROM_DURATION ==> r.0 == i32::MAX && r.1 == self,
            secs <= MAXIMUM_SECONDS_FROM_DURATION ==> {
                let n = self.spec_total_nanos() + duration_nanos_i64(secs as int, nanos as int);
                &&& r.0 == n / NANOS_PER_DAY as int
                &&& r.1@ == time_of_nanos(n % NANOS_PER_DAY as int)
            },
    {
        if secs > MAXIMUM_SECONDS_FROM_DURATION {
            (i32::MAX, self)
        } else {
            let d: i64 = (secs as u128 * 1_000_000_000u128 + nanos as u128) as i64;
            let diff: i64 = self.total_nanos() as i64 + d;
            Time::adjust_from_nanos(diff)
        }
    }

    /// Subtracts a duration of `secs` seconds and `nanos` nanoseconds from the time and
    /// returns the number of days that have passed along with the new time.
    ///
    /// The duration is counted in nanoseconds as an `i64`, wrapping around for
    /// durations that do not fit; durations of more than
    /// [`MAXIMUM_SECONDS_FROM_DURATION`] seconds leave the time unchanged.
    pub fn sub_with_duration(self, secs: u64, nanos: u32) -> (r: (i32, Time))
        requires
            nanos < NANOS_PER_SEC,
            secs <= MAXIMUM_SECONDS_FROM_DURATION ==> i64::MIN <= self.spec_total_nanos()
                - duration_nanos_i64(secs as int, nanos as int) <= i64::MAX,
        ensures
            secs > MAXIMUM_SECONDS_FROM_DURATION ==> r.0 == i32::MIN + 1 && r.1 == self,
            secs <= MAXIMUM_SECONDS_FROM_DURATION ==> {
                let n = self.spec_total_nanos() - duration_nanos_i64(secs as int, nanos as int);
                &&& r.0 == n / NANOS_PER_DAY as int
                &&& r.1@ == time_of_nanos(n % NANOS_PER_DAY as int)
            },
    {
        if secs > MAXIMUM_SECONDS_FROM_DURATION {
            (i32::MIN + 1, self)
        } else {
            let d: i64 = (secs as u128 * 1_000_000_000u128 + nanos as u128) as i64;
            let diff: i64 = self.total_nanos() as i64 - d;
            Time::adjust_from_nanos(diff)
        }
    }

    /// Converts nanoseconds into a time and the number of whole days that were left over.
    pub fn adjust_from_nanos(nanos: i64) -> (r: (i32, Time))
        ensures
            r.0 == nanos as int / NANOS_PER_DAY as int,
            r.1@ == time_of_nanos(nanos as int % NANOS_PER_DAY as int),
            r.1.spec_total_nanos() == nanos as int % NANOS_PER_DAY as int,
    {
        let (hour, rem) = crate::utils::divmod_i64(nanos, NANOS_PER_HOUR as i64);
        let (minute, rem2) = crate::utils::divmod_i64(rem, NANOS_PER_MIN as i64);
        let (second, ns) = crate::utils::divmod_i64(rem2, NANOS_PER_SEC as i64);
        let (days, hour) = crate::utils::divmod_i64(hour, 24);
        proof {
            let n = nanos as int;
            let t = n % (NANOS_PER_DAY as int);
            assert(days == n / (NANOS_PER_DAY as int));
            assert(hour == t / (NANOS_PER_HOUR as int));
            assert(minute == (t % (NANOS_PER_HOUR as int)) / (NANOS_PER_MIN as int));
            assert(second == (t % (NANOS_PER_MIN as int)) / (NANOS_PER_SEC as int));
            assert(ns == t % (NANOS_PER_SEC as int));
        }
        (days as i32, Time {
            hour: hour as u8,
            minute: minute as u8,
            second: second as u8,
            nanosecond: ns as u32,
        })
    }
}

impl Time {
    /// The time of day `n` nanoseconds after midnight, wrapping around whole days.
    pub closed spec fn spec_of_nanos(n: int) -> Time {
        let t = time_of_nanos(n % NANOS_PER_DAY as int);
        Time { hour: t.0 as u8, minute: t.1 as u8, second: t.2 as u8, nanosecond: t.3 as u32 }
    }

    /// The time of day that [`Time::spec_of_nanos`] gives has the components of
    /// `n` nanoseconds after midnight, wrapping around whole days.
    pub proof fn lemma_spec_of_nanos(n: int)
        ensures
            Time::spec_of_nanos(n)@ == time_of_nanos(n % NANOS_PER_DAY as int),
    {
        let m = n % NANOS_PER_DAY as int;
        assert(0 <= m < NANOS_PER_DAY as int);
        assert(0 <= m / (NANOS_PER_HOUR as int) < 24);
    }

    /// A time of day is the one [`Time::spec_of_nanos`] gives for the nanoseconds
    /// whose components it has.
    pub proof fn lemma_spec_of_nanos_eq(time: Time, n: int)
        requires
            time.inv(),
            time@ == time_of_nanos(n % NANOS_PER_DAY as int),
        ensures
            Time::spec_of_nanos(n) == time,
    {
    }
}

/// The nanoseconds after midnight that adding `d` to `time` reaches, before wrapping
/// around whole days.
pub open spec fn nanos_plus_duration(time: Time, d: core::time::Duration) -> int {
    time.spec_total_nanos() + duration_nanos_i64(duration_secs(d) as int, duration_subsec_nanos(d) as int)
}

/// The nanoseconds after midnight that subtracting `d` from `time` reaches, before
/// wrapping around whole days.
pub open spec fn nanos_minus_duration(time: Time, d: core::time::Duration) -> int {
    time.spec_total_nanos() - duration_nanos_i64(duration_secs(d) as int, duration_subsec_nanos(d) as int)
}

impl core::ops::Add<core::time::Duration> for Time {
    type Output = Time;

    /// Adds a duration, wrapping around midnight.
    fn add(self, rhs: core::time::Duration) -> (r: Time) {
        let secs = duration_as_secs(&rhs);
        let nanos = duration_nanos(&rhs);
        let (_, time) = self.add_with_duration(secs, nanos);
        proof {
            use_type_invariant(&time);
        }
        time
    }
}

impl vstd::std_specs::ops::AddSpecImpl<core::time::Duration> for Time {
    open spec fn obeys_add_spec() -> bool {
        true
    }

    open spec fn add_req(self, rhs: core::time::Duration) -> bool {
        duration_secs(rhs) <= MAXIMUM_SECONDS_FROM_DURATION ==> i64::MIN <= nanos_plus_duration(self, rhs) <= i64::MAX
    }

    open spec fn add_spec(self, rhs: core::time::Duration) -> Time {
        if duration_secs(rhs) > MAXIMUM_SECONDS_FROM_DURATION {
            self
        } else {
            Time::spec_of_nanos(nanos_plus_duration(self, rhs))
        }
    }
}

impl core::ops::Sub<core::time::Duration> for Time {
    type Output = Time;

    /// Subtracts a duration, wrapping around midnight.
    fn sub(self, rhs: core::time::Duration) -> (r: Time) {
        let secs = duration_as_secs(&rhs);
        let nanos = duration_nanos(&rhs);
        let (_, time) = self.sub_with_duration(secs, nanos);
        proof {
            use_type_invariant(&time);
        }
        time
    }
}

impl vstd::std_specs::ops::SubSpecImpl<core::time::Duration> for Time {
    open spec fn obeys_sub_spec() -> bool {
        true
    }

    open spec fn sub_req(self, rhs: core::time::Duration) -> bool {
        duration_secs(rhs) <= MAXIMUM_SECONDS_FROM_DURATION ==> i64::MIN <= nanos_minus_duration(self, rhs) <= i64::MAX
    }

    open spec fn sub_spec(self, rhs: core::time::Duration) -> Time {
        if duration_secs(rhs) > MAXIMUM_SECONDS_FROM_DURATION {
            self
        } else {
            Time::spec_of_nanos(nanos_minus_duration(self, rhs))
        }
    }
}

} // verus!
