//! A builder to construct dates and times from their components.
use vstd::prelude::*;

use crate::date::{spec_iso_week_date_days, Date, IsoWeekDate, Weekday};
use crate::datetime::DateTime;
use crate::error::Error;
use crate::fmt::spec_ordinal_date;
use crate::gregorian::{clamp_i16, date_of_epoch_days, is_valid_date, spec_is_leap_year};
use crate::timezone::UtcOffset;

verus! {

/// The components held by a [`Builder`]: the optional year, the month, the day, the
/// optional ordinal, the optional ISO week, the optional weekday, the optional
/// meridiem (`true` for PM), the hour, the minute, the second, the nanosecond, and
/// the offset from UTC.
pub type BuilderView = (
    Option<int>,
    int,
    int,
    Option<int>,
    Option<int>,
    Option<Weekday>,
    Option<bool>,
    int,
    int,
    int,
    int,
    (int, int, int),
);

/// A builder to construct a [`Date`], [`crate::time::Time`], or [`DateTime`] instance.
///
/// This builder is useful if constructing an instance from multiple different
/// sources of input and there's a need to only do validation at the very end rather
/// than at every step of the way.
///
/// If any component is not given then the defaults are as follows:
///
/// - Hour, minute, seconds, and nanoseconds default to `0`.
/// - Month and day default to `1`.
/// - Year defaults to `1970`.
#[derive(Debug, Clone, Copy)]
pub struct Builder {
    year: Option<i16>,
    month: u8,
    day: u8,
    ordinal: Option<u16>,
    iso_week: Option<u8>,
    weekday: Option<Weekday>,
    pm: Option<bool>,
    hour: u8,
    minute: u8,
    second: u8,
    nanosecond: u32,
    offset: UtcOffset,
}

/// An optional integer as a mathematical integer.
pub open spec fn opt_int_i16(v: Option<i16>) -> Option<int> {
    match v {
        Some(x) => Some(x as int),
        None => None,
    }
}

/// An optional integer as a mathematical integer.
pub open spec fn opt_int_u16(v: Option<u16>) -> Option<int> {
    match v {
        Some(x) => Some(x as int),
        None => None,
    }
}

/// An optional integer as a mathematical integer.
pub open spec fn opt_int_u8(v: Option<u8>) -> Option<int> {
    match v {
        Some(x) => Some(x as int),
        None => None,
    }
}

impl View for Builder {
    type V = BuilderView;

    closed spec fn view(&self) -> BuilderView {
        (
            opt_int_i16(self.year),
            self.month as int,
            self.day as int,
            opt_int_u16(self.ordinal),
            opt_int_u8(self.iso_week),
            self.weekday,
            self.pm,
            self.hour as int,
            self.minute as int,
            self.second as int,
            self.nanosecond as int,
            self.offset@,
        )
    }
}

/// The date that a builder's components describe: from the ordinal and year when both
/// are given, else from the ISO week and year (Monday when no weekday is given), else
/// from the year (1970 when not given), month and day.
pub open spec fn spec_build_date(b: BuilderView) -> Result<(int, int, int), Error> {
    if b.3 is Some && b.0 is Some {
        let year = b.0->0;
        let ordinal = b.3->0;
        if 1 <= ordinal <= if spec_is_leap_year(year) { 366int } else { 365int } {
            Ok(spec_ordinal_date(year, ordinal))
        } else {
            Err(Error::OutOfRange)
        }
    } else if b.4 is Some && b.0 is Some {
        let year = b.0->0;
        let week = b.4->0;
        let weekday = if b.5 is Some { b.5->0 } else { Weekday::Monday };
        if 1 <= week <= crate::date::spec_iso_weeks_in_year(year) {
            let d = date_of_epoch_days(spec_iso_week_date_days(year, week, weekday));
            Ok((clamp_i16(d.0), d.1, d.2))
        } else {
            Err(Error::OutOfRange)
        }
    } else {
        let year = if b.0 is Some { b.0->0 } else { 1970 };
        if is_valid_date(year, b.1, b.2) {
            Ok((year, b.1, b.2))
        } else {
            Err(Error::OutOfRange)
        }
    }
}

/// The hour of the day on a 24-hour clock that a builder's hour and meridiem describe.
pub open spec fn spec_hour24(hour: int, pm: Option<bool>) -> int {
    match pm {
        Some(false) => if hour == 12 { 0 } else { hour },
        Some(true) => if hour == 12 { 12 } else { hour + 12 },
        None => hour,
    }
}

/// The time of day that a builder's components describe.
pub open spec fn spec_build_time(b: BuilderView) -> Result<(int, int, int, int), Error> {
    let hour = spec_hour24(b.7, b.6);
    if hour < 24 && b.8 < 60 && b.9 < 60 && b.10 <= 1_999_999_999 {
        Ok((hour, b.8, b.9, b.10))
    } else {
        Err(Error::OutOfRange)
    }
}

impl Builder {
    /// Creates a new [`Builder`] at UTC.
    pub fn new() -> (r: Builder)
        ensures
            r@.0 == None::<int> && r@.1 == 1 && r@.2 == 1 && r@.3 == None::<int> && r@.4 == None::<int>,
            r@.5 == None::<Weekday> && r@.6 == None::<bool>,
            r@.7 == 0 && r@.8 == 0 && r@.9 == 0 && r@.10 == 0,
            r@.11 == (0int, 0int, 0int),
    {
        Builder {
            year: None,
            month: 1,
            day: 1,
            ordinal: None,
            iso_week: None,
            weekday: None,
            pm: None,
            hour: 0,
            minute: 0,
            second: 0,
            nanosecond: 0,
            offset: UtcOffset::utc(),
        }
    }

    /// Sets the date to the given year.
    ///
    /// This does *not* do any bound checking. The final build step does.
    pub fn year(&mut self, year: i16) -> (r: &mut Builder)
        ensures
            *final(self) == *final(r),
            r@ == (Some(year as int), old(self)@.1, old(self)@.2, old(self)@.3, old(self)@.4, old(self)@.5, old(self)@.6, old(self)@.7, old(self)@.8, old(self)@.9, old(self)@.10, old(self)@.11),
    {
        self.year = Some(year);
        self
    }

    /// Sets the date to the given month.
    ///
    /// This does *not* do any bound checking. The final build step does.
    pub fn month(&mut self, month: u8) -> (r: &mut Builder)
        ensures
            *final(self) == *final(r),
            r@ == (old(self)@.0, month as int, old(self)@.2, old(self)@.3, old(self)@.4, old(self)@.5, old(self)@.6, old(self)@.7, old(self)@.8, old(self)@.9, old(self)@.10, old(self)@.11),
    {
        self.month = month;
        self
    }

    /// Sets the date to the given day.
    ///
    /// This does *not* do any bound checking. The final build step does.
    pub fn day(&mut self, day: u8) -> (r: &mut Builder)
        ensures
            *final(self) == *final(r),
            r@ == (old(self)@.0, old(self)@.1, day as int, old(self)@.3, old(self)@.4, old(self)@.5, old(self)@.6, old(self)@.7, old(self)@.8, old(self)@.9, old(self)@.10, old(self)@.11),
    {
        self.day = day;
        self
    }

    /// Sets the date to the given weekday.
    ///
    /// This does *not* do any bound checking. The final build step does.
    pub fn weekday(&mut self, weekday: Weekday) -> (r: &mut Builder)
        ensures
            *final(self) == *final(r),
            r@ == (old(self)@.0, old(self)@.1, old(self)@.2, old(self)@.3, old(self)@.4, Some(weekday), old(self)@.6, old(self)@.7, old(self)@.8, old(self)@.9, old(self)@.10, old(self)@.11),
    {
        self.weekday = Some(weekday);
        self
    }

    /// Sets the date to the given ISO week.
    ///
    /// This does *not* do any bound checking. The final build step does.
    pub fn iso_week(&mut self, iso_week: u8) -> (r: &mut Builder)
        ensures
            *final(self) == *final(r),
            r@ == (old(self)@.0, old(self)@.1, old(self)@.2, old(self)@.3, Some(iso_week as int), old(self)@.5, old(self)@.6, old(self)@.7, old(self)@.8, old(self)@.9, old(self)@.10, old(self)@.11),
    {
        self.iso_week = Some(iso_week);
        self
    }

    /// Sets the date to the given ordinal day.
    ///
    /// This does *not* do any bound checking. The final build step does.
    pub fn ordinal(&mut self, ordinal: u16) -> (r: &mut Builder)
        ensures
            *final(self) == *final(r),
            r@ == (old(self)@.0, old(self)@.1, old(self)@.2, Some(ordinal as int), old(self)@.4, old(self)@.5, old(self)@.6, old(self)@.7, old(self)@.8, old(self)@.9, old(self)@.10, old(self)@.11),
    {
        self.ordinal = Some(ordinal);
        self
    }

    /// Sets the time to the given hour.
    ///
    /// This does *not* do any bound checking. The final build step does.
    pub fn hour(&mut self, hour: u8) -> (r: &mut Builder)
        ensures
            *final(self) == *final(r),
            r@ == (old(self)@.0, old(self)@.1, old(self)@.2, old(self)@.3, old(self)@.4, old(self)@.5, old(self)@.6, hour as int, old(self)@.8, old(self)@.9, old(self)@.10, old(self)@.11),
    {
        self.hour = hour;
        self
    }

    /// Sets the time to the given minute.
    ///
    /// This does *not* do any bound checking. The final build step does.
    pub fn minute(&mut self, minute: u8) -> (r: &mut Builder)
        ensures
            *final(self) == *final(r),
            r@ == (old(self)@.0, old(self)@.1, old(self)@.2, old(self)@.3, old(self)@.4, old(self)@.5, old(self)@.6, old(self)@.7, minute as int, old(self)@.9, old(self)@.10, old(self)@.11),
    {
        self.minute = minute;
        self
    }

    /// Sets the time to the given second.
    ///
    /// This does *not* do any bound checking. The final build step does.
    pub fn second(&mut self, second: u8) -> (r: &mut Builder)
        ensures
            *final(self) == *final(r),
            r@ == (old(self)@.0, old(self)@.1, old(self)@.2, old(self)@.3, old(self)@.4, old(self)@.5, old(self)@.6, old(self)@.7, old(self)@.8, second as int, old(self)@.10, old(self)@.11),
    {
        self.second = second;
        self
    }

    /// Sets the time to the given millisecond.
    ///
    /// This does *not* do any bound checking. The final build step does.
    pub fn millisecond(&mut self, millisecond: u16) -> (r: &mut Builder)
        requires
            millisecond <= 4294,
        ensures
            *final(self) == *final(r),
            r@ == (old(self)@.0, old(self)@.1, old(self)@.2, old(self)@.3, old(self)@.4, old(self)@.5, old(self)@.6, old(self)@.7, old(self)@.8, old(self)@.9, millisecond * 1_000_000, old(self)@.11),
    {
        self.nanosecond = millisecond as u32 * 1_000_000;
        self
    }

    /// Sets the time to the given nanosecond.
    ///
    /// This does *not* do any bound checking. The final build step does.
    pub fn nanosecond(&mut self, nanosecond: u32) -> (r: &mut Builder)
        ensures
            *final(self) == *final(r),
            r@ == (old(self)@.0, old(self)@.1, old(self)@.2, old(self)@.3, old(self)@.4, old(self)@.5, old(self)@.6, old(self)@.7, old(self)@.8, old(self)@.9, nanosecond as int, old(self)@.11),
    {
        self.nanosecond = nanosecond;
        self
    }

    /// Sets the time to the given microsecond.
    ///
    /// This does *not* do any bound checking. The final build step does.
    pub fn microsecond(&mut self, microsecond: u32) -> (r: &mut Builder)
        requires
            microsecond <= 4_294_967,
        ensures
            *final(self) == *final(r),
            r@ == (old(self)@.0, old(self)@.1, old(self)@.2, old(self)@.3, old(self)@.4, old(self)@.5, old(self)@.6, old(self)@.7, old(self)@.8, old(self)@.9, microsecond * 1_000, old(self)@.11),
    {
        self.nanosecond = microsecond * 1_000;
        self
    }

    /// Sets the time to use 12-hour clock in `AM`.
    pub fn am(&mut self) -> (r: &mut Builder)
        ensures
            *final(self) == *final(r),
            r@ == (old(self)@.0, old(self)@.1, old(self)@.2, old(self)@.3, old(self)@.4, old(self)@.5, Some(false), old(self)@.7, old(self)@.8, old(self)@.9, old(self)@.10, old(self)@.11),
    {
        self.pm = Some(false);
        self
    }

    /// Sets the time to use 12-hour clock in `PM`.
    pub fn pm(&mut self) -> (r: &mut Builder)
        ensures
            *final(self) == *final(r),
            r@ == (old(self)@.0, old(self)@.1, old(self)@.2, old(self)@.3, old(self)@.4, old(self)@.5, Some(true), old(self)@.7, old(self)@.8, old(self)@.9, old(self)@.10, old(self)@.11),
    {
        self.pm = Some(true);
        self
    }

    /// Turns a second of 60 into second 59 with a billion more nanoseconds.
    pub(crate) fn fix_leap_seconds(&mut self)
        requires
            old(self)@.9 == 60 ==> old(self)@.10 < 3_294_967_296,
        ensures
            old(self)@.9 == 60 ==> final(self)@ == (old(self)@.0, old(self)@.1, old(self)@.2, old(self)@.3, old(self)@.4, old(self)@.5, old(self)@.6, old(self)@.7, old(self)@.8, 59int, old(self)@.10 + 1_000_000_000, old(self)@.11),
            old(self)@.9 != 60 ==> final(self)@ == old(self)@,
    {
        if self.second == 60 {
            self.second = 59;
            self.nanosecond = self.nanosecond + 1_000_000_000;
        }
    }

    /// Sets the offset from UTC.
    ///
    /// This does *not* do any time modification.
    pub fn timezone(self, offset: UtcOffset) -> (r: Builder)
        ensures
            r@ == (self@.0, self@.1, self@.2, self@.3, self@.4, self@.5, self@.6, self@.7, self@.8, self@.9, self@.10, offset@),
    {
        Builder { offset, ..self }
    }

    /// Sets the offset from UTC in place.
    pub(crate) fn set_offset(&mut self, offset: UtcOffset)
        ensures
            final(self)@ == (old(self)@.0, old(self)@.1, old(self)@.2, old(self)@.3, old(self)@.4, old(self)@.5, old(self)@.6, old(self)@.7, old(self)@.8, old(self)@.9, old(self)@.10, offset@),
    {
        self.offset = offset;
    }

    /// Builds the final [`DateTime`] with the given components.
    ///
    /// If the components represent an invalid date time then an [`Error`] is returned.
    pub fn build(&self) -> (r: Result<DateTime, Error>)
        ensures
            r is Ok <==> spec_build_date(self@) is Ok && spec_build_time(self@) is Ok,
            r matches Ok(dt) ==> Ok::<(int, int, int), Error>(dt@.0@) == spec_build_date(self@) && Ok::<
                (int, int, int, int),
                Error,
            >(dt@.1@) == spec_build_time(self@) && dt@.2@ == self@.11,
            r matches Err(e) ==> e == Error::OutOfRange,
    {
        let date = self.build_date()?;
        let time = self.build_time()?;
        Ok(DateTime::from_components(date, time, self.offset))
    }

    /// Builds the final [`Date`] with the given components.
    ///
    /// A date is built with the following priority:
    ///
    /// 1. If an ordinal and year is given, then calculate it using that.
    /// 2. If an ISO week and year is given, then calculate using Monday as the weekday.
    /// 3. If an ISO week, weekday, and year is given then calculate using that.
    /// 4. Calculate the date using the provided values or with their defaults.
    ///
    /// If the components represent an invalid date then an [`Error`] is returned.
    pub fn build_date(&self) -> (r: Result<Date, Error>)
        ensures
            match spec_build_date(self@) {
                Ok(d) => r matches Ok(x) && x@ == d,
                Err(e) => r == Err::<Date, Error>(e),
            },
    {
        if let (Some(ordinal), Some(year)) = (self.ordinal, self.year) {
            match Date::from_ordinal(year, ordinal) {
                Ok(d) => {
                    d.in_range();
                    proof {
                        crate::fmt::lemma_ordinal_date(year as int, d@.1, d@.2, ordinal as int);
                    }
                    Ok(d)
                },
                Err(e) => Err(e),
            }
        } else if let (Some(week), Some(year)) = (self.iso_week, self.year) {
            let weekday = match self.weekday {
                Some(w) => w,
                None => Weekday::Monday,
            };
            let iso = IsoWeekDate::new(year, week, weekday)?;
            Ok(Date::from_iso_week_date(iso))
        } else {
            let year = match self.year {
                Some(y) => y,
                None => 1970,
            };
            Date::new(year, self.month, self.day)
        }
    }

    /// Builds the final [`crate::time::Time`] with the given components.
    ///
    /// If either [`Self::am`] or [`Self::pm`] are called then the time is assumed to be in
    /// 12-hour clock with a range of `1..=12`. If they're not called then 24-hour time
    /// is assumed.
    ///
    /// If the components represent an invalid time then an [`Error`] is returned.
    pub fn build_time(&self) -> (r: Result<crate::time::Time, Error>)
        ensures
            match spec_build_time(self@) {
                Ok(t) => r matches Ok(x) && x@ == t,
                Err(e) => r == Err::<crate::time::Time, Error>(e),
            },
    {
        let hour: u8 = match self.pm {
            Some(false) => if self.hour == 12 {
                0
            } else {
                self.hour
            },
            Some(true) => if self.hour == 12 {
                12
            } else if self.hour > 23 {
                return Err(Error::OutOfRange);
            } else {
                self.hour + 12
            },
            None => self.hour,
        };
        crate::time::Time::new(hour, self.minute, self.second)?.with_nanosecond(self.nanosecond)
    }
}

/// With a meridiem set, an hour on the 12-hour clock (0 to 12) becomes its hour on the
/// 24-hour clock: both agree modulo twelve, the hours before noon (AM) are below
/// twelve and the hours after it (PM) are twelve or more. So 12 AM is midnight, hour
/// 0, and 12 PM is noon, hour 12.
pub proof fn lemma_meridiem_hour(b: BuilderView)
    requires
        0 <= b.7 <= 12,
        b.6 is Some,
        0 <= b.8 < 60,
        0 <= b.9 < 60,
        0 <= b.10 < 1_000_000_000,
    ensures
        spec_build_time(b) is Ok,
        spec_build_time(b)->Ok_0.0 % 12 == b.7 % 12,
        0 <= spec_build_time(b)->Ok_0.0 < 24,
        spec_build_time(b)->Ok_0.0 < 12 <==> b.6 == Some(false),
        (spec_build_time(b)->Ok_0.1, spec_build_time(b)->Ok_0.2, spec_build_time(b)->Ok_0.3) == (b.8, b.9, b.10),
{
}

} // verus!
