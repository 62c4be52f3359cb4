//! Calendar dates, weekdays and ISO week dates.
use vstd::prelude::*;

use crate::error::Error;
use crate::gregorian::{
    clamp_i16, date_of_epoch_days, is_valid_date, spec_days_before_month, spec_days_in_month,
    spec_epoch_days, spec_is_leap_year, spec_weekday_from_days, MAX_EPOCH_DAYS, MIN_EPOCH_DAYS,
};

verus! {

/// An enum representing the different weekdays.
///
/// Due to different orderings of weekdays, this type does not implement `PartialOrd` or `Ord`. Some
/// cultures place either Friday, Saturday, Sunday, or Monday as the first day.
#[derive(Debug, Clone, Copy, PartialEq, Eq, Structural, Hash)]
pub enum Weekday {
    Monday,
    Tuesday,
    Wednesday,
    Thursday,
    Friday,
    Saturday,
    Sunday,
}

/// The weekday with the given number of days from Sunday (`0..=6`).
pub open spec fn weekday_from_sunday_index(w: int) -> Weekday {
    if w == 0 {
        Weekday::Sunday
    } else if w == 1 {
        Weekday::Monday
    } else if w == 2 {
        Weekday::Tuesday
    } else if w == 3 {
        Weekday::Wednesday
    } else if w == 4 {
        Weekday::Thursday
    } else if w == 5 {
        Weekday::Friday
    } else {
        Weekday::Saturday
    }
}

impl Weekday {
    /// The ISO number of the weekday: Monday is 1 and Sunday is 7.
    pub open spec fn spec_number_from_monday(self) -> int {
        match self {
            Weekday::Monday => 1,
            Weekday::Tuesday => 2,
            Weekday::Wednesday => 3,
            Weekday::Thursday => 4,
            Weekday::Friday => 5,
            Weekday::Saturday => 6,
            Weekday::Sunday => 7,
        }
    }

    /// The number of days from Sunday: Sunday is 0 and Saturday is 6.
    pub open spec fn spec_days_from_sunday(self) -> int {
        self.spec_number_from_monday() % 7
    }

    /// Returns the next weekday.
    pub fn next(self) -> (r: Weekday)
        ensures
            r.spec_number_from_monday() == self.spec_number_from_monday() % 7 + 1,
    {
        match self {
            Weekday::Monday => Weekday::Tuesday,
            Weekday::Tuesday => Weekday::Wednesday,
            Weekday::Wednesday => Weekday::Thursday,
            Weekday::Thursday => Weekday::Friday,
            Weekday::Friday => Weekday::Saturday,
            Weekday::Saturday => Weekday::Sunday,
            Weekday::Sunday => Weekday::Monday,
        }
    }

    /// Return the previous weekday.
    pub fn prev(self) -> (r: Weekday)
        ensures
            r.spec_number_from_monday() == (self.spec_number_from_monday() + 5) % 7 + 1,
    {
        match self {
            Weekday::Monday => Weekday::Sunday,
            Weekday::Tuesday => Weekday::Monday,
            Weekday::Wednesday => Weekday::Tuesday,
            Weekday::Thursday => Weekday::Wednesday,
            Weekday::Friday => Weekday::Thursday,
            Weekday::Saturday => Weekday::Friday,
            Weekday::Sunday => Weekday::Saturday,
        }
    }

    /// Returns the day of the week number starting from Monday. This is also known as the ISO weekday.
    pub fn number_from_monday(self) -> (r: u8)
        ensures
            r == self.spec_number_from_monday(),
    {
        match self {
            Weekday::Monday => 1,
            Weekday::Tuesday => 2,
            Weekday::Wednesday => 3,
            Weekday::Thursday => 4,
            Weekday::Friday => 5,
            Weekday::Saturday => 6,
            Weekday::Sunday => 7,
        }
    }

    /// Returns the day of the week number starting from Sunday: Sunday is 1 and Saturday is 7.
    pub fn number_from_sunday(self) -> (r: u8)
        ensures
            r == self.spec_days_from_sunday() + 1,
    {
        match self {
            Weekday::Monday => 2,
            Weekday::Tuesday => 3,
            Weekday::Wednesday => 4,
            Weekday::Thursday => 5,
            Weekday::Friday => 6,
            Weekday::Saturday => 7,
            Weekday::Sunday => 1,
        }
    }

    /// Returns the number of days from Monday.
    pub fn days_from_monday(self) -> (r: u8)
        ensures
            r == self.spec_number_from_monday() - 1,
    {
        match self {
            Weekday::Monday => 0,
            Weekday::Tuesday => 1,
            Weekday::Wednesday => 2,
            Weekday::Thursday => 3,
            Weekday::Friday => 4,
            Weekday::Saturday => 5,
            Weekday::Sunday => 6,
        }
    }

    /// Returns the number of days from Sunday.
    pub fn days_from_sunday(self) -> (r: u8)
        ensures
            r == self.spec_days_from_sunday(),
    {
        match self {
            Weekday::Monday => 1,
            Weekday::Tuesday => 2,
            Weekday::Wednesday => 3,
            Weekday::Thursday => 4,
            Weekday::Friday => 5,
            Weekday::Saturday => 6,
            Weekday::Sunday => 0,
        }
    }

    /// Returns the weekday that is `w` days from Sunday (`0..=6`).
    pub fn from_days_from_sunday(w: u8) -> (r: Weekday)
        requires
            w <= 6,
        ensures
            r == weekday_from_sunday_index(w as int),
            r.spec_days_from_sunday() == w,
    {
        match w {
            0 => Weekday::Sunday,
            1 => Weekday::Monday,
            2 => Weekday::Tuesday,
            3 => Weekday::Wednesday,
            4 => Weekday::Thursday,
            5 => Weekday::Friday,
            _ => Weekday::Saturday,
        }
    }
}

/// Represents a date in the ISO 8601 week date system.
///
/// The ISO year is made up of either 52 or 53 weeks, where a week always starts on
/// Monday and always ends on Sunday even if the boundary would not make sense
/// in a traditional Gregorian calendar. The first week of an ISO year begins on
/// the Monday of the week that holds the year's first Thursday.
#[derive(Debug, Clone, Copy, PartialEq, Eq, Structural, Hash)]
pub struct IsoWeekDate {
    year: i16,
    week: u8,
    weekday: Weekday,
}

impl View for IsoWeekDate {
    type V = (int, int, Weekday);

    closed spec fn view(&self) -> (int, int, Weekday) {
        (self.year as int, self.week as int, self.weekday)
    }
}

impl IsoWeekDate {
    /// Two values with the same view are the same value.
    pub proof fn lemma_view_eq(a: IsoWeekDate, b: IsoWeekDate)
        requires
            a@ == b@,
        ensures
            a == b,
    {
    }
}

/// The number of ISO weeks of a year: 53 when December 31st is a Thursday, or the
/// year before ends on a Wednesday; 52 otherwise.
pub open spec fn spec_iso_weeks_in_year(year: int) -> int {
    if spec_weekday_from_days(spec_epoch_days(year, 12, 31)) == 4 || spec_weekday_from_days(
        spec_epoch_days(year - 1, 12, 31),
    ) == 3 {
        53
    } else {
        52
    }
}

/// The day count of the day of an ISO week date.
pub open spec fn spec_iso_week_date_days(year: int, week: int, weekday: Weekday) -> int {
    crate::gregorian::spec_iso_week_start(year) + (week - 1) * 7 + weekday.spec_number_from_monday() - 1
}

/// The day count on which the ISO week containing day `days` of a date in `year` starts.
pub open spec fn spec_iso_week_start_for(year: int, days: int) -> int {
    let start = crate::gregorian::spec_iso_week_start(year);
    if days < start {
        crate::gregorian::spec_iso_week_start(year - 1)
    } else if days >= crate::gregorian::spec_iso_week_start(year + 1) {
        crate::gregorian::spec_iso_week_start(year + 1)
    } else {
        start
    }
}

/// The ISO week date of a date: the year holds the Thursday of its week.
pub open spec fn spec_iso_week_of(date: (int, int, int)) -> (int, int, Weekday) {
    let days = spec_epoch_days(date.0, date.1, date.2);
    let start = spec_iso_week_start_for(date.0, days);
    (
        date_of_epoch_days(start + 3).0,
        (days - start) / 7 + 1,
        weekday_from_sunday_index(spec_weekday_from_days(days)),
    )
}

impl IsoWeekDate {
    /// Weeks are numbered from 1 to 53.
    #[verifier::type_invariant]
    pub open spec fn inv(&self) -> bool {
        1 <= self@.1 <= 53
    }

    /// Creates a new [`IsoWeekDate`] from the given year, week, and weekday.
    ///
    /// # Errors
    ///
    /// If the week is out of bounds for the given year.
    pub fn new(year: i16, week: u8, weekday: Weekday) -> (r: Result<IsoWeekDate, Error>)
        ensures
            r is Ok <==> 1 <= week <= spec_iso_weeks_in_year(year as int),
            r matches Ok(d) ==> d@ == (year as int, week as int, weekday),
            r matches Err(e) ==> e == Error::OutOfRange,
    {
        if week < 1 || week > crate::gregorian::iso_weeks_in_year(year) {
            return Err(Error::OutOfRange);
        }
        Ok(IsoWeekDate { year, week, weekday })
    }

    /// Returns the ISO year.
    ///
    /// Note that the ISO year might be different from the Gregorian year.
    pub fn year(&self) -> (r: i16)
        ensures
            r == self@.0,
    {
        self.year
    }

    /// Returns the ISO week. This value will always be within `1..=53`.
    pub fn week(&self) -> (r: u8)
        ensures
            r == self@.1,
            1 <= r <= 53,
    {
        proof {
            use_type_invariant(self);
        }
        self.week
    }

    /// Returns the ISO weekday.
    pub fn weekday(&self) -> (r: Weekday)
        ensures
            r == self@.2,
    {
        self.weekday
    }
}

/// A day `e` on or after a Monday `start` lies `(e - start) / 7` whole weeks and a
/// weekday offset after it.
proof fn lemma_week_decompose(start: int, e: int)
    requires
        start <= e,
        spec_weekday_from_days(start) == 1,
    ensures
        start + ((e - start) / 7) * 7 + weekday_from_sunday_index(spec_weekday_from_days(e)).spec_number_from_monday() - 1 == e,
{
    let w = spec_weekday_from_days(e);
    assert((w + 6) % 7 == (e - start) % 7);
    assert(weekday_from_sunday_index(w).spec_number_from_monday() - 1 == (w + 6) % 7);
}

/// Converting a date to its ISO week date and back gives the date again.
pub proof fn lemma_iso_week_roundtrip(date: (int, int, int))
    requires
        is_valid_date(date.0, date.1, date.2),
        i16::MIN < date.0 < i16::MAX,
    ensures
        i16::MIN <= spec_iso_week_of(date).0 <= i16::MAX,
        1 <= spec_iso_week_of(date).1 <= 53,
        spec_iso_week_date_days(spec_iso_week_of(date).0, spec_iso_week_of(date).1, spec_iso_week_of(date).2)
            == spec_epoch_days(date.0, date.1, date.2),
        date_of_epoch_days(
            spec_iso_week_date_days(spec_iso_week_of(date).0, spec_iso_week_of(date).1, spec_iso_week_of(date).2),
        ) == date,
{
    let y = date.0;
    let e = spec_epoch_days(date.0, date.1, date.2);
    crate::gregorian::lemma_epoch_days_within_year(y, date.1, date.2);
    crate::gregorian::lemma_epoch_days_within_year(y - 1, 12, 31);
    crate::gregorian::lemma_days_before_month_values(y);
    crate::gregorian::lemma_days_before_month_values(y + 1);
    crate::gregorian::lemma_days_before_month_values(y - 1);
    crate::gregorian::lemma_iso_year_length(y - 1);
    crate::gregorian::lemma_iso_year_length(y);
    crate::gregorian::lemma_iso_year_length(y + 1);
    let start = spec_iso_week_start_for(y, e);
    assert(start <= e <= start + 370);
    let year_of_start = if e < crate::gregorian::spec_iso_week_start(y) {
        y - 1
    } else if e >= crate::gregorian::spec_iso_week_start(y + 1) {
        y + 1
    } else {
        y
    };
    assert(start == crate::gregorian::spec_iso_week_start(year_of_start));
    crate::gregorian::lemma_iso_week_start_year(year_of_start);
    crate::gregorian::lemma_iso_year_length(year_of_start);
    assert(spec_iso_week_of(date).0 == year_of_start);
    lemma_week_decompose(start, e);
    crate::gregorian::lemma_epoch_days_roundtrip(date.0, date.1, date.2);
}

/// The number of days, one to seven, from weekday `from` forward to the next `to`.
pub open spec fn forward_days(from: Weekday, to: Weekday) -> int {
    let diff = to.spec_number_from_monday() - from.spec_number_from_monday();
    if diff <= 0 { diff + 7 } else { diff }
}

/// The date reached by moving `months` months from a date, keeping the day when
/// the target month has it and otherwise using the target month's last day.
/// The year saturates at the bounds of `i16`.
pub open spec fn spec_add_months(date: (int, int, int), months: int) -> (int, int, int) {
    let total = date.1 - 1 + months;
    let year = clamp_i16(date.0 + total / 12);
    let month = total % 12 + 1;
    let dim = spec_days_in_month(year, month);
    (year, month, if date.2 < dim { date.2 } else { dim })
}

/// The date reached by moving `years` years from a date, using the last day of
/// the month when the day does not exist in the target year.
pub open spec fn spec_add_years(date: (int, int, int), years: int) -> (int, int, int) {
    let year = date.0 + years;
    let dim = spec_days_in_month(year, date.1);
    (year, date.1, if date.2 < dim { date.2 } else { dim })
}

/// Represents a concrete date in the proleptic Gregorian calendar.
#[derive(Debug, Clone, Copy, PartialEq, Eq, Structural, PartialOrd, Ord, Hash)]
pub struct Date {
    year: i16,
    month: u8,
    day: u8,
}

impl View for Date {
    type V = (int, int, int);

    closed spec fn view(&self) -> (int, int, int) {
        (self.year as int, self.month as int, self.day as int)
    }
}

impl Date {
    /// Two values with the same view are the same value.
    pub proof fn lemma_view_eq(a: Date, b: Date)
        requires
            a@ == b@,
        ensures
            a == b,
    {
    }
}

impl Date {
    /// A date always names an existing day whose year fits in an `i16`.
    #[verifier::type_invariant]
    pub open spec fn inv(&self) -> bool {
        &&& is_valid_date(self@.0, self@.1, self@.2)
        &&& i16::MIN <= self@.0 <= i16::MAX
    }

    /// The number of days from 1970-01-01 to this date.
    pub open spec fn spec_days_since_epoch(&self) -> int {
        spec_epoch_days(self@.0, self@.1, self@.2)
    }

    /// The date with the given day count, for a count of a date with an `i16` year.
    pub fn from_epoch_days(days: i32) -> (r: Date)
        requires
            MIN_EPOCH_DAYS <= days <= MAX_EPOCH_DAYS,
        ensures
            r@ == date_of_epoch_days(days as int),
            r.spec_days_since_epoch() == days,
    {
        proof {
            crate::gregorian::lemma_date_of_epoch_days(days as int);
            crate::gregorian::lemma_epoch_days_year_in_range(days as int);
        }
        let (year, month, day) = crate::gregorian::date_from_epoch_days(days);
        Date { year, month, day }
    }

    /// Represents a [`Date`] at the unix epoch (January 1st, 1970).
    pub fn unix_epoch() -> (r: Date)
        ensures
            r@ == (1970int, 1int, 1int),
            r.spec_days_since_epoch() == 0,
    {
        Date { year: 1970, month: 1, day: 1 }
    }

    /// The smallest date, January 1st of year -32768.
    pub fn min_date() -> (r: Date)
        ensures
            r@ == (i16::MIN as int, 1int, 1int),
    {
        Date { year: i16::MIN, month: 1, day: 1 }
    }

    /// The largest date, December 31st of year 32767.
    pub fn max_date() -> (r: Date)
        ensures
            r@ == (i16::MAX as int, 12int, 31int),
    {
        Date { year: i16::MAX, month: 12, day: 31 }
    }

    /// Creates a new [`Date`] from a given year, month, and day.
    ///
    /// The month must be between `1..=12` and the day must be between `1..=31`.
    /// Note that the day has to be valid for the specified month, i.e. February
    /// must be either 28 or 29 days depending on the year.
    pub fn new(year: i16, month: u8, day: u8) -> (r: Result<Date, Error>)
        ensures
            r is Ok <==> is_valid_date(year as int, month as int, day as int),
            r matches Ok(d) ==> d@ == (year as int, month as int, day as int),
            r matches Err(e) ==> e == Error::OutOfRange,
    {
        if month < 1 || month > 12 {
            return Err(Error::OutOfRange);
        }
        if day < 1 || day > crate::gregorian::days_in_month(year, month) {
            return Err(Error::OutOfRange);
        }
        Ok(Date { year, month, day })
    }

    /// Returns the year.
    ///
    /// Note that year 0 is equivalent to 1 BC (or BCE) and year 1 is equivalent
    /// to 1 AD (or CE).
    pub fn year(&self) -> (r: i16)
        ensures
            r == self@.0,
    {
        self.year
    }

    /// Returns the month. This value will always be within `1..=12`.
    pub fn month(&self) -> (r: u8)
        ensures
            r == self@.1,
            1 <= r <= 12,
    {
        proof {
            use_type_invariant(self);
        }
        self.month
    }

    /// Returns the day. This value will always be within `1..=31`.
    pub fn day(&self) -> (r: u8)
        ensures
            r == self@.2,
            1 <= r <= 31,
    {
        proof {
            use_type_invariant(self);
        }
        self.day
    }

    /// Returns the ISO ordinal date.
    ///
    /// January 1st is 1 and December 31st is either 365 or 366 depending on leap year.
    pub fn ordinal(&self) -> (r: u16)
        ensures
            r == spec_days_before_month(self@.0, self@.1) + self@.2,
    {
        proof {
            use_type_invariant(self);
        }
        crate::gregorian::date_to_ordinal(self.year, self.month, self.day)
    }

    /// Returns the number of days since the UNIX Epoch (1970-01-01).
    /// Brings the facts that every date keeps into a caller's proof: it names an
    /// existing day, and its day count lies in the supported range.
    pub(crate) fn in_range(&self)
        ensures
            is_valid_date(self@.0, self@.1, self@.2),
            i16::MIN <= self@.0 <= i16::MAX,
            MIN_EPOCH_DAYS <= self.spec_days_since_epoch() <= MAX_EPOCH_DAYS,
    {
        proof {
            use_type_invariant(self);
            crate::gregorian::lemma_epoch_days_bounds(self@.0, self@.1, self@.2);
        }
    }

    pub fn days_since_epoch(&self) -> (r: i32)
        ensures
            r == self.spec_days_since_epoch(),
            MIN_EPOCH_DAYS <= r <= MAX_EPOCH_DAYS,
    {
        proof {
            use_type_invariant(self);
            crate::gregorian::lemma_epoch_days_bounds(self@.0, self@.1, self@.2);
        }
        crate::gregorian::date_to_epoch_days(self.year, self.month, self.day)
    }

    /// Returns the weekday.
    pub fn weekday(&self) -> (r: Weekday)
        ensures
            r.spec_days_from_sunday() == spec_weekday_from_days(self.spec_days_since_epoch()),
            r == weekday_from_sunday_index(spec_weekday_from_days(self.spec_days_since_epoch())),
    {
        let days = self.days_since_epoch();
        let d = crate::gregorian::weekday_from_days(days);
        Weekday::from_days_from_sunday(d)
    }

    /// Returns a [`Date`] moved to the next date where the given [`Weekday`] falls,
    /// one to seven days later.
    pub fn next_weekday(self, weekday: Weekday) -> (r: Date)
        requires
            self.spec_days_since_epoch() + 7 <= MAX_EPOCH_DAYS,
        ensures
            r.spec_days_since_epoch() == self.spec_days_since_epoch() + forward_days(
                weekday_from_sunday_index(spec_weekday_from_days(self.spec_days_since_epoch())),
                weekday,
            ),
            1 <= r.spec_days_since_epoch() - self.spec_days_since_epoch() <= 7,
            spec_weekday_from_days(r.spec_days_since_epoch()) == weekday.spec_days_from_sunday(),
    {
        proof {
            use_type_invariant(&self);
            crate::gregorian::lemma_epoch_days_bounds(self@.0, self@.1, self@.2);
        }
        let current = self.weekday();
        let diff: i8 = weekday.number_from_monday() as i8 - current.number_from_monday() as i8;
        let k: i32 = if diff <= 0 { diff as i32 + 7 } else { diff as i32 };
        self.add_days(k)
    }

    /// Returns a [`Date`] moved to the previous date where the given [`Weekday`] fell,
    /// one to seven days earlier.
    pub fn prev_weekday(self, weekday: Weekday) -> (r: Date)
        requires
            MIN_EPOCH_DAYS <= self.spec_days_since_epoch() - 7,
        ensures
            r.spec_days_since_epoch() == self.spec_days_since_epoch() - forward_days(
                weekday,
                weekday_from_sunday_index(spec_weekday_from_days(self.spec_days_since_epoch())),
            ),
            1 <= self.spec_days_since_epoch() - r.spec_days_since_epoch() <= 7,
            spec_weekday_from_days(r.spec_days_since_epoch()) == weekday.spec_days_from_sunday(),
    {
        proof {
            use_type_invariant(&self);
            crate::gregorian::lemma_epoch_days_bounds(self@.0, self@.1, self@.2);
        }
        let current = self.weekday();
        let diff: i8 = weekday.number_from_monday() as i8 - current.number_from_monday() as i8;
        let k: i32 = if diff >= 0 { diff as i32 - 7 } else { diff as i32 };
        self.add_days(k)
    }

    /// Returns a new [`Date`] that points to the given year.
    ///
    /// A day that does not exist in that year becomes the last day of its month:
    /// February 29th moved to a common year is February 28th.
    pub fn with_year(self, year: i16) -> (r: Date)
        ensures
            r@ == spec_add_years(self@, year - self@.0),
    {
        proof {
            use_type_invariant(&self);
        }
        let days = crate::gregorian::days_in_month(year, self.month);
        let day = if days < self.day { days } else { self.day };
        Date { year, month: self.month, day }
    }

    /// Returns a new [`Date`] that points to the given month.
    /// If the month is out of bounds (`1..=12`) or if the month
    /// does not have as many days as is currently specified then
    /// an [`Error`] is returned.
    pub fn with_month(self, month: u8) -> (r: Result<Date, Error>)
        ensures
            r is Ok <==> is_valid_date(self@.0, month as int, self@.2),
            r matches Ok(d) ==> d@ == (self@.0, month as int, self@.2),
            r matches Err(e) ==> e == Error::OutOfRange,
    {
        proof {
            use_type_invariant(&self);
        }
        if month < 1 || month > 12 {
            return Err(Error::OutOfRange);
        }
        if self.day > crate::gregorian::days_in_month(self.year, month) {
            return Err(Error::OutOfRange);
        }
        Ok(Date { month, ..self })
    }

    /// Returns a new [`Date`] that points to the given day.
    /// If the day does not exist in the month then an [`Error`] is returned.
    pub fn with_day(self, day: u8) -> (r: Result<Date, Error>)
        ensures
            r is Ok <==> is_valid_date(self@.0, self@.1, day as int),
            r matches Ok(d) ==> d@ == (self@.0, self@.1, day as int),
            r matches Err(e) ==> e == Error::OutOfRange,
    {
        proof {
            use_type_invariant(&self);
        }
        if day < 1 || day > crate::gregorian::days_in_month(self.year, self.month) {
            return Err(Error::OutOfRange);
        }
        Ok(Date { day, ..self })
    }

    /// Creates a date from the given year and ordinal date.
    ///
    /// If the ordinal is out of bounds (`1..=366`) then an [`Error`] is returned.
    /// Note that 366 is also invalid if the year is not a leap year.
    pub fn from_ordinal(year: i16, ordinal: u16) -> (r: Result<Date, Error>)
        ensures
            r is Ok <==> 1 <= ordinal <= if spec_is_leap_year(year as int) { 366int } else { 365int },
            r matches Ok(d) ==> d@.0 == year && spec_days_before_month(year as int, d@.1) + d@.2 == ordinal,
            r matches Err(e) ==> e == Error::OutOfRange,
    {
        proof {
            crate::gregorian::lemma_days_before_month_values(year as int);
        }
        if ordinal < 1 || ordinal > 366 {
            return Err(Error::OutOfRange);
        }
        if ordinal == 366 && !crate::gregorian::is_leap_year(year) {
            return Err(Error::OutOfRange);
        }
        let mut month: u8 = 1;
        while month < 12 && ordinal > crate::gregorian::days_before_month(year, month + 1)
            invariant
                1 <= month <= 12,
                ordinal > spec_days_before_month(year as int, month as int),
                1 <= ordinal <= if spec_is_leap_year(year as int) { 366int } else { 365int },
                spec_days_before_month(year as int, 13) == 365 + if spec_is_leap_year(year as int) { 1int } else { 0int },
            decreases 12 - month,
        {
            month = month + 1;
        }
        proof {
            assert(spec_days_before_month(year as int, month + 1) == spec_days_before_month(year as int, month as int)
                + spec_days_in_month(year as int, month as int));
        }
        let day = ordinal - crate::gregorian::days_before_month(year, month);
        Ok(Date { year, month, day: day as u8 })
    }

    /// Returns `true` if this date is on or before `other`.
    pub fn is_on_or_before(&self, other: &Date) -> (r: bool)
        ensures
            r == (self.spec_days_since_epoch() <= other.spec_days_since_epoch()),
    {
        self.days_since_epoch() <= other.days_since_epoch()
    }

    /// Returns the ISO week date for this date.
    pub fn iso_week(&self) -> (r: IsoWeekDate)
        requires
            i16::MIN < self@.0 < i16::MAX,
        ensures
            r@ == spec_iso_week_of(self@),
    {
        proof {
            use_type_invariant(self);
            let y = self@.0;
            let e = self.spec_days_since_epoch();
            crate::gregorian::lemma_epoch_days_within_year(y, self@.1, self@.2);
            crate::gregorian::lemma_epoch_days_within_year(y - 1, 12, 31);
            crate::gregorian::lemma_days_before_month_values(y);
            crate::gregorian::lemma_days_before_month_values(y + 1);
            crate::gregorian::lemma_days_before_month_values(y - 1);
            crate::gregorian::lemma_iso_year_length(y - 1);
            crate::gregorian::lemma_iso_year_length(y);
            crate::gregorian::lemma_iso_year_length(y + 1);
            let start = spec_iso_week_start_for(y, e);
            assert(start <= e <= start + 370);
            crate::gregorian::lemma_epoch_days_bounds(y, self@.1, self@.2);
            crate::gregorian::lemma_iso_week_start_year(y - 1);
            crate::gregorian::lemma_iso_week_start_year(y);
            crate::gregorian::lemma_iso_week_start_year(y + 1);
        }
        let epoch = self.days_since_epoch();
        let start_epoch = crate::gregorian::find_iso_week_start_epoch(self.year, epoch);
        let weekday = crate::gregorian::weekday_from_days(epoch);
        let week: i32 = (epoch - start_epoch) / 7 + 1;
        let (year, _, _) = crate::gregorian::date_from_epoch_days(start_epoch + 3);
        IsoWeekDate { year, week: week as u8, weekday: Weekday::from_days_from_sunday(weekday) }
    }

    /// Converts an ISO week date to the date it names.
    ///
    /// The year saturates at the bounds of `i16`; this only happens in the first or last
    /// week of the range.
    pub fn from_iso_week_date(iso: IsoWeekDate) -> (r: Date)
        ensures
            r@.1 == date_of_epoch_days(spec_iso_week_date_days(iso@.0, iso@.1, iso@.2)).1,
            r@.2 == date_of_epoch_days(spec_iso_week_date_days(iso@.0, iso@.1, iso@.2)).2,
            r@.0 == clamp_i16(date_of_epoch_days(spec_iso_week_date_days(iso@.0, iso@.1, iso@.2)).0),
    {
        proof {
            use_type_invariant(&iso);
            let y = iso@.0;
            let e = spec_iso_week_date_days(iso@.0, iso@.1, iso@.2);
            crate::gregorian::lemma_iso_year_length(y);
            crate::gregorian::lemma_days_before_month_values(y);
            crate::gregorian::lemma_days_before_month_values(y - 1);
            crate::gregorian::lemma_days_before_month_values(y + 1);
            crate::gregorian::lemma_epoch_days_within_year(y - 1, 12, 31);
            crate::gregorian::lemma_epoch_days_within_year(y, 12, 31);
            crate::gregorian::lemma_date_of_epoch_days(e);
            crate::gregorian::lemma_epoch_days_bounds(y, 1, 4);
            let (ey, em, ed) = date_of_epoch_days(e);
            crate::gregorian::lemma_epoch_days_within_year(ey, em, ed);
            assert(spec_epoch_days(y - 1, 12, 29) <= e <= spec_epoch_days(y + 1, 1, 31));
            if ey < y - 1 {
                crate::gregorian::lemma_days_before_year_monotone(ey + 1, y - 1);
            } else if ey > y + 1 {
                crate::gregorian::lemma_days_before_year_monotone(y + 2, ey);
            }
            crate::gregorian::lemma_days_before_month_values(ey);
            if ey == y - 1 {
                assert(em == 12 && ed >= 29);
            } else if ey == y + 1 {
                assert(em == 1);
            }
        }
        let epoch: i32 = crate::gregorian::iso_week_start_epoch_from_year(iso.year) + (iso.week as i32 - 1) * 7
            + iso.weekday.days_from_monday() as i32;
        let (year, month, day) = crate::gregorian::date_from_epoch_days(epoch);
        Date { year, month, day }
    }

    /// Returns the date `days` days after this one.
    pub fn add_days(&self, days: i32) -> (r: Date)
        requires
            MIN_EPOCH_DAYS <= self.spec_days_since_epoch() + days <= MAX_EPOCH_DAYS,
        ensures
            r.spec_days_since_epoch() == self.spec_days_since_epoch() + days,
            r@ == date_of_epoch_days(self.spec_days_since_epoch() + days),
    {
        proof {
            use_type_invariant(self);
            crate::gregorian::lemma_epoch_days_roundtrip(self@.0, self@.1, self@.2);
        }
        if days == 0 {
            return *self;
        }
        let days = self.days_since_epoch() + days;
        Date::from_epoch_days(days)
    }

    /// Returns the date `months` months after this one, clamping the day to the
    /// last day of the target month and the year to the range of `i16`.
    pub fn add_months(&self, months: i32) -> (r: Date)
        requires
            i32::MIN < self@.1 - 1 + months <= i32::MAX,
        ensures
            r@ == spec_add_months(self@, months as int),
    {
        proof {
            use_type_invariant(self);
        }
        if months == 0 {
            return *self;
        }
        let m: i32 = self.month as i32 - 1 + months;
        let (years, rem) = crate::utils::divmod_i32(m, 12);
        let month: u8 = (rem + 1) as u8;
        let total: i32 = self.year as i32 + years;
        let year: i16 = if total > i16::MAX as i32 {
            i16::MAX
        } else if total < i16::MIN as i32 {
            i16::MIN
        } else {
            total as i16
        };
        let days = crate::gregorian::days_in_month(year, month);
        let day = if days < self.day { days } else { self.day };
        Date { year, month, day }
    }

    /// Returns the date `years` years after this one, clamping the day to the
    /// last day of the month in the target year.
    pub fn add_years(&self, years: i16) -> (r: Date)
        requires
            i16::MIN <= self@.0 + years <= i16::MAX,
        ensures
            r@ == spec_add_years(self@, years as int),
    {
        proof {
            use_type_invariant(self);
        }
        if years == 0 {
            return *self;
        }
        let year = self.year + years;
        let days = crate::gregorian::days_in_month(year, self.month);
        let day = if days < self.day { days } else { self.day };
        Date { year, month: self.month, day }
    }
}

impl Date {
    /// The date `days` days after 1970-01-01.
    pub closed spec fn spec_from_epoch_days(days: int) -> Date {
        let d = date_of_epoch_days(days);
        Date { year: d.0 as i16, month: d.1 as u8, day: d.2 as u8 }
    }

    /// A date is the one [`Date::spec_from_epoch_days`] gives for its day count.
    pub proof fn lemma_spec_from_epoch_days(date: Date)
        requires
            date.inv(),
        ensures
            Date::spec_from_epoch_days(date.spec_days_since_epoch()) == date,
    {
        crate::gregorian::lemma_epoch_days_roundtrip(date@.0, date@.1, date@.2);
    }

    /// The date an ISO week date names, its year saturating at the bounds of `i16`.
    pub closed spec fn spec_from_iso_week_date(iso: IsoWeekDate) -> Date {
        let d = date_of_epoch_days(spec_iso_week_date_days(iso@.0, iso@.1, iso@.2));
        Date { year: clamp_i16(d.0) as i16, month: d.1 as u8, day: d.2 as u8 }
    }
}

impl From<IsoWeekDate> for Date {
    /// Converts an ISO week date to the date it names.
    fn from(iso: IsoWeekDate) -> (r: Date) {
        let d = Date::from_iso_week_date(iso);
        proof {
            use_type_invariant(&d);
        }
        d
    }
}

impl vstd::std_specs::convert::FromSpecImpl<IsoWeekDate> for Date {
    open spec fn obeys_from_spec() -> bool {
        true
    }

    open spec fn from_spec(v: IsoWeekDate) -> Date {
        Date::spec_from_iso_week_date(v)
    }
}

} // verus!
