//! Moving dates and times forward or backward by a step.
use vstd::prelude::*;

use crate::date::{spec_add_months, spec_add_years, weekday_from_sunday_index, Date, Weekday};
use crate::datetime::{spec_shift_wall_clock, DateTime};
use crate::gregorian::{spec_weekday_from_days, MAX_EPOCH_DAYS, MIN_EPOCH_DAYS};
use crate::time::{time_of_nanos, Time, NANOS_PER_DAY};
use crate::unit;

verus! {

/// A marker trait that keeps [`Advance`] implemented by this crate's types alone.
pub trait Sealed {

}

impl Sealed for Weekday {

}

impl Sealed for Time {

}

impl Sealed for unit::Year {

}

impl Sealed for unit::Month {

}

impl Sealed for unit::Week {

}

impl Sealed for unit::Day {

}

impl Sealed for unit::Hour {

}

impl Sealed for unit::Minute {

}

impl Sealed for unit::Second {

}

impl Sealed for unit::Millisecond {

}

impl Sealed for unit::Microsecond {

}

impl Sealed for unit::Nanosecond {

}

/// A sealed trait for objects that can increment or decrement a date or time.
pub trait Advance<T>: Sealed + Sized {
    /// The values of `obj` from which a step forward stays in range.
    spec fn next_ok(&self, obj: T) -> bool;

    /// The values of `obj` from which a step backward stays in range.
    spec fn prev_ok(&self, obj: T) -> bool;

    /// Whether `r` is `obj` moved one step forward.
    spec fn is_next(&self, obj: T, r: T) -> bool;

    /// Whether `r` is `obj` moved one step backward.
    spec fn is_prev(&self, obj: T, r: T) -> bool;

    /// Returns the object moved to the next step regardless if it's already at that step.
    fn next_from(self, obj: T) -> (r: T)
        requires
            self.next_ok(obj),
        ensures
            self.is_next(obj, r),
    ;

    /// Returns the object moved to the previous step regardless if it's already at that step.
    fn prev_from(self, obj: T) -> (r: T)
        requires
            self.prev_ok(obj),
        ensures
            self.is_prev(obj, r),
    ;
}

/// The ISO weekday number (Monday is 1) of the day with the given day count.
pub open spec fn weekday_number_of_days(days: int) -> int {
    weekday_from_sunday_index(spec_weekday_from_days(days)).spec_number_from_monday()
}

/// The days from a day to the next `target` weekday strictly after it: `1..=7`.
pub open spec fn days_to_next_weekday(target: Weekday, days: int) -> int {
    let diff = target.spec_number_from_monday() - weekday_number_of_days(days);
    if diff <= 0 {
        diff + 7
    } else {
        diff
    }
}

/// The days from a day to the previous `target` weekday strictly before it: `-7..=-1`.
pub open spec fn days_to_prev_weekday(target: Weekday, days: int) -> int {
    let diff = target.spec_number_from_monday() - weekday_number_of_days(days);
    if diff >= 0 {
        diff - 7
    } else {
        diff
    }
}

/// The weekday of a day count.
pub open spec fn weekday_of_days(days: int) -> Weekday {
    weekday_from_sunday_index(spec_weekday_from_days(days))
}

/// Stepping to the next `target` weekday moves one to seven days forward and lands on
/// `target`; stepping to the previous one moves one to seven days back and lands on
/// `target` too.
pub proof fn lemma_weekday_steps(target: Weekday, days: int)
    ensures
        1 <= days_to_next_weekday(target, days) <= 7,
        weekday_of_days(days + days_to_next_weekday(target, days)) == target,
        -7 <= days_to_prev_weekday(target, days) <= -1,
        weekday_of_days(days + days_to_prev_weekday(target, days)) == target,
{
    let k = (days + 4) % 7;
    let q = (days + 4) / 7;
    assert(days + 4 == 7 * q + k && 0 <= k < 7) by {
        vstd::arithmetic::div_mod::lemma_fundamental_div_mod(days + 4, 7);
    }
    let n = days_to_next_weekday(target, days);
    let p = days_to_prev_weekday(target, days);
    assert((days + n + 4) % 7 == (k + n) % 7) by {
        vstd::arithmetic::div_mod::lemma_mod_multiples_vanish(q, k + n, 7);
    }
    assert((days + p + 4) % 7 == (k + p + 7) % 7) by {
        vstd::arithmetic::div_mod::lemma_mod_multiples_vanish(q - 1, k + p + 7, 7);
    }
}

/// Returns the days from `date` to the `target` weekday strictly after it when
/// `forward`, or strictly before it otherwise.
fn weekday_step(target: Weekday, date: &Date, forward: bool) -> (r: i32)
    ensures
        forward ==> r == days_to_next_weekday(target, date.spec_days_since_epoch()),
        !forward ==> r == days_to_prev_weekday(target, date.spec_days_since_epoch()),
        -7 <= r <= 7,
{
    let diff: i32 = target.number_from_monday() as i32 - date.weekday().number_from_monday() as i32;
    if forward {
        if diff <= 0 {
            diff + 7
        } else {
            diff
        }
    } else {
        if diff >= 0 {
            diff - 7
        } else {
            diff
        }
    }
}

/// Moves a time of day by `delta` nanoseconds, wrapping around midnight, and returns
/// how many days were crossed along with the new time.
fn advance_time(time: Time, delta: i64) -> (r: (i32, Time))
    requires
        -(NANOS_PER_DAY as int) <= delta <= NANOS_PER_DAY,
    ensures
        r.0 == (time.spec_total_nanos() + delta) / (NANOS_PER_DAY as int),
        r.1@ == time_of_nanos((time.spec_total_nanos() + delta) % (NANOS_PER_DAY as int)),
{
    Time::adjust_from_nanos(time.total_nanos() as i64 + delta)
}

impl Advance<Date> for Weekday {
    open spec fn next_ok(&self, obj: Date) -> bool {
        obj.spec_days_since_epoch() + 7 <= MAX_EPOCH_DAYS
    }

    open spec fn prev_ok(&self, obj: Date) -> bool {
        MIN_EPOCH_DAYS <= obj.spec_days_since_epoch() - 7
    }

    open spec fn is_next(&self, obj: Date, r: Date) -> bool {
        r.spec_days_since_epoch() == obj.spec_days_since_epoch() + days_to_next_weekday(
            *self,
            obj.spec_days_since_epoch(),
        )
    }

    open spec fn is_prev(&self, obj: Date, r: Date) -> bool {
        r.spec_days_since_epoch() == obj.spec_days_since_epoch() + days_to_prev_weekday(
            *self,
            obj.spec_days_since_epoch(),
        )
    }

    fn next_from(self, obj: Date) -> (r: Date) {
        obj.in_range();
        obj.add_days(weekday_step(self, &obj, true))
    }

    fn prev_from(self, obj: Date) -> (r: Date) {
        obj.in_range();
        obj.add_days(weekday_step(self, &obj, false))
    }
}

impl Advance<Date> for unit::Year {
    open spec fn next_ok(&self, obj: Date) -> bool {
        obj@.0 < i16::MAX
    }

    open spec fn prev_ok(&self, obj: Date) -> bool {
        i16::MIN < obj@.0
    }

    open spec fn is_next(&self, obj: Date, r: Date) -> bool {
        r@ == spec_add_years(obj@, 1)
    }

    open spec fn is_prev(&self, obj: Date, r: Date) -> bool {
        r@ == spec_add_years(obj@, -1)
    }

    fn next_from(self, obj: Date) -> (r: Date) {
        obj.in_range();
        obj.add_years(1)
    }

    fn prev_from(self, obj: Date) -> (r: Date) {
        obj.in_range();
        obj.add_years(-1)
    }
}

impl Advance<Date> for unit::Month {
    open spec fn next_ok(&self, obj: Date) -> bool {
        true
    }

    open spec fn prev_ok(&self, obj: Date) -> bool {
        true
    }

    open spec fn is_next(&self, obj: Date, r: Date) -> bool {
        r@ == spec_add_months(obj@, 1)
    }

    open spec fn is_prev(&self, obj: Date, r: Date) -> bool {
        r@ == spec_add_months(obj@, -1)
    }

    fn next_from(self, obj: Date) -> (r: Date) {
        obj.in_range();
        obj.add_months(1)
    }

    fn prev_from(self, obj: Date) -> (r: Date) {
        obj.in_range();
        obj.add_months(-1)
    }
}

impl Advance<Date> for unit::Week {
    open spec fn next_ok(&self, obj: Date) -> bool {
        obj.spec_days_since_epoch() + 7 <= MAX_EPOCH_DAYS
    }

    open spec fn prev_ok(&self, obj: Date) -> bool {
        MIN_EPOCH_DAYS <= obj.spec_days_since_epoch() - 7
    }

    open spec fn is_next(&self, obj: Date, r: Date) -> bool {
        r.spec_days_since_epoch() == obj.spec_days_since_epoch() + 7
    }

    open spec fn is_prev(&self, obj: Date, r: Date) -> bool {
        r.spec_days_since_epoch() == obj.spec_days_since_epoch() - 7
    }

    fn next_from(self, obj: Date) -> (r: Date) {
        obj.in_range();
        obj.add_days(7)
    }

    fn prev_from(self, obj: Date) -> (r: Date) {
        obj.in_range();
        obj.add_days(-7)
    }
}

impl Advance<Date> for unit::Day {
    open spec fn next_ok(&self, obj: Date) -> bool {
        obj.spec_days_since_epoch() + 1 <= MAX_EPOCH_DAYS
    }

    open spec fn prev_ok(&self, obj: Date) -> bool {
        MIN_EPOCH_DAYS <= obj.spec_days_since_epoch() - 1
    }

    open spec fn is_next(&self, obj: Date, r: Date) -> bool {
        r.spec_days_since_epoch() == obj.spec_days_since_epoch() + 1
    }

    open spec fn is_prev(&self, obj: Date, r: Date) -> bool {
        r.spec_days_since_epoch() == obj.spec_days_since_epoch() - 1
    }

    fn next_from(self, obj: Date) -> (r: Date) {
        obj.in_range();
        obj.add_days(1)
    }

    fn prev_from(self, obj: Date) -> (r: Date) {
        obj.in_range();
        obj.add_days(-1)
    }
}

impl Advance<Time> for unit::Hour {
    open spec fn next_ok(&self, obj: Time) -> bool {
        true
    }

    open spec fn prev_ok(&self, obj: Time) -> bool {
        true
    }

    open spec fn is_next(&self, obj: Time, r: Time) -> bool {
        r@ == time_of_nanos((obj.spec_total_nanos() + 3_600_000_000_000) % (NANOS_PER_DAY as int))
    }

    open spec fn is_prev(&self, obj: Time, r: Time) -> bool {
        r@ == time_of_nanos((obj.spec_total_nanos() - 3_600_000_000_000) % (NANOS_PER_DAY as int))
    }

    fn next_from(self, obj: Time) -> (r: Time) {
        advance_time(obj, 3_600_000_000_000).1
    }

    fn prev_from(self, obj: Time) -> (r: Time) {
        advance_time(obj, -3_600_000_000_000).1
    }
}

impl Advance<Time> for unit::Minute {
    open spec fn next_ok(&self, obj: Time) -> bool {
        true
    }

    open spec fn prev_ok(&self, obj: Time) -> bool {
        true
    }

    open spec fn is_next(&self, obj: Time, r: Time) -> bool {
        r@ == time_of_nanos((obj.spec_total_nanos() + 60_000_000_000) % (NANOS_PER_DAY as int))
    }

    open spec fn is_prev(&self, obj: Time, r: Time) -> bool {
        r@ == time_of_nanos((obj.spec_total_nanos() - 60_000_000_000) % (NANOS_PER_DAY as int))
    }

    fn next_from(self, obj: Time) -> (r: Time) {
        advance_time(obj, 60_000_000_000).1
    }

    fn prev_from(self, obj: Time) -> (r: Time) {
        advance_time(obj, -60_000_000_000).1
    }
}

impl Advance<Time> for unit::Second {
    open spec fn next_ok(&self, obj: Time) -> bool {
        true
    }

    open spec fn prev_ok(&self, obj: Time) -> bool {
        true
    }

    open spec fn is_next(&self, obj: Time, r: Time) -> bool {
        r@ == time_of_nanos((obj.spec_total_nanos() + 1_000_000_000) % (NANOS_PER_DAY as int))
    }

    open spec fn is_prev(&self, obj: Time, r: Time) -> bool {
        r@ == time_of_nanos((obj.spec_total_nanos() - 1_000_000_000) % (NANOS_PER_DAY as int))
    }

    fn next_from(self, obj: Time) -> (r: Time) {
        advance_time(obj, 1_000_000_000).1
    }

    fn prev_from(self, obj: Time) -> (r: Time) {
        advance_time(obj, -1_000_000_000).1
    }
}

impl Advance<Time> for unit::Millisecond {
    open spec fn next_ok(&self, obj: Time) -> bool {
        true
    }

    open spec fn prev_ok(&self, obj: Time) -> bool {
        true
    }

    open spec fn is_next(&self, obj: Time, r: Time) -> bool {
        r@ == time_of_nanos((obj.spec_total_nanos() + 1_000_000) % (NANOS_PER_DAY as int))
    }

    open spec fn is_prev(&self, obj: Time, r: Time) -> bool {
        r@ == time_of_nanos((obj.spec_total_nanos() - 1_000_000) % (NANOS_PER_DAY as int))
    }

    fn next_from(self, obj: Time) -> (r: Time) {
        advance_time(obj, 1_000_000).1
    }

    fn prev_from(self, obj: Time) -> (r: Time) {
        advance_time(obj, -1_000_000).1
    }
}

impl Advance<Time> for unit::Microsecond {
    open spec fn next_ok(&self, obj: Time) -> bool {
        true
    }

    open spec fn prev_ok(&self, obj: Time) -> bool {
        true
    }

    open spec fn is_next(&self, obj: Time, r: Time) -> bool {
        r@ == time_of_nanos((obj.spec_total_nanos() + 1_000) % (NANOS_PER_DAY as int))
    }

    open spec fn is_prev(&self, obj: Time, r: Time) -> bool {
        r@ == time_of_nanos((obj.spec_total_nanos() - 1_000) % (NANOS_PER_DAY as int))
    }

    fn next_from(self, obj: Time) -> (r: Time) {
        advance_time(obj, 1_000).1
    }

    fn prev_from(self, obj: Time) -> (r: Time) {
        advance_time(obj, -1_000).1
    }
}

impl Advance<Time> for unit::Nanosecond {
    open spec fn next_ok(&self, obj: Time) -> bool {
        true
    }

    open spec fn prev_ok(&self, obj: Time) -> bool {
        true
    }

    open spec fn is_next(&self, obj: Time, r: Time) -> bool {
        r@ == time_of_nanos((obj.spec_total_nanos() + 1) % (NANOS_PER_DAY as int))
    }

    open spec fn is_prev(&self, obj: Time, r: Time) -> bool {
        r@ == time_of_nanos((obj.spec_total_nanos() - 1) % (NANOS_PER_DAY as int))
    }

    fn next_from(self, obj: Time) -> (r: Time) {
        advance_time(obj, 1).1
    }

    fn prev_from(self, obj: Time) -> (r: Time) {
        advance_time(obj, -1).1
    }
}

impl Advance<DateTime> for Weekday {
    open spec fn next_ok(&self, obj: DateTime) -> bool {
        obj@.0.spec_days_since_epoch() + 7 <= MAX_EPOCH_DAYS
    }

    open spec fn prev_ok(&self, obj: DateTime) -> bool {
        MIN_EPOCH_DAYS <= obj@.0.spec_days_since_epoch() - 7
    }

    open spec fn is_next(&self, obj: DateTime, r: DateTime) -> bool {
        &&& self.is_next(obj@.0, r@.0)
        &&& r@.1 == obj@.1
        &&& r@.2 == obj@.2
    }

    open spec fn is_prev(&self, obj: DateTime, r: DateTime) -> bool {
        &&& self.is_prev(obj@.0, r@.0)
        &&& r@.1 == obj@.1
        &&& r@.2 == obj@.2
    }

    fn next_from(self, obj: DateTime) -> (r: DateTime) {
        obj.with_date(self.next_from(*obj.date()))
    }

    fn prev_from(self, obj: DateTime) -> (r: DateTime) {
        obj.with_date(self.prev_from(*obj.date()))
    }
}

impl Advance<DateTime> for Time {
    open spec fn next_ok(&self, obj: DateTime) -> bool {
        self.spec_total_nanos() <= obj@.1.spec_total_nanos() ==> obj@.0.spec_days_since_epoch() + 1
            <= MAX_EPOCH_DAYS
    }

    open spec fn prev_ok(&self, obj: DateTime) -> bool {
        obj@.1.spec_total_nanos() <= self.spec_total_nanos() ==> MIN_EPOCH_DAYS
            <= obj@.0.spec_days_since_epoch() - 1
    }

    open spec fn is_next(&self, obj: DateTime, r: DateTime) -> bool {
        &&& r@.0.spec_days_since_epoch() == obj@.0.spec_days_since_epoch() + if self.spec_total_nanos()
            <= obj@.1.spec_total_nanos() {
            1int
        } else {
            0int
        }
        &&& r@.1 == *self
        &&& r@.2 == obj@.2
    }

    open spec fn is_prev(&self, obj: DateTime, r: DateTime) -> bool {
        &&& r@.0.spec_days_since_epoch() == obj@.0.spec_days_since_epoch() - if obj@.1.spec_total_nanos()
            <= self.spec_total_nanos() {
            1int
        } else {
            0int
        }
        &&& r@.1 == *self
        &&& r@.2 == obj@.2
    }

    fn next_from(self, obj: DateTime) -> (r: DateTime) {
        let date = if self.total_nanos() <= obj.time().total_nanos() {
            obj.date().in_range();
            obj.date().add_days(1)
        } else {
            *obj.date()
        };
        obj.with_date(date).with_time(self)
    }

    fn prev_from(self, obj: DateTime) -> (r: DateTime) {
        let date = if obj.time().total_nanos() <= self.total_nanos() {
            obj.date().in_range();
            obj.date().add_days(-1)
        } else {
            *obj.date()
        };
        obj.with_date(date).with_time(self)
    }
}

impl Advance<DateTime> for unit::Year {
    open spec fn next_ok(&self, obj: DateTime) -> bool {
        self.next_ok(obj@.0)
    }

    open spec fn prev_ok(&self, obj: DateTime) -> bool {
        self.prev_ok(obj@.0)
    }

    open spec fn is_next(&self, obj: DateTime, r: DateTime) -> bool {
        &&& self.is_next(obj@.0, r@.0)
        &&& r@.1 == obj@.1
        &&& r@.2 == obj@.2
    }

    open spec fn is_prev(&self, obj: DateTime, r: DateTime) -> bool {
        &&& self.is_prev(obj@.0, r@.0)
        &&& r@.1 == obj@.1
        &&& r@.2 == obj@.2
    }

    fn next_from(self, obj: DateTime) -> (r: DateTime) {
        obj.with_date(self.next_from(*obj.date()))
    }

    fn prev_from(self, obj: DateTime) -> (r: DateTime) {
        obj.with_date(self.prev_from(*obj.date()))
    }
}

impl Advance<DateTime> for unit::Month {
    open spec fn next_ok(&self, obj: DateTime) -> bool {
        self.next_ok(obj@.0)
    }

    open spec fn prev_ok(&self, obj: DateTime) -> bool {
        self.prev_ok(obj@.0)
    }

    open spec fn is_next(&self, obj: DateTime, r: DateTime) -> bool {
        &&& self.is_next(obj@.0, r@.0)
        &&& r@.1 == obj@.1
        &&& r@.2 == obj@.2
    }

    open spec fn is_prev(&self, obj: DateTime, r: DateTime) -> bool {
        &&& self.is_prev(obj@.0, r@.0)
        &&& r@.1 == obj@.1
        &&& r@.2 == obj@.2
    }

    fn next_from(self, obj: DateTime) -> (r: DateTime) {
        obj.with_date(self.next_from(*obj.date()))
    }

    fn prev_from(self, obj: DateTime) -> (r: DateTime) {
        obj.with_date(self.prev_from(*obj.date()))
    }
}

impl Advance<DateTime> for unit::Week {
    open spec fn next_ok(&self, obj: DateTime) -> bool {
        self.next_ok(obj@.0)
    }

    open spec fn prev_ok(&self, obj: DateTime) -> bool {
        self.prev_ok(obj@.0)
    }

    open spec fn is_next(&self, obj: DateTime, r: DateTime) -> bool {
        &&& self.is_next(obj@.0, r@.0)
        &&& r@.1 == obj@.1
        &&& r@.2 == obj@.2
    }

    open spec fn is_prev(&self, obj: DateTime, r: DateTime) -> bool {
        &&& self.is_prev(obj@.0, r@.0)
        &&& r@.1 == obj@.1
        &&& r@.2 == obj@.2
    }

    fn next_from(self, obj: DateTime) -> (r: DateTime) {
        obj.with_date(self.next_from(*obj.date()))
    }

    fn prev_from(self, obj: DateTime) -> (r: DateTime) {
        obj.with_date(self.prev_from(*obj.date()))
    }
}

impl Advance<DateTime> for unit::Day {
    open spec fn next_ok(&self, obj: DateTime) -> bool {
        self.next_ok(obj@.0)
    }

    open spec fn prev_ok(&self, obj: DateTime) -> bool {
        self.prev_ok(obj@.0)
    }

    open spec fn is_next(&self, obj: DateTime, r: DateTime) -> bool {
        &&& self.is_next(obj@.0, r@.0)
        &&& r@.1 == obj@.1
        &&& r@.2 == obj@.2
    }

    open spec fn is_prev(&self, obj: DateTime, r: DateTime) -> bool {
        &&& self.is_prev(obj@.0, r@.0)
        &&& r@.1 == obj@.1
        &&& r@.2 == obj@.2
    }

    fn next_from(self, obj: DateTime) -> (r: DateTime) {
        obj.with_date(self.next_from(*obj.date()))
    }

    fn prev_from(self, obj: DateTime) -> (r: DateTime) {
        obj.with_date(self.prev_from(*obj.date()))
    }
}

impl Advance<DateTime> for unit::Hour {
    open spec fn next_ok(&self, obj: DateTime) -> bool {
        MIN_EPOCH_DAYS + 1 <= obj@.0.spec_days_since_epoch() <= MAX_EPOCH_DAYS - 1
    }

    open spec fn prev_ok(&self, obj: DateTime) -> bool {
        MIN_EPOCH_DAYS + 1 <= obj@.0.spec_days_since_epoch() <= MAX_EPOCH_DAYS - 1
    }

    open spec fn is_next(&self, obj: DateTime, r: DateTime) -> bool {
        &&& (r@.0@, r@.1@) == spec_shift_wall_clock(obj@.0, obj@.1, 3_600_000_000_000)
        &&& r@.2 == obj@.2
    }

    open spec fn is_prev(&self, obj: DateTime, r: DateTime) -> bool {
        &&& (r@.0@, r@.1@) == spec_shift_wall_clock(obj@.0, obj@.1, -3_600_000_000_000)
        &&& r@.2 == obj@.2
    }

    fn next_from(self, obj: DateTime) -> (r: DateTime) {
        let mut moved = obj;
        moved.shift_nanos(3_600_000_000_000);
        moved
    }

    fn prev_from(self, obj: DateTime) -> (r: DateTime) {
        let mut moved = obj;
        moved.shift_nanos(-3_600_000_000_000);
        moved
    }
}

impl Advance<DateTime> for unit::Minute {
    open spec fn next_ok(&self, obj: DateTime) -> bool {
        MIN_EPOCH_DAYS + 1 <= obj@.0.spec_days_since_epoch() <= MAX_EPOCH_DAYS - 1
    }

    open spec fn prev_ok(&self, obj: DateTime) -> bool {
        MIN_EPOCH_DAYS + 1 <= obj@.0.spec_days_since_epoch() <= MAX_EPOCH_DAYS - 1
    }

    open spec fn is_next(&self, obj: DateTime, r: DateTime) -> bool {
        &&& (r@.0@, r@.1@) == spec_shift_wall_clock(obj@.0, obj@.1, 60_000_000_000)
        &&& r@.2 == obj@.2
    }

    open spec fn is_prev(&self, obj: DateTime, r: DateTime) -> bool {
        &&& (r@.0@, r@.1@) == spec_shift_wall_clock(obj@.0, obj@.1, -60_000_000_000)
        &&& r@.2 == obj@.2
    }

    fn next_from(self, obj: DateTime) -> (r: DateTime) {
        let mut moved = obj;
        moved.shift_nanos(60_000_000_000);
        moved
    }

    fn prev_from(self, obj: DateTime) -> (r: DateTime) {
        let mut moved = obj;
        moved.shift_nanos(-60_000_000_000);
        moved
    }
}

impl Advance<DateTime> for unit::Second {
    open spec fn next_ok(&self, obj: DateTime) -> bool {
        MIN_EPOCH_DAYS + 1 <= obj@.0.spec_days_since_epoch() <= MAX_EPOCH_DAYS - 1
    }

    open spec fn prev_ok(&self, obj: DateTime) -> bool {
        MIN_EPOCH_DAYS + 1 <= obj@.0.spec_days_since_epoch() <= MAX_EPOCH_DAYS - 1
    }

    open spec fn is_next(&self, obj: DateTime, r: DateTime) -> bool {
        &&& (r@.0@, r@.1@) == spec_shift_wall_clock(obj@.0, obj@.1, 1_000_000_000)
        &&& r@.2 == obj@.2
    }

    open spec fn is_prev(&self, obj: DateTime, r: DateTime) -> bool {
        &&& (r@.0@, r@.1@) == spec_shift_wall_clock(obj@.0, obj@.1, -1_000_000_000)
        &&& r@.2 == obj@.2
    }

    fn next_from(self, obj: DateTime) -> (r: DateTime) {
        let mut moved = obj;
        moved.shift_nanos(1_000_000_000);
        moved
    }

    fn prev_from(self, obj: DateTime) -> (r: DateTime) {
        let mut moved = obj;
        moved.shift_nanos(-1_000_000_000);
        moved
    }
}

impl Advance<DateTime> for unit::Millisecond {
    open spec fn next_ok(&self, obj: DateTime) -> bool {
        MIN_EPOCH_DAYS + 1 <= obj@.0.spec_days_since_epoch() <= MAX_EPOCH_DAYS - 1
    }

    open spec fn prev_ok(&self, obj: DateTime) -> bool {
        MIN_EPOCH_DAYS + 1 <= obj@.0.spec_days_since_epoch() <= MAX_EPOCH_DAYS - 1
    }

    open spec fn is_next(&self, obj: DateTime, r: DateTime) -> bool {
        &&& (r@.0@, r@.1@) == spec_shift_wall_clock(obj@.0, obj@.1, 1_000_000)
        &&& r@.2 == obj@.2
    }

    open spec fn is_prev(&self, obj: DateTime, r: DateTime) -> bool {
        &&& (r@.0@, r@.1@) == spec_shift_wall_clock(obj@.0, obj@.1, -1_000_000)
        &&& r@.2 == obj@.2
    }

    fn next_from(self, obj: DateTime) -> (r: DateTime) {
        let mut moved = obj;
        moved.shift_nanos(1_000_000);
        moved
    }

    fn prev_from(self, obj: DateTime) -> (r: DateTime) {
        let mut moved = obj;
        moved.shift_nanos(-1_000_000);
        moved
    }
}

impl Advance<DateTime> for unit::Microsecond {
    open spec fn next_ok(&self, obj: DateTime) -> bool {
        MIN_EPOCH_DAYS + 1 <= obj@.0.spec_days_since_epoch() <= MAX_EPOCH_DAYS - 1
    }

    open spec fn prev_ok(&self, obj: DateTime) -> bool {
        MIN_EPOCH_DAYS + 1 <= obj@.0.spec_days_since_epoch() <= MAX_EPOCH_DAYS - 1
    }

    open spec fn is_next(&self, obj: DateTime, r: DateTime) -> bool {
        &&& (r@.0@, r@.1@) == spec_shift_wall_clock(obj@.0, obj@.1, 1_000)
        &&& r@.2 == obj@.2
    }

    open spec fn is_prev(&self, obj: DateTime, r: DateTime) -> bool {
        &&& (r@.0@, r@.1@) == spec_shift_wall_clock(obj@.0, obj@.1, -1_000)
        &&& r@.2 == obj@.2
    }

    fn next_from(self, obj: DateTime) -> (r: DateTime) {
        let mut moved = obj;
        moved.shift_nanos(1_000);
        moved
    }

    fn prev_from(self, obj: DateTime) -> (r: DateTime) {
        let mut moved = obj;
        moved.shift_nanos(-1_000);
        moved
    }
}

impl Advance<DateTime> for unit::Nanosecond {
    open spec fn next_ok(&self, obj: DateTime) -> bool {
        MIN_EPOCH_DAYS + 1 <= obj@.0.spec_days_since_epoch() <= MAX_EPOCH_DAYS - 1
    }

    open spec fn prev_ok(&self, obj: DateTime) -> bool {
        MIN_EPOCH_DAYS + 1 <= obj@.0.spec_days_since_epoch() <= MAX_EPOCH_DAYS - 1
    }

    open spec fn is_next(&self, obj: DateTime, r: DateTime) -> bool {
        &&& (r@.0@, r@.1@) == spec_shift_wall_clock(obj@.0, obj@.1, 1)
        &&& r@.2 == obj@.2
    }

    open spec fn is_prev(&self, obj: DateTime, r: DateTime) -> bool {
        &&& (r@.0@, r@.1@) == spec_shift_wall_clock(obj@.0, obj@.1, -1)
        &&& r@.2 == obj@.2
    }

    fn next_from(self, obj: DateTime) -> (r: DateTime) {
        let mut moved = obj;
        moved.shift_nanos(1);
        moved
    }

    fn prev_from(self, obj: DateTime) -> (r: DateTime) {
        let mut moved = obj;
        moved.shift_nanos(-1);
        moved
    }
}

impl DateTime {
    /// Returns the date time moved to the next step of `advance`: the next occurrence
    /// of a weekday or a time of day, or one unit later.
    pub fn next<A: Advance<DateTime>>(self, advance: A) -> (r: DateTime)
        requires
            advance.next_ok(self),
        ensures
            advance.is_next(self, r),
    {
        advance.next_from(self)
    }

    /// Returns the date time moved to the previous step of `advance`: the previous
    /// occurrence of a weekday or a time of day, or one unit earlier.
    pub fn prev<A: Advance<DateTime>>(self, advance: A) -> (r: DateTime)
        requires
            advance.prev_ok(self),
        ensures
            advance.is_prev(self, r),
    {
        advance.prev_from(self)
    }
}

} // verus!
