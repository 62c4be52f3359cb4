//! Recurrences of date times: a start, an interval between the occurrences, and
//! optionally a weekday and a time of day that each occurrence falls on and a bound
//! that ends the recurrence.
use vstd::prelude::*;

use crate::date::{forward_days, spec_add_months, weekday_from_sunday_index, Weekday};
use crate::datetime::{spec_compare_instants, DateTime};
use crate::gregorian::{date_of_epoch_days, spec_epoch_days, spec_weekday_from_days, MAX_EPOCH_DAYS, MIN_EPOCH_DAYS};
use crate::interval::{spec_interval_nanos, Interval, MICROS_PER_SEC};
use crate::time::{time_of_nanos, Time, NANOS_PER_DAY};

verus! {

/// The nanoseconds of the time part of an interval, as adding the interval to a
/// date time counts them.
fn interval_nanos(interval: &Interval) -> (r: i128)
    ensures
        r == spec_interval_nanos(interval@.2),
{
    let (sub, secs, nanos) = interval.get_time_duration();
    let d: i64 = (secs as u128 * 1_000_000_000u128 + nanos as u128) as i64;
    proof {
        let q = interval@.2 / (MICROS_PER_SEC as int);
        assert(nanos == (interval@.2 % (MICROS_PER_SEC as int)) * 1000);
        assert(sub ==> secs == -q);
        assert(!sub ==> secs == q);
    }
    if sub {
        -(d as i128)
    } else {
        d as i128
    }
}

/// The nanoseconds after midnight that the wall clock of `start` reaches when the
/// time part of `interval` is added, before whole days are carried.
pub open spec fn step_nanos(start: DateTime, interval: Interval) -> int {
    start@.1.spec_total_nanos() + spec_interval_nanos(interval@.2)
}

/// The day count that adding `interval` to `start` reaches: its months, then its
/// days and the whole days carried from the time part.
pub open spec fn step_days(start: DateTime, interval: Interval) -> int {
    let m = spec_add_months(start@.0@, interval@.0);
    spec_epoch_days(m.0, m.1, m.2) + interval@.1 + step_nanos(start, interval) / (NANOS_PER_DAY as int)
}

/// The day count `days`, moved forward to the next `weekday` when it does not fall on it.
pub open spec fn on_weekday(days: int, weekday: Option<Weekday>) -> int {
    match weekday {
        Some(w) => {
            let current = weekday_from_sunday_index(spec_weekday_from_days(days));
            if current != w {
                days + forward_days(current, w)
            } else {
                days
            }
        },
        None => days,
    }
}

/// Whether the next occurrence after `start` stays within the supported dates and the
/// counts that adding an interval uses.
pub open spec fn step_in_range(start: DateTime, interval: Interval, weekday: Option<Weekday>) -> bool {
    let n = step_nanos(start, interval);
    let days = step_days(start, interval);
    &&& i64::MIN <= n <= i64::MAX
    &&& i32::MIN < start@.0@.1 - 1 + interval@.0 <= i32::MAX
    &&& i32::MIN <= interval@.1 + n / (NANOS_PER_DAY as int) <= i32::MAX
    &&& MIN_EPOCH_DAYS <= days <= MAX_EPOCH_DAYS
    &&& weekday is Some ==> days + 7 <= MAX_EPOCH_DAYS
}

/// An iterator builder over a [`DateTime`] recurrence.
///
/// This struct is created via [`DateTime::every`].
pub struct Every {
    start: DateTime,
    interval: Interval,
    until: Option<DateTime>,
    weekday: Option<Weekday>,
    time: Option<Time>,
}

impl View for Every {
    type V = (DateTime, Interval, Option<DateTime>, Option<Weekday>, Option<Time>);

    /// The start, the interval, the bound, the weekday and the time of day.
    closed spec fn view(&self) -> (DateTime, Interval, Option<DateTime>, Option<Weekday>, Option<Time>) {
        (self.start, self.interval, self.until, self.weekday, self.time)
    }
}

impl Every {
    /// Creates a recurrence from a start and the interval between occurrences.
    pub fn new(start: DateTime, interval: Interval) -> (r: Every)
        ensures
            r@ == (start, interval, None::<DateTime>, None::<Weekday>, None::<Time>),
    {
        Every { start, interval, until: None, weekday: None, time: None }
    }

    /// Sets the time that the recurrence must fall on.
    ///
    /// Setting the time of the recurrence takes priority over the time part of the
    /// interval.
    pub fn at(self, time: Time) -> (r: Every)
        ensures
            r@ == (self@.0, self@.1, self@.2, self@.3, Some(time)),
    {
        Every { time: Some(time), ..self }
    }

    /// Sets the weekday that the recurrence must fall on.
    ///
    /// The date is shifted until it falls on this weekday.
    pub fn on(self, weekday: Weekday) -> (r: Every)
        ensures
            r@ == (self@.0, self@.1, self@.2, Some(weekday), self@.4),
    {
        Every { weekday: Some(weekday), ..self }
    }

    /// Sets the upper bound of the recurrence: the last occurrence is at or before it.
    pub fn until(self, dt: DateTime) -> (r: Every)
        ensures
            r@ == (self@.0, self@.1, Some(dt), self@.3, self@.4),
    {
        Every { until: Some(dt), ..self }
    }

    /// Starts the recurrence: the start is moved to the weekday, when one is set and
    /// the start does not fall on it, and takes the time of day, when one is set.
    pub fn build(self) -> (r: EveryIter)
        requires
            self@.3 is Some ==> self@.0@.0.spec_days_since_epoch() + 7 <= MAX_EPOCH_DAYS,
        ensures
            r@.0@.0.spec_days_since_epoch() == on_weekday(self@.0@.0.spec_days_since_epoch(), self@.3),
            r@.0@.1 == (match self@.4 {
                Some(t) => t,
                None => self@.0@.1,
            }),
            r@.0@.2 == self@.0@.2,
            (r@.1, r@.2, r@.3, r@.4, r@.5) == (self@.1, self@.2, self@.3, self@.4, false),
    {
        let mut start = self.start;
        if let Some(weekday) = self.weekday {
            let date = *start.date();
            if date.weekday() != weekday {
                start = start.with_date(date.next_weekday(weekday));
            }
        }
        if let Some(time) = self.time {
            start = start.with_time(time);
        }
        EveryIter {
            start,
            interval: self.interval,
            until: self.until,
            weekday: self.weekday,
            time: self.time,
            finished: false,
        }
    }
}

/// The occurrences of a recurrence, one after another.
pub struct EveryIter {
    start: DateTime,
    interval: Interval,
    until: Option<DateTime>,
    weekday: Option<Weekday>,
    time: Option<Time>,
    finished: bool,
}

impl View for EveryIter {
    type V = (DateTime, Interval, Option<DateTime>, Option<Weekday>, Option<Time>, bool);

    /// The next occurrence, the interval, the bound, the weekday, the time of day, and
    /// whether the occurrences have run out.
    closed spec fn view(&self) -> (DateTime, Interval, Option<DateTime>, Option<Weekday>, Option<Time>, bool) {
        (self.start, self.interval, self.until, self.weekday, self.time, self.finished)
    }
}

/// Whether a recurrence has ended: its occurrences ran out of the supported dates, or
/// its next occurrence is after its bound.
pub open spec fn every_ended(s: (DateTime, Interval, Option<DateTime>, Option<Weekday>, Option<Time>, bool)) -> bool {
    s.5 || (s.2 matches Some(u) && spec_compare_instants(s.0, u) > 0)
}

impl EveryIter {
    /// Returns the next occurrence and moves on by the interval: the months and days
    /// move the date and the time part the wall clock, carrying whole days; then the
    /// date moves on to the weekday and the wall clock takes the time of day, when these
    /// are set.
    ///
    /// Returns `None`, and stays where it is, once the next occurrence is after
    /// the bound. When the occurrence after the one returned would leave the supported
    /// dates, the recurrence runs out after it.
    pub fn next(&mut self) -> (r: Option<DateTime>)
        ensures
            every_ended(old(self)@) ==> r is None && final(self)@ == old(self)@,
            !every_ended(old(self)@) ==> r == Some(old(self)@.0),
            !every_ended(old(self)@) && !step_in_range(old(self)@.0, old(self)@.1, old(self)@.3) ==> final(self)@ == (
                old(self)@.0,
                old(self)@.1,
                old(self)@.2,
                old(self)@.3,
                old(self)@.4,
                true,
            ),
            !every_ended(old(self)@) && step_in_range(old(self)@.0, old(self)@.1, old(self)@.3) ==> {
                let s = old(self)@;
                let n = step_nanos(s.0, s.1);
                &&& final(self)@.0@.0@ == date_of_epoch_days(on_weekday(step_days(s.0, s.1), s.3))
                &&& final(self)@.0@.1@ == (match s.4 {
                    Some(t) => t@,
                    None => time_of_nanos(n % (NANOS_PER_DAY as int)),
                })
                &&& final(self)@.0@.2 == s.0@.2
                &&& (final(self)@.1, final(self)@.2, final(self)@.3, final(self)@.4, final(self)@.5) == (
                    s.1,
                    s.2,
                    s.3,
                    s.4,
                    false,
                )
            },
    {
        if self.finished {
            return None;
        }
        if let Some(until) = &self.until {
            if self.start.compare_instants(until) > 0 {
                return None;
            }
        }
        let start = self.start;
        let interval = self.interval;
        let n: i128 = start.time().total_nanos() as i128 + interval_nanos(&interval);
        if n < i64::MIN as i128 || n > i64::MAX as i128 {
            self.finished = true;
            return Some(start);
        }
        let month: i64 = start.month() as i64 - 1 + interval.total_months() as i64;
        if month <= i32::MIN as i64 || month > i32::MAX as i64 {
            self.finished = true;
            return Some(start);
        }
        let (carried, _) = crate::utils::divmod_i64(n as i64, NANOS_PER_DAY as i64);
        let day_shift: i64 = interval.days() as i64 + carried;
        if day_shift < i32::MIN as i64 || day_shift > i32::MAX as i64 {
            self.finished = true;
            return Some(start);
        }
        let moved = start.date().add_months(interval.total_months());
        let days: i64 = moved.days_since_epoch() as i64 + day_shift;
        if days < MIN_EPOCH_DAYS as i64 || days > MAX_EPOCH_DAYS as i64 {
            self.finished = true;
            return Some(start);
        }
        if self.weekday.is_some() && days + 7 > MAX_EPOCH_DAYS as i64 {
            self.finished = true;
            return Some(start);
        }
        let mut next = start.add_interval(interval);
        proof {
            crate::gregorian::lemma_date_of_epoch_days(days as int);
            assert(days == step_days(start, interval));
            assert(next@.0.spec_days_since_epoch() == days);
        }
        if let Some(weekday) = self.weekday {
            let date = *next.date();
            if date.weekday() != weekday {
                next = next.with_date(date.next_weekday(weekday));
            }
        }
        let final_date = *next.date();
        proof {
            use_type_invariant(&final_date);
            crate::gregorian::lemma_epoch_days_roundtrip(final_date@.0, final_date@.1, final_date@.2);
            assert(final_date.spec_days_since_epoch() == on_weekday(days as int, self.weekday));
        }
        if let Some(time) = self.time {
            next = next.with_time(time);
        }
        self.start = next;
        Some(start)
    }
}

impl DateTime {
    /// Returns a recurrence that starts at this date time and repeats every `interval`.
    pub fn every(self, interval: Interval) -> (r: Every)
        ensures
            r@ == (self, interval, None::<DateTime>, None::<Weekday>, None::<Time>),
    {
        Every::new(self, interval)
    }
}

} // verus!
