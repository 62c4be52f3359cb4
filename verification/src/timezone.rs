//! Offsets from UTC and the resolution of local times.
use vstd::prelude::*;

use crate::date::Date;
use crate::datetime::{spec_shift_wall_clock, DateTime};
use crate::error::Error;
use crate::gregorian::{MAX_EPOCH_DAYS, MIN_EPOCH_DAYS};
use crate::time::{Time, NANOS_PER_DAY};
use crate::timestamp::Timestamp;
use crate::utils::{trunc_div, trunc_rem};

verus! {

/// The components `(hours, minutes, seconds)` of an offset of `total` seconds; each
/// component carries the sign of `total`.
pub open spec fn spec_offset_components(total: int) -> (int, int, int) {
    (trunc_div(total, 3600), trunc_div(trunc_rem(total, 3600), 60), trunc_rem(trunc_rem(total, 3600), 60))
}

/// The components given to [`UtcOffset::from_hms`] after their signs were made to agree:
/// minutes and seconds take the sign of the hours, and with zero hours the seconds
/// take the sign of the minutes unless these are zero too.
pub open spec fn spec_normalized_hms(hours: int, minutes: int, seconds: int) -> (int, int, int) {
    if hours < 0 {
        (hours, if minutes > 0 { -minutes } else { minutes }, if seconds > 0 { -seconds } else { seconds })
    } else if hours > 0 {
        (hours, if minutes < 0 { -minutes } else { minutes }, if seconds < 0 { -seconds } else { seconds })
    } else {
        (hours, minutes, if (minutes > 0 && seconds < 0) || (minutes < 0 && seconds > 0) {
            -seconds
        } else {
            seconds
        })
    }
}

/// An offset from UTC.
///
/// This struct can only store values up to ±24:00:00.
#[derive(Debug, Copy, Clone, PartialEq, Eq, Structural, Hash)]
pub struct UtcOffset {
    hours: i8,
    minutes: i8,
    seconds: i8,
}

impl View for UtcOffset {
    type V = (int, int, int);

    closed spec fn view(&self) -> (int, int, int) {
        (self.hours as int, self.minutes as int, self.seconds as int)
    }
}

impl UtcOffset {
    /// Two values with the same view are the same value.
    pub proof fn lemma_view_eq(a: UtcOffset, b: UtcOffset)
        requires
            a@ == b@,
        ensures
            a == b,
    {
    }
}

impl UtcOffset {
    /// The components of an offset are those of its total number of seconds, which
    /// is within ±24 hours.
    #[verifier::type_invariant]
    pub open spec fn inv(&self) -> bool {
        &&& -86400 <= self.spec_total_seconds() <= 86400
        &&& self@ == spec_offset_components(self.spec_total_seconds())
    }

    /// The total number of seconds of the offset.
    pub open spec fn spec_total_seconds(&self) -> int {
        self@.0 * 3600 + self@.1 * 60 + self@.2
    }

    /// The [`UtcOffset`] representing UTC.
    pub fn utc() -> (r: UtcOffset)
        ensures
            r@ == (0int, 0int, 0int),
            r.spec_total_seconds() == 0,
    {
        UtcOffset { hours: 0, minutes: 0, seconds: 0 }
    }

    /// The smallest possible [`UtcOffset`], -24:00:00.
    pub fn min_offset() -> (r: UtcOffset)
        ensures
            r@ == (-24int, 0int, 0int),
            r.spec_total_seconds() == -86400,
    {
        UtcOffset { hours: -24, minutes: 0, seconds: 0 }
    }

    /// The largest possible [`UtcOffset`], +24:00:00.
    pub fn max_offset() -> (r: UtcOffset)
        ensures
            r@ == (24int, 0int, 0int),
            r.spec_total_seconds() == 86400,
    {
        UtcOffset { hours: 24, minutes: 0, seconds: 0 }
    }

    /// Creates a new [`UtcOffset`] from the given number of hours, minutes, and seconds.
    ///
    /// The sign of all three components should match. If they do not, all components will
    /// have their signs flipped to match the `hour` sign.
    ///
    /// The values must be within the range of ±24:00:00.
    pub fn from_hms(hours: i8, minutes: i8, seconds: i8) -> (r: Option<UtcOffset>)
        ensures
            r is Some <==> {
                &&& -24 <= hours <= 24
                &&& -59 <= minutes <= 59
                &&& -59 <= seconds <= 59
                &&& {
                    let n = spec_normalized_hms(hours as int, minutes as int, seconds as int);
                    -86400 <= n.0 * 3600 + n.1 * 60 + n.2 <= 86400
                }
            },
            r matches Some(o) ==> {
                let n = spec_normalized_hms(hours as int, minutes as int, seconds as int);
                &&& o.spec_total_seconds() == n.0 * 3600 + n.1 * 60 + n.2
                &&& o@ == spec_offset_components(n.0 * 3600 + n.1 * 60 + n.2)
            },
    {
        if hours > 24 || hours < -24 || minutes > 59 || minutes < -59 || seconds > 59 || seconds < -59 {
            return None;
        }
        let mut minutes = minutes;
        let mut seconds = seconds;
        if hours < 0 {
            if minutes > 0 {
                minutes = -minutes;
            }
            if seconds > 0 {
                seconds = -seconds;
            }
        } else if hours > 0 {
            if minutes < 0 {
                minutes = -minutes;
            }
            if seconds < 0 {
                seconds = -seconds;
            }
        } else {
            // With no hours the seconds take the sign of the minutes, if there are any.
            if (minutes > 0 && seconds < 0) || (minutes < 0 && seconds > 0) {
                seconds = -seconds;
            }
        }
        let total: i32 = hours as i32 * 3600 + minutes as i32 * 60 + seconds as i32;
        UtcOffset::from_seconds(total)
    }

    /// Creates a new [`UtcOffset`] from a total number of seconds.
    /// The value must be between `-86400..=86400`.
    pub fn from_seconds(seconds: i32) -> (r: Option<UtcOffset>)
        ensures
            r is Some <==> -86400 <= seconds <= 86400,
            r matches Some(o) ==> o.spec_total_seconds() == seconds && o@ == spec_offset_components(
                seconds as int,
            ),
    {
        if seconds > 86400 || seconds < -86400 {
            return None;
        }
        Some(UtcOffset::from_seconds_unchecked(seconds))
    }

    /// Creates a new [`UtcOffset`] from a total number of seconds known to be in range.
    pub fn from_seconds_unchecked(seconds: i32) -> (r: UtcOffset)
        requires
            -86400 <= seconds <= 86400,
        ensures
            r.spec_total_seconds() == seconds,
            r@ == spec_offset_components(seconds as int),
    {
        let (hours, rem) = crate::utils::divrem_i32(seconds, 3600);
        let (minutes, secs) = crate::utils::divrem_i32(rem, 60);
        proof {
            let t = seconds as int;
            assert(trunc_rem(t, 3600) == t - 3600 * trunc_div(t, 3600));
            assert(trunc_rem(trunc_rem(t, 3600), 60) == trunc_rem(t, 3600) - 60 * trunc_div(
                trunc_rem(t, 3600),
                60,
            ));
        }
        UtcOffset { hours: hours as i8, minutes: minutes as i8, seconds: secs as i8 }
    }

    /// Get the utc offset's hours.
    pub fn hours(&self) -> (r: i8)
        ensures
            r == self@.0,
    {
        self.hours
    }

    /// Get the utc offset's minutes.
    pub fn minutes(&self) -> (r: i8)
        ensures
            r == self@.1,
    {
        self.minutes
    }

    /// Get the utc offset's seconds.
    pub fn seconds(&self) -> (r: i8)
        ensures
            r == self@.2,
    {
        self.seconds
    }

    /// Returns the total number of seconds in this offset.
    pub fn total_seconds(&self) -> (r: i32)
        ensures
            r == self.spec_total_seconds(),
            -86400 <= r <= 86400,
    {
        proof {
            use_type_invariant(self);
        }
        self.hours as i32 * 3600 + self.minutes as i32 * 60 + self.seconds as i32
    }

    /// Unwraps this offset into their individual `(hours, minutes, seconds)` components.
    pub fn into_hms(self) -> (r: (i8, i8, i8))
        ensures
            r.0 == self@.0 && r.1 == self@.1 && r.2 == self@.2,
    {
        (self.hours, self.minutes, self.seconds)
    }

    /// Returns `true` if this offset is UTC.
    pub fn is_utc(&self) -> (r: bool)
        ensures
            r == (self@ == (0int, 0int, 0int)),
    {
        self.hours == 0 && self.minutes == 0 && self.seconds == 0
    }

    /// Returns `true` if this offset is negative, that is west of UTC.
    pub fn is_negative(&self) -> (r: bool)
        ensures
            r == (self.spec_total_seconds() < 0),
    {
        proof {
            use_type_invariant(self);
            lemma_offset_minutes(*self);
        }
        self.hours < 0 || self.minutes < 0 || self.seconds < 0
    }

    /// Subtracts two offsets, returning [`None`] if the result would be out of bounds.
    pub fn checked_sub(self, other: UtcOffset) -> (r: Option<UtcOffset>)
        ensures
            r is Some <==> -86400 <= self.spec_total_seconds() - other.spec_total_seconds() <= 86400,
            r matches Some(o) ==> o.spec_total_seconds() == self.spec_total_seconds()
                - other.spec_total_seconds(),
    {
        let seconds = self.total_seconds() - other.total_seconds();
        UtcOffset::from_seconds(seconds)
    }

    /// Adds two offsets, returning [`None`] if the result would be out of bounds.
    pub fn checked_add(self, other: UtcOffset) -> (r: Option<UtcOffset>)
        ensures
            r is Some <==> -86400 <= self.spec_total_seconds() + other.spec_total_seconds() <= 86400,
            r matches Some(o) ==> o.spec_total_seconds() == self.spec_total_seconds()
                + other.spec_total_seconds(),
    {
        let seconds = self.total_seconds() + other.total_seconds();
        UtcOffset::from_seconds(seconds)
    }

    /// Subtracts two offsets, saturating at the bounds if out of bounds.
    pub fn saturating_sub(self, other: UtcOffset) -> (r: UtcOffset)
        ensures
            r.spec_total_seconds() == clamp_offset(self.spec_total_seconds() - other.spec_total_seconds()),
    {
        let seconds = self.total_seconds() - other.total_seconds();
        if seconds <= -86400 {
            UtcOffset::min_offset()
        } else if seconds >= 86400 {
            UtcOffset::max_offset()
        } else {
            UtcOffset::from_seconds_unchecked(seconds)
        }
    }

    /// Adds two offsets, saturating at the bounds if out of bounds.
    pub fn saturating_add(self, other: UtcOffset) -> (r: UtcOffset)
        ensures
            r.spec_total_seconds() == clamp_offset(self.spec_total_seconds() + other.spec_total_seconds()),
    {
        let seconds = self.total_seconds() + other.total_seconds();
        if seconds <= -86400 {
            UtcOffset::min_offset()
        } else if seconds >= 86400 {
            UtcOffset::max_offset()
        } else {
            UtcOffset::from_seconds_unchecked(seconds)
        }
    }

    /// Negates the offset.
    pub fn neg(self) -> (r: UtcOffset)
        ensures
            r.spec_total_seconds() == -self.spec_total_seconds(),
            r@ == (-self@.0, -self@.1, -self@.2),
    {
        proof {
            use_type_invariant(&self);
        }
        UtcOffset { hours: -self.hours, minutes: -self.minutes, seconds: -self.seconds }
    }
}

impl Default for UtcOffset {
    /// The offset of UTC.
    fn default() -> (r: UtcOffset)
        ensures
            r@ == (0int, 0int, 0int),
            r.spec_total_seconds() == 0,
    {
        UtcOffset::utc()
    }
}

/// Clamps a number of seconds to the range of an offset.
pub open spec fn clamp_offset(seconds: int) -> int {
    if seconds <= -86400 {
        -86400
    } else if seconds >= 86400 {
        86400
    } else {
        seconds
    }
}

/// The components of an offset of `total` seconds add back up to `total`.
pub proof fn lemma_offset_components_roundtrip(total: int)
    requires
        -86400 <= total <= 86400,
    ensures
        ({
            let c = spec_offset_components(total);
            c.0 * 3600 + c.1 * 60 + c.2 == total
        }),
{
    assert(trunc_rem(total, 3600) == total - 3600 * trunc_div(total, 3600));
    assert(trunc_rem(trunc_rem(total, 3600), 60) == trunc_rem(total, 3600) - 60 * trunc_div(
        trunc_rem(total, 3600),
        60,
    ));
}

/// The minutes of an offset are below an hour and share the sign of its hours.
pub proof fn lemma_offset_minutes(o: UtcOffset)
    requires
        o.inv(),
    ensures
        -59 <= o@.1 <= 59,
        o@.0 < 0 ==> o@.1 <= 0,
        o@.0 > 0 ==> o@.1 >= 0,
        -59 <= o@.2 <= 59,
{
    let t = o.spec_total_seconds();
    if t < 0 {
        assert(0 <= (-t) % 3600 < 3600);
    } else {
        assert(0 <= t % 3600 < 3600);
    }
}

/// An offset is determined by its total number of seconds: two offsets with the
/// same total are the same offset, so adding an offset and then subtracting it
/// again gives back the offset one started from.
pub proof fn lemma_offset_determined_by_total(a: UtcOffset, b: UtcOffset)
    requires
        a.inv(),
        b.inv(),
        a.spec_total_seconds() == b.spec_total_seconds(),
    ensures
        a@ == b@,
        a == b,
{
}

/// An enum representing the kind of [`DateTimeResolution`].
#[derive(Debug, Clone, Copy, PartialEq, Eq, Structural, PartialOrd, Ord, Hash)]
pub enum DateTimeResolutionKind {
    /// The local datetime does not occur at all in the target time zone. This usually happens
    /// during DST transitions when clocks go forward. For example if the clock changed
    /// from 1AM to 2AM then a time such as 1:30 AM does not exist and cannot be represented.
    Missing,
    /// The local datetime occurs unambiguously and can be represented.
    Unambiguous,
    /// The local datetime occurs twice in the target time zone. This usually happens
    /// during a DST transition when clocks go backwards. For example, if the
    /// clocks changed from 2AM to 1AM then 1:30 AM happened twice. Once before
    /// the transition (the "earlier" time) and once after the transition (the "later" time).
    Ambiguous,
}

/// The result of resolving a local time in a time zone.
///
/// This allows you to differentiate between two moments in time where the local time
/// is the same. When clocks are moved backwards in time, a *fold* is created and a local
/// time that falls in it is ambiguous. When clocks are moved forward, a *gap* is created
/// and a local time that falls in it is missing.
#[derive(Debug, Clone, Copy, PartialEq, Eq, Structural)]
pub struct DateTimeResolution {
    date: Date,
    time: Time,
    earlier: UtcOffset,
    later: UtcOffset,
    kind: DateTimeResolutionKind,
}

impl View for DateTimeResolution {
    type V = (Date, Time, UtcOffset, UtcOffset, DateTimeResolutionKind);

    /// The local date and time, the offsets before and after the transition, and the kind.
    closed spec fn view(&self) -> (Date, Time, UtcOffset, UtcOffset, DateTimeResolutionKind) {
        (self.date, self.time, self.earlier, self.later, self.kind)
    }
}

impl DateTimeResolution {
    /// Two values with the same view are the same value.
    pub proof fn lemma_view_eq(a: DateTimeResolution, b: DateTimeResolution)
        requires
            a@ == b@,
        ensures
            a == b,
    {
    }
}

/// The local date and time of a resolution whose local time is missing, moved across
/// the gap by the difference `to - from` of its two offsets.
pub open spec fn spec_across_gap(date: Date, time: Time, from: UtcOffset, to: UtcOffset) -> (
    (int, int, int),
    (int, int, int, int),
) {
    spec_shift_wall_clock(date, time, clamp_offset(to.spec_total_seconds() - from.spec_total_seconds()) * 1_000_000_000)
}

/// A local date at least two days away from the ends of the supported range, so that its
/// wall clock can move by up to a day in either direction.
pub open spec fn away_from_range_ends(date: Date) -> bool {
    MIN_EPOCH_DAYS + 2 <= date.spec_days_since_epoch() <= MAX_EPOCH_DAYS - 2
}

/// Whether `r` is the lenient date time of a resolution: a missing local time moved
/// forward across the gap to the offset after it, any other at the earlier offset.
pub open spec fn is_lenient_result(res: DateTimeResolution, r: DateTime) -> bool {
    &&& res@.4 == DateTimeResolutionKind::Missing ==> (r@.0@, r@.1@) == spec_across_gap(res@.0, res@.1, res@.2, res@.3)
        && r@.2 == res@.3
    &&& res@.4 != DateTimeResolutionKind::Missing ==> r@ == (res@.0, res@.1, res@.2)
}

/// Whether `r` is the exact outcome of a resolution: the date time at its only
/// offset when unambiguous, and otherwise the error naming the local time.
pub open spec fn is_exact_result(res: DateTimeResolution, r: Result<DateTime, Error>) -> bool {
    &&& res@.4 == DateTimeResolutionKind::Missing ==> r == Err::<DateTime, Error>(Error::SkippedDateTime(res@.0, res@.1))
    &&& res@.4 == DateTimeResolutionKind::Ambiguous ==> r == Err::<DateTime, Error>(
        Error::AmbiguousDateTime(res@.0, res@.1),
    )
    &&& res@.4 == DateTimeResolutionKind::Unambiguous ==> (r matches Ok(dt) && dt@ == (res@.0, res@.1, res@.2))
}

impl DateTimeResolution {
    /// Creates a new [`DateTimeResolution`] that's ambiguous within two separate offsets.
    ///
    /// Note that in this case the earlier offset is the one *before* the transition and
    /// the after offset is the one *after* transition. Ergo, if the jump is UTC-4 -> UTC-5
    /// then UTC-4 is "earlier" and UTC-5 is "later".
    pub fn ambiguous(date: Date, time: Time, earlier: UtcOffset, later: UtcOffset) -> (r: DateTimeResolution)
        ensures
            r@ == (date, time, earlier, later, DateTimeResolutionKind::Ambiguous),
    {
        DateTimeResolution { date, time, earlier, later, kind: DateTimeResolutionKind::Ambiguous }
    }

    /// Creates a new [`DateTimeResolution`] that cannot be represented.
    ///
    /// Note that in this case the earlier offset is the one *before* the transition and
    /// the after offset is the one *after* transition. Ergo, if the jump is UTC-5 -> UTC-4
    /// then UTC-5 is "earlier" and UTC-4 is "later".
    pub fn missing(date: Date, time: Time, earlier: UtcOffset, later: UtcOffset) -> (r: DateTimeResolution)
        ensures
            r@ == (date, time, earlier, later, DateTimeResolutionKind::Missing),
    {
        DateTimeResolution { date, time, earlier, later, kind: DateTimeResolutionKind::Missing }
    }

    /// Creates a new [`DateTimeResolution`] that's is unambiguous.
    pub fn unambiguous(date: Date, time: Time, offset: UtcOffset) -> (r: DateTimeResolution)
        ensures
            r@ == (date, time, offset, offset, DateTimeResolutionKind::Unambiguous),
    {
        DateTimeResolution { date, time, earlier: offset, later: offset, kind: DateTimeResolutionKind::Unambiguous }
    }

    /// Returns the associated [`DateTimeResolutionKind`] for this resolution.
    pub fn kind(&self) -> (r: DateTimeResolutionKind)
        ensures
            r == self@.4,
    {
        self.kind
    }

    /// Returns a reference to the date time resolution's date.
    pub fn date(&self) -> (r: &Date)
        ensures
            *r == self@.0,
    {
        &self.date
    }

    /// Returns a reference to the date time resolution's time.
    pub fn time(&self) -> (r: &Time)
        ensures
            *r == self@.1,
    {
        &self.time
    }

    /// Returns a reference to the offset before the transition.
    pub fn earlier_offset(&self) -> (r: &UtcOffset)
        ensures
            *r == self@.2,
    {
        &self.earlier
    }

    /// Returns a reference to the offset after the transition.
    pub fn later_offset(&self) -> (r: &UtcOffset)
        ensures
            *r == self@.3,
    {
        &self.later
    }

    /// Returns `true` if the date time resolution is [`DateTimeResolutionKind::Ambiguous`].
    pub fn is_ambiguous(&self) -> (r: bool)
        ensures
            r == (self@.4 == DateTimeResolutionKind::Ambiguous),
    {
        matches!(self.kind, DateTimeResolutionKind::Ambiguous)
    }

    /// Returns `true` if the date time resolution is [`DateTimeResolutionKind::Unambiguous`].
    pub fn is_unambiguous(&self) -> (r: bool)
        ensures
            r == (self@.4 == DateTimeResolutionKind::Unambiguous),
    {
        matches!(self.kind, DateTimeResolutionKind::Unambiguous)
    }

    /// Returns `true` if the date time resolution is [`DateTimeResolutionKind::Missing`].
    pub fn is_missing(&self) -> (r: bool)
        ensures
            r == (self@.4 == DateTimeResolutionKind::Missing),
    {
        matches!(self.kind, DateTimeResolutionKind::Missing)
    }

    /// Returns the earlier date time that was resolved.
    ///
    /// If the date time was skipped then an [`Error`] is returned.
    pub fn earlier(self) -> (r: Result<DateTime, Error>)
        ensures
            self@.4 == DateTimeResolutionKind::Missing ==> r == Err::<DateTime, Error>(
                Error::SkippedDateTime(self@.0, self@.1),
            ),
            self@.4 != DateTimeResolutionKind::Missing ==> (r matches Ok(dt) && dt@ == (self@.0, self@.1, self@.2)),
    {
        match self.kind {
            DateTimeResolutionKind::Missing => Err(Error::SkippedDateTime(self.date, self.time)),
            _ => Ok(DateTime::from_components(self.date, self.time, self.earlier)),
        }
    }

    /// Returns the later date time that was resolved.
    ///
    /// If the date time was skipped then an [`Error`] is returned.
    pub fn later(self) -> (r: Result<DateTime, Error>)
        ensures
            self@.4 == DateTimeResolutionKind::Missing ==> r == Err::<DateTime, Error>(
                Error::SkippedDateTime(self@.0, self@.1),
            ),
            self@.4 != DateTimeResolutionKind::Missing ==> (r matches Ok(dt) && dt@ == (self@.0, self@.1, self@.3)),
    {
        match self.kind {
            DateTimeResolutionKind::Missing => Err(Error::SkippedDateTime(self.date, self.time)),
            _ => Ok(DateTime::from_components(self.date, self.time, self.later)),
        }
    }

    /// Converts into a pair representing the earlier and later time.
    ///
    /// The first element of the pair is the earlier date time that was
    /// resolved, and the second element of the pair is the later date time
    /// that was resolved.
    pub fn into_pair(self) -> (r: (DateTime, DateTime))
        ensures
            r.0@ == (self@.0, self@.1, self@.2),
            r.1@ == (self@.0, self@.1, self@.3),
    {
        (
            DateTime::from_components(self.date, self.time, self.earlier),
            DateTime::from_components(self.date, self.time, self.later),
        )
    }

    /// Returns a lenient date time that can represent this resolution.
    ///
    /// This allows retrieving a [`DateTime`] regardless of the resolution.
    /// A missing datetime is forward shifted to skip the gap. In other words,
    /// if 1:30 AM cannot be represented because 1AM was skipped into 2AM then 2:30AM
    /// is returned. An ambiguous date time will resolve into the earlier date time,
    /// or the one that happened first.
    pub fn lenient(self) -> (r: DateTime)
        requires
            self@.4 == DateTimeResolutionKind::Missing ==> away_from_range_ends(self@.0),
        ensures
            is_lenient_result(self, r),
            self@.4 == DateTimeResolutionKind::Missing ==> (r@.0@, r@.1@) == spec_across_gap(
                self@.0,
                self@.1,
                self@.2,
                self@.3,
            ) && r@.2 == self@.3,
            self@.4 != DateTimeResolutionKind::Missing ==> r@ == (self@.0, self@.1, self@.2),
    {
        match self.kind {
            DateTimeResolutionKind::Missing => {
                let delta = self.later.saturating_sub(self.earlier);
                let mut moved = DateTime::from_components(self.date, self.time, UtcOffset::utc());
                proof {
                    use_type_invariant(&self.time);
                    use_type_invariant(&delta);
                    lemma_shift_in_range(self.date, self.time, delta);
                }
                moved.shift(delta);
                DateTime::from_components(*moved.date(), *moved.time(), self.later)
            },
            _ => DateTime::from_components(self.date, self.time, self.earlier),
        }
    }

    /// Returns an exact date time that can represent this resolution.
    ///
    /// If the date time was skipped or is ambiguous then an [`Error`] is returned.
    pub fn exact(self) -> (r: Result<DateTime, Error>)
        ensures
            is_exact_result(self, r),
            self@.4 == DateTimeResolutionKind::Missing ==> r == Err::<DateTime, Error>(
                Error::SkippedDateTime(self@.0, self@.1),
            ),
            self@.4 == DateTimeResolutionKind::Ambiguous ==> r == Err::<DateTime, Error>(
                Error::AmbiguousDateTime(self@.0, self@.1),
            ),
            self@.4 == DateTimeResolutionKind::Unambiguous ==> (r matches Ok(dt) && dt@ == (
                self@.0,
                self@.1,
                self@.2,
            )),
    {
        match self.kind {
            DateTimeResolutionKind::Missing => Err(Error::SkippedDateTime(self.date, self.time)),
            DateTimeResolutionKind::Unambiguous => Ok(DateTime::from_components(self.date, self.time, self.earlier)),
            DateTimeResolutionKind::Ambiguous => Err(Error::AmbiguousDateTime(self.date, self.time)),
        }
    }

    /// Returns a date time for this resolution that moves a missing local time backwards
    /// across the gap, at the offset before the transition.
    pub fn backwards(self) -> (r: DateTime)
        requires
            self@.4 == DateTimeResolutionKind::Missing ==> away_from_range_ends(self@.0),
        ensures
            self@.4 == DateTimeResolutionKind::Missing ==> (r@.0@, r@.1@) == spec_across_gap(
                self@.0,
                self@.1,
                self@.3,
                self@.2,
            ) && r@.2 == self@.2,
            self@.4 != DateTimeResolutionKind::Missing ==> r@ == (self@.0, self@.1, self@.2),
    {
        match self.kind {
            DateTimeResolutionKind::Missing => {
                let delta = self.earlier.saturating_sub(self.later);
                let mut moved = DateTime::from_components(self.date, self.time, UtcOffset::utc());
                proof {
                    use_type_invariant(&self.time);
                    use_type_invariant(&delta);
                    lemma_shift_in_range(self.date, self.time, delta);
                }
                moved.shift(delta);
                DateTime::from_components(*moved.date(), *moved.time(), self.earlier)
            },
            _ => DateTime::from_components(self.date, self.time, self.earlier),
        }
    }
}

/// Moving the wall clock of a date away from the ends of the range by at most a day
/// stays within the range.
pub(crate) proof fn lemma_shift_in_range(date: Date, time: Time, delta: UtcOffset)
    requires
        away_from_range_ends(date),
        0 <= time.spec_total_nanos() < NANOS_PER_DAY + 1_000_000_000,
        -86400 <= delta.spec_total_seconds() <= 86400,
    ensures
        MIN_EPOCH_DAYS <= date.spec_days_since_epoch() + (time.spec_total_nanos() + delta.spec_total_seconds()
            * 1_000_000_000) / (NANOS_PER_DAY as int) <= MAX_EPOCH_DAYS,
{
    let n = time.spec_total_nanos() + delta.spec_total_seconds() * 1_000_000_000;
    assert(-(NANOS_PER_DAY as int) <= n < 3 * (NANOS_PER_DAY as int));
    assert(-1 <= n / (NANOS_PER_DAY as int) <= 2);
}

/// A trait that defines timezone behaviour.
pub trait TimeZone: Sized {
    /// Returns the name of the timezone at a given UNIX timestamp.
    fn name(&self, ts: Timestamp) -> (r: Option<&str>)
        default_ensures
            r is None,
    {
        None
    }

    /// Returns the UTC offset of the timezone at a given UNIX timestamp.
    ///
    /// If DST is being observed then the offset must take that into account.
    fn offset(&self, ts: Timestamp) -> UtcOffset;

    /// Resolves the given local date and time to this time zone.
    ///
    /// The resolution could either be unambiguous, ambiguous, or missing
    /// depending on when it falls. See the [`DateTimeResolution`] documentation
    /// for more information.
    fn resolve(self, date: Date, time: Time) -> (r: DateTimeResolution)
        ensures
            r@.0 == date,
            r@.1 == time,
            self.resolves_to(date, time, r),
    ;

    /// Whether `r` is how this time zone resolves the local `date` and `time`, as
    /// [`TimeZone::resolve`] does. A time zone that does not describe its resolution
    /// leaves it open.
    open spec fn resolves_to(self, date: Date, time: Time, r: DateTimeResolution) -> bool {
        true
    }

    /// Resolves the given date and time to this time zone leniently.
    ///
    /// If the time cannot be represented in local time then the "gap"
    /// is skipped and the time moves forward. If the time is ambiguous
    /// then the earlier value is returned. This is equivalent to the
    /// [`DateTimeResolution::lenient`] method.
    fn at(self, date: Date, time: Time) -> (r: DateTime)
        requires
            away_from_range_ends(date),
        ensures
            exists|res: DateTimeResolution|
                res@.0 == date && res@.1 == time && #[trigger] self.resolves_to(date, time, res) && is_lenient_result(
                    res,
                    r,
                ),
    {
        let res = self.resolve(date, time);
        let r = res.lenient();
        assert(self.resolves_to(date, time, res) && is_lenient_result(res, r));
        r
    }

    /// Resolves the given date and time to this time zone exactly.
    ///
    /// If the time cannot be represented in local time unambiguously then
    /// an [`Error`] is returned.
    fn at_exactly(self, date: Date, time: Time) -> (r: Result<DateTime, Error>)
        ensures
            exists|res: DateTimeResolution|
                res@.0 == date && res@.1 == time && #[trigger] self.resolves_to(date, time, res) && is_exact_result(
                    res,
                    r,
                ),
    {
        let res = self.resolve(date, time);
        let r = res.exact();
        assert(self.resolves_to(date, time, res) && is_exact_result(res, r));
        r
    }

    /// Converts from a UTC [`DateTime`] to a datetime in this timezone.
    fn convert_utc(self, utc: DateTime) -> DateTime
        requires
            utc@.2@ == (0int, 0int, 0int),
            away_from_range_ends(utc@.0),
    ;

    /// Returns `true` if the timezone is fixed offset.
    ///
    /// A fixed offset timezone is one that has no transitions and will always
    /// be unambiguous for a given date and time.
    fn is_fixed(&self) -> (r: bool)
        default_ensures
            !r,
    {
        false
    }
}

impl TimeZone for UtcOffset {
    fn offset(&self, ts: Timestamp) -> (r: UtcOffset)
        ensures
            r == *self,
    {
        *self
    }

    fn resolve(self, date: Date, time: Time) -> (r: DateTimeResolution)
        ensures
            r@ == (date, time, self, self, DateTimeResolutionKind::Unambiguous),
    {
        DateTimeResolution::unambiguous(date, time, self)
    }

    /// A fixed offset resolves every local time unambiguously to itself.
    open spec fn resolves_to(self, date: Date, time: Time, r: DateTimeResolution) -> bool {
        r@ == (date, time, self, self, DateTimeResolutionKind::Unambiguous)
    }

    /// The converted date time names the same instant, unless it is in a leap second.
    fn convert_utc(self, utc: DateTime) -> (r: DateTime)
        ensures
            (r@.0@, r@.1@) == spec_shift_wall_clock(utc@.0, utc@.1, self.spec_total_seconds() * 1_000_000_000),
            r@.2 == self,
            utc@.1@.3 < 1_000_000_000 ==> crate::datetime::spec_compare_instants(r, utc) == 0,
    {
        let time = utc.time();
        proof {
            use_type_invariant(&self);
            use_type_invariant(time);
            lemma_shift_in_range(utc@.0, utc@.1, self);
            if utc@.1@.3 < 1_000_000_000 {
                crate::datetime::lemma_shift_wall_clock_seconds(utc@.0, utc@.1, self.spec_total_seconds());
            }
        }
        let mut moved = utc;
        moved.shift(self);
        moved.with_timezone(self)
    }

    fn is_fixed(&self) -> (r: bool)
        ensures
            r,
    {
        true
    }
}

/// The UTC timezone.
#[derive(Debug, Default, Copy, Clone, PartialEq, Eq, Structural, PartialOrd, Ord, Hash)]
pub struct Utc;

impl TimeZone for Utc {
    fn name(&self, ts: Timestamp) -> (r: Option<&str>)
        ensures
            r matches Some(n) && n@ == "UTC"@,
    {
        Some("UTC")
    }

    fn offset(&self, ts: Timestamp) -> (r: UtcOffset)
        ensures
            r@ == (0int, 0int, 0int),
    {
        UtcOffset::utc()
    }

    fn resolve(self, date: Date, time: Time) -> (r: DateTimeResolution)
        ensures
            r@.0 == date && r@.1 == time && r@.4 == DateTimeResolutionKind::Unambiguous,
            r@.2@ == (0int, 0int, 0int) && r@.3@ == (0int, 0int, 0int),
    {
        DateTimeResolution::unambiguous(date, time, UtcOffset::utc())
    }

    /// UTC resolves every local time unambiguously to the zero offset.
    open spec fn resolves_to(self, date: Date, time: Time, r: DateTimeResolution) -> bool {
        &&& r@.0 == date && r@.1 == time && r@.4 == DateTimeResolutionKind::Unambiguous
        &&& r@.2@ == (0int, 0int, 0int) && r@.3@ == (0int, 0int, 0int)
    }

    fn convert_utc(self, utc: DateTime) -> (r: DateTime)
        ensures
            r@ == utc@,
    {
        utc
    }

    fn is_fixed(&self) -> (r: bool)
        ensures
            r,
    {
        true
    }
}

} // verus!
