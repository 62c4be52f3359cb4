//! Date times from the system clock's readings.
use vstd::prelude::*;

use std::time::{SystemTime, SystemTimeError};

use crate::datetime::{is_epoch_duration_result, DateTime};

verus! {

/// A reading of the system clock.
#[verifier::external_type_specification]
#[verifier::external_body]
pub struct ExSystemTime(std::time::SystemTime);

/// The error of measuring a system time from a later one.
#[verifier::external_type_specification]
#[verifier::external_body]
pub struct ExSystemTimeError(std::time::SystemTimeError);

/// Measures how far a system time lies after the UNIX epoch with
/// `SystemTime::duration_since`, which fails with an error for an earlier time.
///
/// Nothing is stated of the result: it depends on the reading, which has no model here.
#[verifier::external_body]
fn duration_since_epoch(time: &SystemTime) -> (r: Result<core::time::Duration, SystemTimeError>) {
    time.duration_since(SystemTime::UNIX_EPOCH)
}

/// Returns how far before the later time a failed measurement lay, with
/// `SystemTimeError::duration`.
///
/// Nothing is stated of the result: it depends on the reading, which has no model here.
#[verifier::external_body]
fn error_duration(error: &SystemTimeError) -> (r: core::time::Duration) {
    error.duration()
}

impl From<SystemTime> for DateTime {
    /// The UTC date time of a reading of the system clock: the UNIX epoch moved by
    /// the duration the reading lies after or before it, as
    /// [`DateTime::from_epoch_duration`] computes it.
    fn from(time: SystemTime) -> (r: DateTime)
        ensures
            exists|since: Result<core::time::Duration, core::time::Duration>| is_epoch_duration_result(since, r),
    {
        let since = match duration_since_epoch(&time) {
            Ok(d) => Ok(d),
            Err(e) => Err(error_duration(&e)),
        };
        let r = DateTime::from_epoch_duration(since);
        assert(is_epoch_duration_result(since, r));
        r
    }
}

impl vstd::std_specs::convert::FromSpecImpl<SystemTime> for DateTime {
    /// A reading of the system clock has no model, so no result is promised here;
    /// the `ensures` of `from` says what holds of every outcome.
    open spec fn obeys_from_spec() -> bool {
        false
    }

    open spec fn from_spec(v: SystemTime) -> DateTime {
        vstd::pervasive::arbitrary()
    }
}

} // verus!
