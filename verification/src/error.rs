//! The error type of the library.
use vstd::prelude::*;

use crate::date::Date;
use crate::time::Time;

verus! {

/// The error type for most errors that can be encountered when using the library.
#[derive(Debug, Copy, Clone, PartialEq, Eq, Structural)]
#[non_exhaustive]
pub enum Error {
    /// Construction or modification of a date or time was out of range.
    OutOfRange,
    /// Could not get the system time or timezone information
    NoSystemTime,
    /// The date time cannot be represented: the local time was skipped.
    SkippedDateTime(Date, Time),
    /// The date time is ambiguous: the local time happened twice.
    AmbiguousDateTime(Date, Time),
}

} // verus!
