//! Errors of time zone data parsing and lookup.
use vstd::prelude::*;

verus! {

/// An error that occurred while parsing time zone data.
#[derive(Debug, Clone, Copy, PartialEq, Eq, Structural)]
#[non_exhaustive]
pub enum ParseError {
    /// The data ended before what its header announced was read.
    UnexpectedEnd,
    /// The TZif version is unsupported.
    UnsupportedVersion,
    /// The magic value of the TZif data was invalid.
    InvalidMagic,
    /// A UTC offset in the data was out of range.
    InvalidOffset,
    /// An abbreviation was not UTF-8.
    InvalidAbbreviation,
    /// The POSIX TZ string was invalid.
    InvalidPosixTz,
    /// A transition refers to a local time type that the data does not have.
    InvalidTypeIndex,
    /// The transitions are not in ascending order, by their UTC times or by their
    /// local times.
    UnsortedTransitions,
}

/// An error that occurred while locating a time zone.
#[derive(Debug, Clone, Copy, PartialEq, Eq, Structural)]
#[non_exhaustive]
pub enum Error {
    /// The time zone data could not be parsed.
    Parse(ParseError),
    /// The time zone could not be found.
    NotFound,
    /// The time zone identifier is not a valid path.
    InvalidZonePath,
}

} // verus!
