//! A date and time library for the proleptic Gregorian calendar.

pub mod gregorian;
pub mod utils;
pub mod error;
pub mod time;
pub mod date;
pub mod timezone;
pub mod interval;
pub mod datetime;
pub mod timestamp;
pub mod unit;
pub mod step;
pub mod ext;
pub mod fmt;
pub mod isoformat;
pub mod display;
pub mod formatter;
pub mod builder;
pub mod scan;
pub mod tzdata;
pub mod tzerror;
pub mod posix;
pub mod sqlite;
pub mod zoneinfo;
pub mod system;
pub mod iter;

pub use builder::Builder;
pub use date::{Date, IsoWeekDate, Weekday};
pub use datetime::DateTime;
pub use error::Error;
pub use interval::Interval;
pub use isoformat::{FromIsoFormat, IsoFormatPrecision, ToIsoFormat};
pub use posix::PosixTimeZone;
pub use time::Time;
pub use timestamp::Timestamp;
pub use timezone::{DateTimeResolution, DateTimeResolutionKind, TimeZone, Utc, UtcOffset};

use vstd::prelude::*;

verus! {

} // verus!
