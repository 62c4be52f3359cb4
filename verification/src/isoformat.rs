//! Traits and types that help with parsing to and from the ISO-8601 standard.
//!
//! The library does not aim for strict ISO-8601 compliance, for example ISO-8601 does not
//! support concepts such as negative duration and have a lot of esoteric formats that aren't
//! supported.
use vstd::prelude::*;

use crate::date::{Date, IsoWeekDate, Weekday};
use crate::fmt::{
    byte_at, is_digit, lift_date, lift_time, spec_date, spec_expect, spec_fixed_digits,
    spec_fraction, spec_i32, spec_sign, spec_time, spec_year, ParseError, Parser,
};
use crate::interval::{Interval, MICROS_PER_HOUR, MICROS_PER_MIN, MICROS_PER_SEC};
use crate::time::Time;
use vstd::string::StringSliceAdditionalSpecFns;

verus! {

/// The parser for ISO 8601 strings.
pub type IsoParser<'a> = Parser<'a>;

/// Converts a value from an ISO-8601-1:2019 formatted string.
///
/// This trait is similar to [`std::str::FromStr`] except it deals with a subset of
/// string formats.
pub trait FromIsoFormat: Sized {
    /// Parses a string `s` to return a valid value of this type.
    ///
    /// If parsing fails then [`ParseError`] is returned in the [`Err`] variant.
    fn from_iso_format(s: &str) -> Result<Self, ParseError>;
}

/// An enum that specifies how the [`ToIsoFormat`] trait should handle precision of the components.
///
/// If a given precision would omit certain values from displaying, these values are *omitted*
/// rather than rounded to that value. For example, if the [`IsoFormatPrecision::Hour`] precision
/// is given at a time representing `12:59` then `12:00` will be returned not `13:00`.
#[derive(Debug, Clone, Copy, PartialEq, Eq, Structural, PartialOrd, Ord, Hash)]
#[non_exhaustive]
pub enum IsoFormatPrecision {
    /// Display up to the hour, leaving remaining values either as 0 or omitted if possible.
    Hour,
    /// Display up to the minute, leaving remaining values either as 0 or omitted if possible.
    Minute,
    /// Display up to the second, leaving the fractional seconds omitted.
    Second,
    /// Display fractional seconds up to millisecond precision.
    Millisecond,
    /// Display fractional seconds up to microsecond precision.
    Microsecond,
    /// Display fractional seconds up to nanosecond precision.
    Nanosecond,
}

/// Converts a value to an ISO-8601 extended format string.
///
/// This conversion is infallible.
pub trait ToIsoFormat {
    /// Converts to an appropriate ISO-8601 extended formatted string with the given precision.
    ///
    /// Certain types do not make use of this precision and will be ignored.
    fn to_iso_format_with_precision(&self, precision: IsoFormatPrecision) -> String;

    /// Converts to an appropriate ISO-8601 extended formatted string.
    fn to_iso_format(&self) -> String;
}

impl FromIsoFormat for Date {
    /// Parse an ISO-8601 formatted string to a [`Date`].
    ///
    /// The syntax accepted by this function are:
    ///
    /// - `±YYYYY-MM-DD` (e.g. `2012-02-13` or `-9999-10-12`)
    /// - `±YYYYY-MM` (e.g. `2012-02`)
    /// - `±YYYYY-Www` (e.g. `2012-W10`)
    /// - `±YYYYY-Www-D` (e.g. `2012-W10-1`)
    /// - `±YYYYY-DDD` (e.g. `2021-048`)
    fn from_iso_format(s: &str) -> (r: Result<Date, ParseError>)
        ensures
            lift_date(r) == spec_date(s.spec_bytes(), 0).0,
    {
        let mut parser = Parser::new(s);
        parser.parse_date()
    }
}

impl FromIsoFormat for Time {
    /// Parse an ISO-8601 formatted string to a [`Time`].
    ///
    /// The syntax accepted by this function are:
    ///
    /// - `HH:MM` (e.g. `10:23`)
    /// - `HH:MM:SS` (e.g. `10:24:30`)
    /// - `HH:MM:SS.sssssssss`, up to 9 digits of precision (e.g. `10:24:30.999999999`)
    /// - `HH:MM:SS,sssssssss`, similar to above except with `,` instead of `.`
    fn from_iso_format(s: &str) -> (r: Result<Time, ParseError>)
        ensures
            lift_time(r) == spec_time(s.spec_bytes(), 0).0,
    {
        let mut parser = Parser::new(s);
        parser.parse_time()
    }
}

/// The outcome of reading an ISO week date `±YYYYY-Www[-D]`: its year, week and
/// weekday number (Monday is 1).
pub open spec fn spec_iso_week_date(s: Seq<u8>) -> Result<(int, int, int), ParseError> {
    let (ry, p1) = spec_year(s, 0);
    match ry {
        Err(e) => Err(e),
        Ok(year) => {
            let (r1, p2) = spec_expect(s, p1, 45u8);
            let (r2, p3) = spec_expect(s, p2, 87u8);
            let (rw, p4) = spec_fixed_digits(s, p3, 2);
            if r1 is Err {
                Err(r1->Err_0)
            } else if r2 is Err {
                Err(r2->Err_0)
            } else if rw is Err {
                Err(rw->Err_0)
            } else if rw->Ok_0 == 0 || rw->Ok_0
                > crate::date::spec_iso_weeks_in_year(year) {
                Err(ParseError::OutOfBounds)
            } else if byte_at(s, p4) == Some(45u8) {
                let (rd, _) = spec_fixed_digits(s, p4 + 1, 1);
                match rd {
                    Err(e) => Err(e),
                    Ok(d) => if 1 <= d <= 7 {
                        Ok((year, rw->Ok_0, d))
                    } else {
                        Err(ParseError::OutOfBounds)
                    },
                }
            } else {
                Ok((year, rw->Ok_0, 1))
            }
        },
    }
}

/// A parsed ISO week date as its year, week and weekday number.
pub open spec fn lift_week_date(r: Result<IsoWeekDate, ParseError>) -> Result<(int, int, int), ParseError> {
    match r {
        Ok(d) => Ok((d@.0, d@.1, d@.2.spec_number_from_monday())),
        Err(e) => Err(e),
    }
}

impl FromIsoFormat for IsoWeekDate {
    /// Parse an ISO-8601 formatted string to a [`IsoWeekDate`].
    ///
    /// The syntax accepted by this function are:
    ///
    /// - `±YYYYY-Www` (e.g. `2012-W10`)
    /// - `±YYYYY-Www-D` (e.g. `2012-W10-1`)
    fn from_iso_format(s: &str) -> (r: Result<IsoWeekDate, ParseError>)
        ensures
            lift_week_date(r) == spec_iso_week_date(s.spec_bytes()),
    {
        let mut parser = Parser::new(s);
        let year = parser.parse_year()?;
        parser.expect(45u8)?;
        parser.expect(87u8)?;
        let week = parser.parse_two_digits()?;
        if week == 0 || week > crate::gregorian::iso_weeks_in_year(
            year,
        ) {
            return Err(ParseError::OutOfBounds);
        }
        let weekday = if parser.advance_if_equal(45u8).is_some() {
            match parser.parse_digit()? {
                1 => Weekday::Monday,
                2 => Weekday::Tuesday,
                3 => Weekday::Wednesday,
                4 => Weekday::Thursday,
                5 => Weekday::Friday,
                6 => Weekday::Saturday,
                7 => Weekday::Sunday,
                _ => {
                    return Err(ParseError::OutOfBounds);
                },
            }
        } else {
            Weekday::Monday
        };
        match IsoWeekDate::new(year, week, weekday) {
            Ok(d) => Ok(d),
            Err(_) => Err(ParseError::OutOfBounds),
        }
    }
}

/// The years, months, days, hours, minutes, seconds and microseconds read so far
/// from an ISO 8601 duration.
pub type IsoUnits = (int, int, int, int, int, int, int);

/// The outcome of reading the units `nU` of an ISO 8601 duration from position `p` on,
/// within `fuel` units, where `time_units` tells whether the `T` was seen and
/// `parsed_once` whether a unit was read.
///
/// A later unit of the same kind replaces an earlier one. A fraction ends the string.
pub open spec fn spec_iso_units(
    s: Seq<u8>,
    p: int,
    fuel: nat,
    time_units: bool,
    parsed_once: bool,
    u: IsoUnits,
) -> (Result<IsoUnits, ParseError>, int)
    decreases fuel,
{
    if fuel == 0 {
        (Err(ParseError::UnexpectedEnd), p)
    } else if byte_at(s, p) == Some(84u8) && time_units {
        (Err(ParseError::UnexpectedNonDigit), p)
    } else if byte_at(s, p) is None && parsed_once {
        (Ok(u), p)
    } else if byte_at(s, p) is None {
        (Err(ParseError::UnexpectedEnd), p)
    } else {
        let t = time_units || byte_at(s, p) == Some(84u8);
        let p1 = if byte_at(s, p) == Some(84u8) {
            p + 1
        } else {
            p
        };
        let (rv, p2) = spec_i32(s, p1);
        match rv {
            Err(e) => (Err(e), p2),
            Ok(v) => match byte_at(s, p2) {
                None => (Err(ParseError::UnexpectedEnd), p2),
                Some(c) => if c == 89u8 {
                    if t {
                        (Err(ParseError::UnexpectedChar('Y')), p2 + 1)
                    } else if v < i16::MIN || v > i16::MAX {
                        (Err(ParseError::OutOfBounds), p2 + 1)
                    } else {
                        spec_iso_units(s, p2 + 1, (fuel - 1) as nat, t, true, (v, u.1, u.2, u.3, u.4, u.5, u.6))
                    }
                } else if c == 77u8 {
                    if t {
                        spec_iso_units(s, p2 + 1, (fuel - 1) as nat, t, true, (u.0, u.1, u.2, u.3, v, u.5, u.6))
                    } else {
                        spec_iso_units(s, p2 + 1, (fuel - 1) as nat, t, true, (u.0, v, u.2, u.3, u.4, u.5, u.6))
                    }
                } else if c == 68u8 {
                    if t {
                        (Err(ParseError::UnexpectedChar('D')), p2 + 1)
                    } else {
                        spec_iso_units(s, p2 + 1, (fuel - 1) as nat, t, true, (u.0, u.1, v, u.3, u.4, u.5, u.6))
                    }
                } else if c == 72u8 {
                    if !t {
                        (Err(ParseError::UnexpectedChar('H')), p2 + 1)
                    } else {
                        spec_iso_units(s, p2 + 1, (fuel - 1) as nat, t, true, (u.0, u.1, u.2, v, u.4, u.5, u.6))
                    }
                } else if c == 83u8 {
                    if !t {
                        (Err(ParseError::UnexpectedChar('S')), p2 + 1)
                    } else {
                        spec_iso_units(s, p2 + 1, (fuel - 1) as nat, t, true, (u.0, u.1, u.2, u.3, u.4, v, u.6))
                    }
                } else if c == 46u8 {
                    if !t {
                        (Err(ParseError::UnexpectedChar('.')), p2 + 1)
                    } else {
                        let (rm, p3) = spec_fraction(s, p2 + 1, 6);
                        match rm {
                            Err(e) => (Err(e), p3),
                            Ok(m) => {
                                let (re, p4) = spec_expect(s, p3, 83u8);
                                match re {
                                    Err(e) => (Err(e), p4),
                                    Ok(_) => match byte_at(s, p4) {
                                        Some(c2) => (Err(ParseError::UnexpectedChar(c2 as char)), p4 + 1),
                                        None => (
                                            Ok((u.0, u.1, u.2, u.3, u.4, v, if byte_at(s, p1) == Some(45u8) { -m } else { m })),
                                            p4,
                                        ),
                                    },
                                }
                            },
                        }
                    }
                } else {
                    (Err(ParseError::UnexpectedChar(c as char)), p2 + 1)
                },
            },
        }
    }
}

/// The interval that an ISO 8601 duration string denotes, as its units written:
/// years, months, days, hours, minutes and the microseconds of the seconds, all
/// negated under a leading `-`.
pub open spec fn spec_interval_iso(s: Seq<u8>) -> Result<(int, int, int, int, int, int), ParseError> {
    let (negative, p1) = spec_sign(s, 0);
    let (re, p2) = spec_expect(s, p1, 80u8);
    match re {
        Err(e) => Err(e),
        Ok(_) => {
            let t = byte_at(s, p2) == Some(84u8);
            let p3 = if t {
                p2 + 1
            } else {
                p2
            };
            finish_interval(negative, spec_iso_units(s, p3, (s.len() - p3 + 1) as nat, t, false, (0, 0, 0, 0, 0, 0, 0)).0)
        },
    }
}

/// The interval made of the units read from an ISO 8601 duration, negated when `negative`:
/// the seconds and their fraction make up one unit of microseconds.
pub open spec fn finish_interval(negative: bool, ru: Result<IsoUnits, ParseError>) -> Result<
    (int, int, int, int, int, int),
    ParseError,
> {
    match ru {
        Err(e) => Err(e),
        Ok(u) => {
            let w = (u.0, u.1, u.2, u.3, u.4, u.5 * MICROS_PER_SEC + u.6);
            if negative {
                Ok((-w.0, -w.1, -w.2, -w.3, -w.4, -w.5))
            } else {
                Ok(w)
            }
        },
    }
}

/// A parsed interval as its units written.
pub open spec fn lift_interval(r: Result<Interval, ParseError>) -> Result<(int, int, int, int, int, int), ParseError> {
    match r {
        Ok(i) => Ok(i.written()),
        Err(e) => Err(e),
    }
}

/// The values of the units read so far.
pub open spec fn units_of(
    years: i16,
    months: i32,
    days: i32,
    hours: i32,
    minutes: i32,
    seconds: i32,
    micros: i32,
) -> IsoUnits {
    (years as int, months as int, days as int, hours as int, minutes as int, seconds as int, micros as int)
}

impl FromIsoFormat for Interval {
    /// Parses an ISO-8601 formatted string to an [`Interval`].
    ///
    /// The syntax accepted by this function deviated from the actual ISO-8601 standard
    /// since it accepts negative numbers. The base syntax accepted is something similar
    /// to `PnYnMnDTnHnMn.nS`.
    ///
    /// The string can start with an optional sign, denoted by the ASCII negative or positive symbol.
    /// If negative, the whole period is negated. The accepted units are `Y`, `M`, `D`, `H`, and `S`.
    /// They must be in uppercase. Up to 9 digits of precision are supported by all units except years,
    /// which must be up to 5 digits. Note that fractions are only supported in the seconds position
    /// and only up to 6 digits of precision are supported.
    ///
    /// Some example strings:
    ///
    /// - `PT15M` (15 minutes)
    /// - `PT20.5S` (20.5 seconds)
    /// - `P10Y2M3DT10S` (10 years, 2 months, 3 days, and 10 seconds).
    /// - `-P30D` (-30 days)
    /// - `P-30D` (-30 days)
    /// - `-P-30DT30S` (30 days and -30 seconds).
    fn from_iso_format(s: &str) -> (r: Result<Interval, ParseError>)
        ensures
            lift_interval(r) == spec_interval_iso(s.spec_bytes()),
    {
        let mut parser = Parser::new(s);
        let ghost bytes = parser@.0;
        let negative = parser.parse_sign();
        parser.expect(80u8)?;
        let mut time_units = parser.advance_if_equal(84u8).is_some();
        let ghost p3 = parser@.1;
        let mut parsed_once = false;
        let mut years: i16 = 0;
        let mut months: i32 = 0;
        let mut days: i32 = 0;
        let mut hours: i32 = 0;
        let mut minutes: i32 = 0;
        let mut seconds: i32 = 0;
        let mut micros: i32 = 0;
        let ghost mut fuel: nat = (bytes.len() - p3 + 1) as nat;
        proof {
            use_type_invariant(&parser);
        }
        let ghost target = spec_iso_units(bytes, p3, fuel, time_units, false, (0, 0, 0, 0, 0, 0, 0));
        loop
            invariant_except_break
                0 <= parser@.1 <= bytes.len(),
                fuel >= bytes.len() - parser@.1 + 1,
                spec_iso_units(bytes, parser@.1, fuel, time_units, parsed_once, units_of(
                    years,
                    months,
                    days,
                    hours,
                    minutes,
                    seconds,
                    micros,
                )) == target,
            invariant
                parser@.0 == bytes,
                bytes == s.spec_bytes(),
                spec_interval_iso(bytes) == finish_interval(negative, target.0),
                -32768 <= years <= 32767,
                -999_999_999 <= months <= 999_999_999,
                -999_999_999 <= days <= 999_999_999,
                -999_999_999 <= hours <= 999_999_999,
                -999_999_999 <= minutes <= 999_999_999,
                -999_999_999 <= seconds <= 999_999_999,
                -999_999 <= micros <= 999_999,
            ensures
                target.0 == Ok::<IsoUnits, ParseError>(units_of(years, months, days, hours, minutes, seconds, micros)),
            decreases fuel,
        {
            let ghost p = parser@.1;
            let ghost u = units_of(years, months, days, hours, minutes, seconds, micros);
            match parser.peek() {
                Some(c) => {
                    if c == 84u8 {
                        if time_units {
                            return Err(ParseError::UnexpectedNonDigit);
                        }
                        time_units = true;
                        parser.advance();
                    }
                },
                None => {
                    if parsed_once {
                        break ;
                    } else {
                        return Err(ParseError::UnexpectedEnd);
                    }
                },
            }
            let minus = match parser.peek() {
                Some(c) => c == 45u8,
                None => false,
            };
            let value = parser.parse_i32()?;
            let ghost p2 = parser@.1;
            let unit = parser.advance();
            match unit {
                Some(c) => {
                    if c == 89u8 {
                        if time_units {
                            return Err(ParseError::UnexpectedChar('Y'));
                        }
                        if value < -32768 || value > 32767 {
                            return Err(ParseError::OutOfBounds);
                        }
                        years = value as i16;
                    } else if c == 77u8 {
                        if time_units {
                            minutes = value;
                        } else {
                            months = value;
                        }
                    } else if c == 68u8 {
                        if time_units {
                            return Err(ParseError::UnexpectedChar('D'));
                        }
                        days = value;
                    } else if c == 72u8 {
                        if !time_units {
                            return Err(ParseError::UnexpectedChar('H'));
                        }
                        hours = value;
                    } else if c == 83u8 {
                        if !time_units {
                            return Err(ParseError::UnexpectedChar('S'));
                        }
                        seconds = value;
                    } else if c == 46u8 {
                        if !time_units {
                            return Err(ParseError::UnexpectedChar('.'));
                        }
                        let m = parser.parse_microseconds()?;
                        parser.expect(83u8)?;
                        if let Some(c2) = parser.advance() {
                            return Err(ParseError::UnexpectedChar(c2 as char));
                        }
                        let m = m as i32;
                        micros = if minus {
                            -m
                        } else {
                            m
                        };
                        seconds = value;
                        break ;
                    } else {
                        return Err(ParseError::UnexpectedChar(c as char));
                    }
                },
                None => {
                    return Err(ParseError::UnexpectedEnd);
                },
            }
            parsed_once = true;
            proof {
                fuel = (fuel - 1) as nat;
            }
        }
        let in_minute: i64 = seconds as i64 * MICROS_PER_SEC + micros as i64;
        if negative {
            Ok(Interval::of_units(-(years as i32), -months, -days, -(hours as i64), -(minutes as i64), -in_minute))
        } else {
            Ok(Interval::of_units(years as i32, months, days, hours as i64, minutes as i64, in_minute))
        }
    }
}

/// The whole seconds and nanoseconds read from the units `nH`, `nM` and `nS` of an
/// ISO 8601 duration from position `p` on, within `fuel` units. Each unit may appear
/// once; `seen` tells which of hours, minutes and seconds were read. A fraction of
/// a second ends the string.
pub open spec fn spec_duration_units(s: Seq<u8>, p: int, fuel: nat, seen: (bool, bool, bool), total: int) -> Result<
    (int, int),
    ParseError,
>
    decreases fuel,
{
    if fuel == 0 {
        Err(ParseError::UnexpectedEnd)
    } else if byte_at(s, p) is None {
        if seen.0 || seen.1 || seen.2 {
            Ok((total, 0))
        } else {
            Err(ParseError::UnexpectedEnd)
        }
    } else {
        let (rv, p1) = crate::fmt::spec_digits(s, p, 9);
        match rv {
            Err(e) => Err(e),
            Ok(v) => match byte_at(s, p1) {
                None => Err(ParseError::UnexpectedEnd),
                Some(c) => if c == 77u8 {
                    if seen.1 {
                        Err(ParseError::UnexpectedChar('M'))
                    } else {
                        spec_duration_units(s, p1 + 1, (fuel - 1) as nat, (seen.0, true, seen.2), total + v * 60)
                    }
                } else if c == 83u8 {
                    if seen.2 {
                        Err(ParseError::UnexpectedChar('S'))
                    } else {
                        spec_duration_units(s, p1 + 1, (fuel - 1) as nat, (seen.0, seen.1, true), total + v)
                    }
                } else if c == 72u8 {
                    if seen.0 {
                        Err(ParseError::UnexpectedChar('H'))
                    } else {
                        spec_duration_units(s, p1 + 1, (fuel - 1) as nat, (true, seen.1, seen.2), total + v * 3600)
                    }
                } else if c == 46u8 {
                    let (rn, p2) = spec_fraction(s, p1 + 1, 9);
                    match rn {
                        Err(e) => Err(e),
                        Ok(n) => {
                            let (re, p3) = spec_expect(s, p2, 83u8);
                            match re {
                                Err(e) => Err(e),
                                Ok(_) => match byte_at(s, p3) {
                                    Some(c2) => Err(ParseError::UnexpectedChar(c2 as char)),
                                    None => Ok((total + v, n)),
                                },
                            }
                        },
                    }
                } else {
                    Err(ParseError::UnexpectedChar(c as char))
                },
            },
        }
    }
}

/// The whole seconds and nanoseconds of an ISO 8601 duration `PTnHnMn.nS`.
pub open spec fn spec_duration_iso(s: Seq<u8>) -> Result<(int, int), ParseError> {
    let (r1, p1) = spec_expect(s, 0, 80u8);
    let (r2, p2) = spec_expect(s, p1, 84u8);
    if r1 is Err {
        Err(r1->Err_0)
    } else if r2 is Err {
        Err(r2->Err_0)
    } else {
        spec_duration_units(s, p2, (s.len() - p2 + 1) as nat, (false, false, false), 0)
    }
}

/// A parsed duration as its whole seconds and nanoseconds.
pub open spec fn lift_duration(r: Result<(u64, u32), ParseError>) -> Result<(int, int), ParseError> {
    match r {
        Ok(v) => Ok((v.0 as int, v.1 as int)),
        Err(e) => Err(e),
    }
}

/// Parses an ISO-8601 formatted duration into its whole seconds and nanoseconds.
///
/// The base syntax accepted is something similar to `PTnHnMn.nS`. Negative numbers are
/// not accepted, and neither are the date units day, month, and year.
///
/// The accepted units are `H`, `M`, and `S`. They must be in uppercase. Up to 9 digits of precision
/// are supported by all units. Note that fractions are only supported in the seconds position.
///
/// Some example strings:
///
/// - `PT15M` (15 minutes)
/// - `PT20.5S` (20.5 seconds)
/// - `PT10H` (10 hours)
/// - `PT6H30M20.5S` (6 hours, 30 minutes, 20.5 seconds)
pub fn duration_from_iso_format(s: &str) -> (r: Result<(u64, u32), ParseError>)
    ensures
        lift_duration(r) == spec_duration_iso(s.spec_bytes()),
        r matches Ok(v) ==> v.1 < 1_000_000_000,
{
    let mut parser = Parser::new(s);
    let ghost bytes = parser@.0;
    parser.expect(80u8)?;
    parser.expect(84u8)?;
    let ghost p2 = parser@.1;
    let mut total_seconds: u64 = 0;
    let mut nanoseconds: u32 = 0;
    let mut seen_hours = false;
    let mut seen_minutes = false;
    let mut seen_seconds = false;
    proof {
        use_type_invariant(&parser);
    }
    let ghost mut fuel: nat = (bytes.len() - p2 + 1) as nat;
    let ghost target = spec_duration_units(bytes, p2, fuel, (false, false, false), 0);
    loop
        invariant_except_break
            0 <= parser@.1 <= bytes.len(),
            fuel >= bytes.len() - parser@.1 + 1,
            spec_duration_units(bytes, parser@.1, fuel, (seen_hours, seen_minutes, seen_seconds), total_seconds as int)
                == target,
            nanoseconds == 0,
            !seen_hours ==> total_seconds <= 60_000_000_000 + 1_000_000_000,
            !seen_minutes ==> total_seconds <= 3_600_000_000_000 + 1_000_000_000,
            !seen_seconds ==> total_seconds <= 3_600_000_000_000 + 60_000_000_000,
            !seen_hours && !seen_minutes ==> total_seconds <= 1_000_000_000,
            !seen_hours && !seen_seconds ==> total_seconds <= 60_000_000_000,
            !seen_minutes && !seen_seconds ==> total_seconds <= 3_600_000_000_000,
            !seen_hours && !seen_minutes && !seen_seconds ==> total_seconds == 0,
            total_seconds <= 3_600_000_000_000 + 60_000_000_000 + 1_000_000_000,
        invariant
            parser@.0 == bytes,
            bytes == s.spec_bytes(),
            spec_duration_iso(bytes) == target,
            total_seconds <= 3_600_000_000_000 + 60_000_000_000 + 2_000_000_000,
            nanoseconds < 1_000_000_000,
        ensures
            target == Ok::<(int, int), ParseError>((total_seconds as int, nanoseconds as int)),
        decreases fuel,
    {
        if parser.peek().is_none() {
            if seen_hours || seen_minutes || seen_seconds {
                break ;
            } else {
                return Err(ParseError::UnexpectedEnd);
            }
        }
        let value = parser.parse_u32()?;
        match parser.advance() {
            Some(c) => {
                if c == 77u8 {
                    if seen_minutes {
                        return Err(ParseError::UnexpectedChar('M'));
                    }
                    total_seconds = total_seconds + value as u64 * 60;
                    seen_minutes = true;
                } else if c == 83u8 {
                    if seen_seconds {
                        return Err(ParseError::UnexpectedChar('S'));
                    }
                    total_seconds = total_seconds + value as u64;
                    seen_seconds = true;
                } else if c == 72u8 {
                    if seen_hours {
                        return Err(ParseError::UnexpectedChar('H'));
                    }
                    total_seconds = total_seconds + value as u64 * 3600;
                    seen_hours = true;
                } else if c == 46u8 {
                    nanoseconds = parser.parse_nanoseconds()?;
                    parser.expect(83u8)?;
                    if let Some(c2) = parser.advance() {
                        return Err(ParseError::UnexpectedChar(c2 as char));
                    }
                    total_seconds = total_seconds + value as u64;
                    break ;
                } else {
                    return Err(ParseError::UnexpectedChar(c as char));
                }
            },
            None => {
                return Err(ParseError::UnexpectedEnd);
            },
        }
        proof {
            fuel = (fuel - 1) as nat;
        }
    }
    Ok((total_seconds, nanoseconds))
}

/// Writing a date in ISO 8601 form and reading it back gives the date, for a year
/// other than -32768.
#[verifier::rlimit(30)]
pub proof fn lemma_iso_date_roundtrip(d: (int, int, int))
    requires
        crate::gregorian::is_valid_date(d.0, d.1, d.2),
        i16::MIN < d.0 <= i16::MAX,
    ensures
        spec_date(vstd::utf8::encode_utf8(crate::display::iso_date(d)), 0).0 == Ok::<(int, int, int), ParseError>(d),
{
    lemma_date_chars(d);
    let codes = date_codes(d);
    let yl = year_codes(d.0).len() as int;
    assert forall|i: int| 0 <= i < codes.len() implies -48 <= #[trigger] codes[i] <= 79 by {
        if i < yl {
            assert(codes[i] == year_codes(d.0)[i]);
        }
    }
    lemma_codes_bytes(codes);
    let bs = vstd::utf8::encode_utf8(crate::display::iso_date(d));
    lemma_read_date_codes(bs, d);
    assert(codes[yl + 1] == d.1 / 10 && codes[yl + 3] == -3);
    assert(bs[yl + 1] == 48 + codes[yl + 1] && bs[yl + 3] == 48 + codes[yl + 3]);
    assert(crate::fmt::spec_month_part(bs, yl + 1, d.0) == (Ok::<(int, int, int), ParseError>(d), yl + 6));
}

/// Writing a time of day in ISO 8601 form and reading it back gives the time, for a
/// time whose nanoseconds are whole microseconds below a second.
#[verifier::rlimit(30)]
pub proof fn lemma_iso_time_roundtrip(t: (int, int, int, int))
    requires
        0 <= t.0 < 24,
        0 <= t.1 < 60,
        0 <= t.2 < 60,
        0 <= t.3 < 1_000_000_000,
        t.3 % 1000 == 0,
    ensures
        spec_time(vstd::utf8::encode_utf8(crate::display::iso_time(t, crate::display::default_time_precision(t))), 0).0
            == Ok::<(int, int, int, int), ParseError>(t),
{
    let us = t.3 / 1000;
    let tc = time_codes(t.0, t.1, t.2);
    let fc = fraction_codes(us);
    lemma_time_chars(t.0, t.1, t.2);
    lemma_fraction_chars(us);
    lemma_chars_of_codes_add(tc, fc);
    let cs = crate::display::iso_time(t, crate::display::default_time_precision(t));
    assert(cs =~= chars_of_codes(tc + fc));
    let codes = tc + fc;
    assert forall|i: int| 0 <= i < codes.len() implies -48 <= #[trigger] codes[i] <= 79 by {
        if i >= 8 {
            assert(codes[i] == fc[i - 8]);
        }
    }
    lemma_codes_bytes(codes);
    let bs = vstd::utf8::encode_utf8(cs);
    assert forall|i: int| 0 <= i < 8 implies bs[0 + i] == 48 + #[trigger] tc[i] by {
        assert(codes[i] == tc[i]);
    }
    assert forall|i: int| 0 <= i < fc.len() implies bs[0 + 8 + i] == 48 + #[trigger] fc[i] by {
        assert(codes[8 + i] == fc[i]);
    }
    lemma_read_time_codes(bs, 0, t.0, t.1, t.2, us);
}

/// The characters of a year written in ISO 8601 form, each as its distance from the
/// digit zero (a dash being three below it and a plus five below): four digits for a
/// year in `0..=9999`, otherwise a sign and at least four digits.
pub open spec fn year_codes(y: int) -> Seq<int> {
    let a = if y < 0 {
        -y
    } else {
        y
    };
    let four = seq![a / 1000, a / 100 % 10, a / 10 % 10, a % 10];
    let five = seq![a / 10000, a / 1000 % 10, a / 100 % 10, a / 10 % 10, a % 10];
    if 0 <= y <= 9999 {
        four
    } else if y < 0 && a <= 9999 {
        seq![-3int] + four
    } else if y < 0 {
        seq![-3int] + five
    } else {
        seq![-5int] + five
    }
}

/// The year part of a date written in ISO 8601 form is the characters of
/// [`year_codes`].
pub proof fn lemma_year_text(y: int)
    requires
        i16::MIN <= y <= i16::MAX,
    ensures
        (if 0 <= y <= 9999 {
            crate::display::zero_padded(y, 4, false)
        } else {
            crate::display::zero_padded(y, 5, true)
        }) == year_codes(y).map_values(|k: int| crate::display::digit_char(k)),
{
    let a = if y < 0 {
        -y
    } else {
        y
    };
    let codes = year_codes(y);
    if 0 <= y <= 9999 {
        crate::display::lemma_zero_padded_4(y);
        assert(crate::display::zero_padded(y, 4, false) =~= codes.map_values(|k: int| crate::display::digit_char(k)));
    } else if a <= 9999 {
        crate::display::lemma_zero_padded_4(a);
        assert(crate::display::zero_padded(y, 5, true) =~= seq!['-'] + crate::display::zero_padded(a, 4, false));
        assert(crate::display::zero_padded(y, 5, true) =~= codes.map_values(|k: int| crate::display::digit_char(k)));
    } else {
        crate::display::lemma_decimal_5(a);
        assert(crate::display::zero_padded(y, 5, true) =~= codes.map_values(|k: int| crate::display::digit_char(k)));
    }
}

/// `n` digits at position `p` read as their value.
pub proof fn lemma_fixed_digits(bs: Seq<u8>, p: int, n: int)
    requires
        0 <= p,
        0 <= n,
        p + n <= bs.len(),
        forall|i: int| p <= i < p + n ==> 48 <= #[trigger] bs[i] <= 57,
    ensures
        spec_fixed_digits(bs, p, n) == (Ok::<int, ParseError>(crate::fmt::digits_value(bs, p, n as nat)), p + n),
{
    assert(crate::fmt::is_digit_run(bs, p, n, n));
    crate::fmt::lemma_digit_run_unique(bs, p, n, n);
}

/// The characters of [`year_codes`], followed by one that is not a digit, read back
/// as the year.
#[verifier::rlimit(40)]
pub proof fn lemma_read_year(bs: Seq<u8>, y: int)
    requires
        i16::MIN < y <= i16::MAX,
        year_codes(y).len() < bs.len(),
        forall|i: int| 0 <= i < year_codes(y).len() ==> bs[i] == 48 + #[trigger] year_codes(y)[i],
        !is_digit(bs[year_codes(y).len() as int]),
    ensures
        spec_year(bs, 0) == (Ok::<int, ParseError>(y), year_codes(y).len() as int),
{
    let a = if y < 0 {
        -y
    } else {
        y
    };
    let codes = year_codes(y);
    if 0 <= y <= 9999 {
        assert(bs[0] == 48 + codes[0] && bs[1] == 48 + codes[1] && bs[2] == 48 + codes[2] && bs[3] == 48 + codes[3]);
        assert(spec_sign(bs, 0) == (false, 0int));
        lemma_fixed_digits(bs, 0, 4);
        assert(crate::fmt::digits_value(bs, 0, 4) == y) by {
            reveal_with_fuel(crate::fmt::digits_value, 5);
        }
    } else if a <= 9999 {
        assert(bs[0] == 48 + codes[0]);
        assert(bs[0] == 45);
        assert(bs[1] == 48 + codes[1] && bs[2] == 48 + codes[2] && bs[3] == 48 + codes[3] && bs[4] == 48 + codes[4]);
        assert(spec_sign(bs, 0) == (true, 1int));
        lemma_fixed_digits(bs, 1, 4);
        assert(crate::fmt::digits_value(bs, 1, 4) == a) by {
            reveal_with_fuel(crate::fmt::digits_value, 5);
        }
    } else {
        assert(bs[0] == 48 + codes[0]);
        assert(bs[0] == 43 || bs[0] == 45);
        assert(bs[1] == 48 + codes[1] && bs[2] == 48 + codes[2] && bs[3] == 48 + codes[3] && bs[4] == 48 + codes[4]);
        assert(bs[5] == 48 + codes[5]);
        assert(spec_sign(bs, 0) == (y < 0, 1int));
        lemma_fixed_digits(bs, 1, 4);
        assert(crate::fmt::digits_value(bs, 1, 4) == a / 10) by {
            reveal_with_fuel(crate::fmt::digits_value, 5);
        }
        assert(is_digit(bs[5]));
    }
}

/// The two decimal digits of a number below a hundred, each as its distance from
/// the digit zero.
pub open spec fn two_codes(v: int) -> Seq<int> {
    seq![v / 10, v % 10]
}

/// The characters that the codes stand for.
pub open spec fn chars_of_codes(codes: Seq<int>) -> Seq<char> {
    codes.map_values(|k: int| crate::display::digit_char(k))
}

/// The characters of joined codes are the joined characters.
pub proof fn lemma_chars_of_codes_add(a: Seq<int>, b: Seq<int>)
    ensures
        chars_of_codes(a + b) == chars_of_codes(a) + chars_of_codes(b),
{
    assert(chars_of_codes(a + b) =~= chars_of_codes(a) + chars_of_codes(b));
}

/// The characters of a date written in ISO 8601 form, each as its distance from the
/// digit zero.
pub open spec fn date_codes(d: (int, int, int)) -> Seq<int> {
    year_codes(d.0) + seq![-3int] + two_codes(d.1) + seq![-3int] + two_codes(d.2)
}

/// A date written in ISO 8601 form is the characters of [`date_codes`].
pub proof fn lemma_date_chars(d: (int, int, int))
    requires
        i16::MIN <= d.0 <= i16::MAX,
        1 <= d.1 <= 12,
        1 <= d.2 <= 31,
    ensures
        crate::display::iso_date(d) == chars_of_codes(date_codes(d)),
{
    lemma_year_text(d.0);
    crate::display::lemma_zero_padded_2(d.1);
    crate::display::lemma_zero_padded_2(d.2);
    assert(crate::display::iso_date(d) =~= chars_of_codes(date_codes(d)));
}

/// The bytes of the characters of codes that stand for ASCII characters are the
/// codes above the digit zero.
pub proof fn lemma_codes_bytes(codes: Seq<int>)
    requires
        forall|i: int| 0 <= i < codes.len() ==> -48 <= #[trigger] codes[i] <= 79,
    ensures
        vstd::utf8::encode_utf8(chars_of_codes(codes)).len() == codes.len(),
        forall|i: int|
            0 <= i < codes.len() ==> vstd::utf8::encode_utf8(chars_of_codes(codes))[i] == 48 + #[trigger] codes[i],
{
    let cs = chars_of_codes(codes);
    assert(vstd::utf8::is_ascii_chars(cs));
    vstd::utf8::is_ascii_chars_encode_utf8(cs);
    let bs = vstd::utf8::encode_utf8(cs);
    assert forall|i: int| 0 <= i < codes.len() implies bs[i] == 48 + #[trigger] codes[i] by {
        assert(cs[i] as u8 == bs[i]);
    }
}

/// Two digits at position `p` read as the number whose [`two_codes`] they are.
pub proof fn lemma_read_two(bs: Seq<u8>, p: int, v: int)
    requires
        0 <= v <= 99,
        0 <= p,
        p + 2 <= bs.len(),
        bs[p] == 48 + v / 10,
        bs[p + 1] == 48 + v % 10,
    ensures
        spec_fixed_digits(bs, p, 2) == (Ok::<int, ParseError>(v), p + 2),
{
    lemma_fixed_digits(bs, p, 2);
    reveal_with_fuel(crate::fmt::digits_value, 3);
}

/// The bytes of a date written in ISO 8601 form read back as the year, the month and
/// the day.
#[verifier::rlimit(30)]
pub proof fn lemma_read_date_codes(bs: Seq<u8>, d: (int, int, int))
    requires
        crate::gregorian::is_valid_date(d.0, d.1, d.2),
        i16::MIN < d.0 <= i16::MAX,
        date_codes(d).len() <= bs.len(),
        forall|i: int| 0 <= i < date_codes(d).len() ==> bs[i] == 48 + #[trigger] date_codes(d)[i],
    ensures
        ({
            let yl = year_codes(d.0).len() as int;
            &&& spec_year(bs, 0) == (Ok::<int, ParseError>(d.0), yl)
            &&& spec_expect(bs, yl, 45u8) == (Ok::<int, ParseError>(45), yl + 1)
            &&& crate::fmt::spec_month(bs, yl + 1) == (Ok::<int, ParseError>(d.1), yl + 3)
            &&& spec_expect(bs, yl + 3, 45u8) == (Ok::<int, ParseError>(45), yl + 4)
            &&& spec_fixed_digits(bs, yl + 4, 2) == (Ok::<int, ParseError>(d.2), yl + 6)
            &&& date_codes(d).len() == yl + 6
        }),
{
    let codes = date_codes(d);
    let yc = year_codes(d.0);
    let yl = yc.len() as int;
    assert forall|i: int| 0 <= i < yl implies bs[i] == 48 + #[trigger] yc[i] by {
        assert(codes[i] == yc[i]);
    }
    assert(codes[yl] == -3);
    assert(bs[yl] == 48 + codes[yl]);
    lemma_read_year(bs, d.0);
    assert(codes[yl + 1] == d.1 / 10 && codes[yl + 2] == d.1 % 10 && codes[yl + 3] == -3);
    assert(codes[yl + 4] == d.2 / 10 && codes[yl + 5] == d.2 % 10);
    assert(bs[yl + 1] == 48 + codes[yl + 1] && bs[yl + 2] == 48 + codes[yl + 2] && bs[yl + 3] == 48 + codes[yl + 3]);
    assert(bs[yl + 4] == 48 + codes[yl + 4] && bs[yl + 5] == 48 + codes[yl + 5]);
    lemma_read_two(bs, yl + 1, d.1);
    lemma_read_two(bs, yl + 4, d.2);
}

/// The characters of a time of day `HH:MM:SS`, each as its distance from the digit
/// zero (a colon being ten above it).
pub open spec fn time_codes(h: int, m: int, s: int) -> Seq<int> {
    two_codes(h) + seq![10int] + two_codes(m) + seq![10int] + two_codes(s)
}

/// The characters of the microseconds after a dot, none for zero microseconds, each
/// as its distance from the digit zero (the dot being two below it).
pub open spec fn fraction_codes(us: int) -> Seq<int> {
    if us != 0 {
        seq![-2int, us / 100000, us / 10000 % 10, us / 1000 % 10, us / 100 % 10, us / 10 % 10, us % 10]
    } else {
        Seq::empty()
    }
}

/// A time written `HH:MM:SS` is the characters of [`time_codes`].
pub proof fn lemma_time_chars(h: int, m: int, s: int)
    requires
        0 <= h <= 99,
        0 <= m <= 99,
        0 <= s <= 99,
    ensures
        crate::display::zero_padded(h, 2, false) + seq![':'] + crate::display::zero_padded(m, 2, false) + seq![':'] + crate::display::zero_padded(s, 2, false)
            == chars_of_codes(time_codes(h, m, s)),
{
    crate::display::lemma_zero_padded_2(h);
    crate::display::lemma_zero_padded_2(m);
    crate::display::lemma_zero_padded_2(s);
    assert(crate::display::zero_padded(h, 2, false) + seq![':'] + crate::display::zero_padded(m, 2, false) + seq![':'] + crate::display::zero_padded(s, 2, false)
        =~= chars_of_codes(time_codes(h, m, s)));
}

/// The microseconds written after a dot are the characters of [`fraction_codes`].
pub proof fn lemma_fraction_chars(us: int)
    requires
        0 <= us <= 999_999,
    ensures
        (if us != 0 {
            seq!['.'] + crate::display::zero_padded(us, 6, false)
        } else {
            Seq::empty()
        }) == chars_of_codes(fraction_codes(us)),
{
    if us != 0 {
        crate::display::lemma_zero_padded_6(us);
        assert(seq!['.'] + crate::display::zero_padded(us, 6, false) =~= chars_of_codes(fraction_codes(us)));
    } else {
        assert(Seq::<char>::empty() =~= chars_of_codes(fraction_codes(us)));
    }
}

/// The bytes of a time `HH:MM:SS` at position `p`, followed by the fraction of
/// [`fraction_codes`] and then a sign or nothing, read back as the time.
#[verifier::rlimit(30)]
pub proof fn lemma_read_time_codes(bs: Seq<u8>, p: int, h: int, m: int, s: int, us: int)
    requires
        0 <= p,
        0 <= h < 24,
        0 <= m < 60,
        0 <= s <= 60,
        0 <= us <= 999_999,
        p + 8 + fraction_codes(us).len() <= bs.len(),
        forall|i: int| 0 <= i < 8 ==> bs[p + i] == 48 + #[trigger] time_codes(h, m, s)[i],
        forall|i: int|
            0 <= i < fraction_codes(us).len() ==> bs[p + 8 + i] == 48 + #[trigger] fraction_codes(us)[i],
        p + 8 + fraction_codes(us).len() == bs.len() || bs[p + 8 + fraction_codes(us).len()] == 43
            || bs[p + 8 + fraction_codes(us).len()] == 45,
    ensures
        spec_time(bs, p) == (Ok::<(int, int, int, int), ParseError>(
            if s == 60 {
                (h, m, 59int, us * 1000 + 1_000_000_000)
            } else {
                (h, m, s, us * 1000)
            },
        ), p + 8 + fraction_codes(us).len()),
{
    let tc = time_codes(h, m, s);
    let fc = fraction_codes(us);
    let q = p + 8 + fc.len();
    assert(bs[p] == 48 + tc[0] && bs[p + 1] == 48 + tc[1] && bs[p + 2] == 48 + tc[2]);
    assert(bs[p + 3] == 48 + tc[3] && bs[p + 4] == 48 + tc[4] && bs[p + 5] == 48 + tc[5]);
    assert(bs[p + 6] == 48 + tc[6] && bs[p + 7] == 48 + tc[7]);
    lemma_read_two(bs, p, h);
    lemma_read_two(bs, p + 3, m);
    lemma_read_two(bs, p + 6, s);
    assert(spec_expect(bs, p + 2, 58u8) == (Ok::<int, ParseError>(58), p + 3));
    if us != 0 {
        assert(bs[p + 8] == 48 + fc[0]);
        assert(bs[p + 9] == 48 + fc[1] && bs[p + 10] == 48 + fc[2] && bs[p + 11] == 48 + fc[3]);
        assert(bs[p + 12] == 48 + fc[4] && bs[p + 13] == 48 + fc[5] && bs[p + 14] == 48 + fc[6]);
        assert(crate::fmt::is_digit_run(bs, p + 9, 9, 6));
        crate::fmt::lemma_digit_run_unique(bs, p + 9, 9, 6);
        assert(crate::fmt::digits_value(bs, p + 9, 6) == us) by {
            reveal_with_fuel(crate::fmt::digits_value, 7);
        }
        assert(crate::fmt::pow10(3) == 1000) by {
            reveal_with_fuel(crate::fmt::pow10, 4);
        }
        assert(crate::fmt::spec_seconds_part(bs, p + 5) == (Ok::<(int, int), ParseError>((s, us * 1000)), q));
    } else {
        assert(crate::fmt::spec_seconds_part(bs, p + 5) == (Ok::<(int, int), ParseError>((s, 0)), q));
    }
}

} // verus!
