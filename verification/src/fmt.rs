//! Utilities for formatting and parsing various types in the library.
//!
//! Parsing reads the bytes of a string from left to right. Each parsing step is
//! described by a spec function from the bytes and the current position to the
//! outcome of the step and the position after it.
use vstd::prelude::*;

use crate::date::{Date, IsoWeekDate, Weekday};
use crate::gregorian::{
    clamp_i16, date_of_epoch_days, is_valid_date, spec_days_in_month, spec_epoch_days,
    spec_is_leap_year, spec_iso_week_start,
};
use crate::time::Time;
use vstd::string::StringSliceAdditionalSpecFns;
use vstd::utf8::{is_char_boundary, length_of_first_scalar, pop_first_scalar, valid_first_scalar, valid_utf8};

verus! {

/// The error type that occurs during parsing a string.
#[derive(Debug, Clone, Copy, PartialEq, Eq, Structural, PartialOrd, Ord, Hash)]
#[non_exhaustive]
pub enum ParseError {
    /// The parser expected a character but there were no more.
    UnexpectedEnd,
    /// The parser expected a character but it found something else.
    ///
    /// The inner character is the character found.
    UnexpectedChar(char),
    /// The parser expected a digit but did not find one
    UnexpectedNonDigit,
    /// The parser found an unsupported directive or modifier.
    UnsupportedSpecifier,
    /// A value was out of bounds (such as a year, month, day, etc.)
    ///
    /// To prevent the enum from bloating up these are all consolidated into one variant.
    OutOfBounds,
}

/// Whether a byte is an ASCII digit.
pub open spec fn is_digit(b: u8) -> bool {
    48 <= b <= 57
}

/// The byte at position `p`, if there is one.
pub open spec fn byte_at(s: Seq<u8>, p: int) -> Option<u8> {
    if 0 <= p < s.len() {
        Some(s[p])
    } else {
        None
    }
}

/// The `k` bytes from position `p` on are all ASCII digits.
pub open spec fn all_digits(s: Seq<u8>, p: int, k: int) -> bool {
    forall|i: int| p <= i < p + k ==> 0 <= i < s.len() && #[trigger] is_digit(s[i])
}

/// `k` is the length of the run of digits at position `p`, cut off at `max`.
pub open spec fn is_digit_run(s: Seq<u8>, p: int, max: int, k: int) -> bool {
    &&& 0 <= k <= max
    &&& all_digits(s, p, k)
    &&& (k == max || !(byte_at(s, p + k) matches Some(b) && is_digit(b)))
}

/// The number of consecutive digits at position `p`, up to `max` of them.
pub open spec fn digit_run(s: Seq<u8>, p: int, max: int) -> int {
    choose|k: int| is_digit_run(s, p, max, k)
}

/// The number written by the `n` digits from position `p` on.
pub open spec fn digits_value(s: Seq<u8>, p: int, n: nat) -> int
    decreases n,
{
    if n == 0 {
        0
    } else {
        digits_value(s, p, (n - 1) as nat) * 10 + (s[p + n - 1] - 48)
    }
}

/// Ten to the power `n`.
pub open spec fn pow10(n: nat) -> int
    decreases n,
{
    if n == 0 {
        1
    } else {
        10 * pow10((n - 1) as nat)
    }
}

/// A run of digits has one length.
pub proof fn lemma_digit_run_unique(s: Seq<u8>, p: int, max: int, k: int)
    requires
        0 <= max,
        is_digit_run(s, p, max, k),
    ensures
        digit_run(s, p, max) == k,
{
    assert(is_digit_run(s, p, max, k));
    let j = digit_run(s, p, max);
    assert(is_digit_run(s, p, max, j));
    if j < k {
        assert(is_digit(s[p + j]));
    } else if k < j {
        assert(is_digit(s[p + k]));
    }
}

/// `k` bytes of `name` match the input from position `p` on, and the byte after them
/// does not, or the input or the name ends there.
pub open spec fn is_prefix_len(s: Seq<u8>, p: int, name: Seq<u8>, k: int) -> bool {
    &&& 0 <= k <= name.len()
    &&& 0 <= p && p + k <= s.len()
    &&& forall|i: int| 0 <= i < k ==> s[p + i] == name[i]
    &&& (k == name.len() || p + k == s.len() || s[p + k] != name[k])
}

/// How many bytes of `name` the input continues with from position `p`.
pub open spec fn prefix_len(s: Seq<u8>, p: int, name: Seq<u8>) -> int {
    choose|k: int| is_prefix_len(s, p, name, k)
}

/// A matching prefix has one length.
pub proof fn lemma_prefix_len_unique(s: Seq<u8>, p: int, name: Seq<u8>, k: int)
    requires
        is_prefix_len(s, p, name, k),
    ensures
        prefix_len(s, p, name) == k,
{
    let j = prefix_len(s, p, name);
    assert(is_prefix_len(s, p, name, j));
    if j < k {
        assert(s[p + j] == name[j]);
    } else if k < j {
        assert(s[p + k] == name[k]);
    }
}

/// The outcome of expecting the bytes of `name`: the error names the first byte that
/// differs, or the end of the input.
pub open spec fn spec_expect_str(s: Seq<u8>, p: int, name: Seq<u8>) -> Result<(), ParseError> {
    let k = prefix_len(s, p, name);
    if k == name.len() {
        Ok(())
    } else if p + k == s.len() {
        Err(ParseError::UnexpectedEnd)
    } else {
        Err(ParseError::UnexpectedChar(s[p + k] as char))
    }
}

/// The outcome of reading up to `max` digits: the number they write, or
/// [`ParseError::UnexpectedNonDigit`] when there is none.
pub open spec fn spec_digits(s: Seq<u8>, p: int, max: int) -> (Result<int, ParseError>, int) {
    let k = digit_run(s, p, max);
    if k == 0 {
        (Err(ParseError::UnexpectedNonDigit), p)
    } else {
        (Ok(digits_value(s, p, k as nat)), p + k)
    }
}

/// The outcome of reading exactly `n` digits. On a failure, the offending byte has
/// been consumed.
pub open spec fn spec_fixed_digits(s: Seq<u8>, p: int, n: int) -> (Result<int, ParseError>, int) {
    let k = digit_run(s, p, n);
    if k == n {
        (Ok(digits_value(s, p, n as nat)), p + n)
    } else if p + k >= s.len() {
        (Err(ParseError::UnexpectedEnd), s.len() as int)
    } else {
        (Err(ParseError::UnexpectedNonDigit), p + k + 1)
    }
}

/// The outcome of reading up to `max` fractional digits, scaled to `max` digits.
pub open spec fn spec_fraction(s: Seq<u8>, p: int, max: int) -> (Result<int, ParseError>, int) {
    let k = digit_run(s, p, max);
    if k == 0 {
        (Err(ParseError::UnexpectedNonDigit), p)
    } else {
        (Ok(digits_value(s, p, k as nat) * pow10((max - k) as nat)), p + k)
    }
}

/// The outcome of expecting the byte `b`.
pub open spec fn spec_expect(s: Seq<u8>, p: int, b: u8) -> (Result<int, ParseError>, int) {
    match byte_at(s, p) {
        Some(c) => if c == b {
            (Ok(b as int), p + 1)
        } else {
            (Err(ParseError::UnexpectedChar(c as char)), p + 1)
        },
        None => (Err(ParseError::UnexpectedEnd), p),
    }
}

/// The outcome of an optional sign: whether it is negative, and the position after it.
pub open spec fn spec_sign(s: Seq<u8>, p: int) -> (bool, int) {
    if byte_at(s, p) == Some(43u8) {
        (false, p + 1)
    } else if byte_at(s, p) == Some(45u8) {
        (true, p + 1)
    } else {
        (false, p)
    }
}

/// The outcome of a required sign: whether it is negative.
pub open spec fn spec_required_sign(s: Seq<u8>, p: int) -> (Result<bool, ParseError>, int) {
    match byte_at(s, p) {
        Some(c) => if c == 43u8 {
            (Ok(false), p + 1)
        } else if c == 45u8 {
            (Ok(true), p + 1)
        } else {
            (Err(ParseError::UnexpectedChar(c as char)), p)
        },
        None => (Err(ParseError::UnexpectedEnd), p),
    }
}

/// The outcome of reading a year matching `±?YYYYY?`: four required digits, an
/// optional fifth, and a value that fits in an `i16` before its sign is applied.
pub open spec fn spec_year(s: Seq<u8>, p: int) -> (Result<int, ParseError>, int) {
    let (negative, p1) = spec_sign(s, p);
    let (r, p2) = spec_fixed_digits(s, p1, 4);
    match r {
        Err(e) => (Err(e), p2),
        Ok(v) => {
            let (year, p3) = if byte_at(s, p2) matches Some(b) && is_digit(b) {
                (v * 10 + (s[p2] - 48), p2 + 1)
            } else {
                (v, p2)
            };
            if year > i16::MAX {
                (Err(ParseError::OutOfBounds), p3)
            } else {
                (Ok(if negative { -year } else { year }), p3)
            }
        },
    }
}

/// The outcome of reading a month `MM` in `1..=12`.
pub open spec fn spec_month(s: Seq<u8>, p: int) -> (Result<int, ParseError>, int) {
    let (r, p1) = spec_fixed_digits(s, p, 2);
    match r {
        Err(e) => (Err(e), p1),
        Ok(m) => if m == 0 || m > 12 {
            (Err(ParseError::OutOfBounds), p1)
        } else {
            (Ok(m), p1)
        },
    }
}

/// The outcome of reading an optionally signed number of up to 9 digits.
pub open spec fn spec_i32(s: Seq<u8>, p: int) -> (Result<int, ParseError>, int) {
    let (negative, p1) = spec_sign(s, p);
    let (r, p2) = spec_digits(s, p1, 9);
    match r {
        Err(e) => (Err(e), p2),
        Ok(v) => (Ok(if negative { -v } else { v }), p2),
    }
}

/// The date of the ISO week date with the given year, week and days after Monday,
/// with the year clamped to the range of `i16`.
pub open spec fn spec_week_date(year: int, week: int, days_after_monday: int) -> (int, int, int) {
    let d = date_of_epoch_days(spec_iso_week_start(year) + (week - 1) * 7 + days_after_monday);
    (clamp_i16(d.0), d.1, d.2)
}

/// The date of the given ordinal day of a year.
pub open spec fn spec_ordinal_date(year: int, ordinal: int) -> (int, int, int) {
    date_of_epoch_days(spec_epoch_days(year, 1, 1) + ordinal - 1)
}

/// The outcome of the week part `Www[-D]` of a week date of the given year, after the `W`.
pub open spec fn spec_week_part(s: Seq<u8>, p: int, year: int) -> (Result<(int, int, int), ParseError>, int) {
    let (rw, p1) = spec_fixed_digits(s, p, 2);
    match rw {
        Err(e) => (Err(e), p1),
        Ok(week) => if week == 0 || week > crate::date::spec_iso_weeks_in_year(
            year,
        ) {
            (Err(ParseError::OutOfBounds), p1)
        } else if byte_at(s, p1) == Some(45u8) {
            let (rd, p2) = spec_fixed_digits(s, p1 + 1, 1);
            match rd {
                Err(e) => (Err(e), p2),
                Ok(d) => if 1 <= d <= 7 {
                    (Ok(spec_week_date(year, week, d - 1)), p2)
                } else {
                    (Err(ParseError::OutOfBounds), p2)
                },
            }
        } else {
            (Ok(spec_week_date(year, week, 0)), p1)
        },
    }
}

/// The outcome of the part `MM[-DD]` or `DDD` of a calendar or ordinal date of the given year.
pub open spec fn spec_month_part(s: Seq<u8>, p: int, year: int) -> (Result<(int, int, int), ParseError>, int) {
    let (rm, p1) = spec_fixed_digits(s, p, 2);
    match rm {
        Err(e) => (Err(e), p1),
        Ok(mm) => if byte_at(s, p1) matches Some(b) && is_digit(b) {
            let ordinal = mm * 10 + (s[p1] - 48);
            if 1 <= ordinal <= if spec_is_leap_year(year) { 366int } else { 365int } {
                (Ok(spec_ordinal_date(year, ordinal)), p1 + 1)
            } else {
                (Err(ParseError::OutOfBounds), p1 + 1)
            }
        } else if mm == 0 || mm > 12 {
            (Err(ParseError::OutOfBounds), p1)
        } else if byte_at(s, p1) == Some(45u8) {
            let (rd, p2) = spec_fixed_digits(s, p1 + 1, 2);
            match rd {
                Err(e) => (Err(e), p2),
                Ok(day) => if day == 0 || day > spec_days_in_month(year, mm) {
                    (Err(ParseError::OutOfBounds), p2)
                } else {
                    (Ok((year, mm, day)), p2)
                },
            }
        } else {
            (Ok((year, mm, 1)), p1)
        },
    }
}

/// The outcome of reading a date in one of the formats `±YYYYY-MM-DD`, `±YYYYY-MM`,
/// `±YYYYY-Www`, `±YYYYY-Www-D` and `±YYYYY-DDD`.
pub open spec fn spec_date(s: Seq<u8>, p: int) -> (Result<(int, int, int), ParseError>, int) {
    let (ry, p1) = spec_year(s, p);
    match ry {
        Err(e) => (Err(e), p1),
        Ok(year) => {
            let (rd, p2) = spec_expect(s, p1, 45u8);
            match rd {
                Err(e) => (Err(e), p2),
                Ok(_) => if byte_at(s, p2) == Some(87u8) {
                    spec_week_part(s, p2 + 1, year)
                } else {
                    spec_month_part(s, p2, year)
                },
            }
        },
    }
}

/// The seconds and nanoseconds of the optional part `:SS[.fffffffff]` of a time.
pub open spec fn spec_seconds_part(s: Seq<u8>, p: int) -> (Result<(int, int), ParseError>, int) {
    if byte_at(s, p) == Some(58u8) {
        let (rs, p1) = spec_fixed_digits(s, p + 1, 2);
        match rs {
            Err(e) => (Err(e), p1),
            Ok(second) => if byte_at(s, p1) == Some(46u8) || byte_at(s, p1) == Some(44u8) {
                let (rn, p2) = spec_fraction(s, p1 + 1, 9);
                match rn {
                    Err(e) => (Err(e), p2),
                    Ok(nanos) => (Ok((second, nanos)), p2),
                }
            } else {
                (Ok((second, 0)), p1)
            },
        }
    } else {
        (Ok((0, 0)), p)
    }
}

/// The outcome of reading a time in one of the formats `HH:MM`, `HH:MM:SS`
/// and `HH:MM:SS.fffffffff` (with `.` or `,`). A second of 60 is a leap second.
pub open spec fn spec_time(s: Seq<u8>, p: int) -> (Result<(int, int, int, int), ParseError>, int) {
    let (rh, p1) = spec_fixed_digits(s, p, 2);
    match rh {
        Err(e) => (Err(e), p1),
        Ok(hour) => {
            let (rc, p2) = spec_expect(s, p1, 58u8);
            match rc {
                Err(e) => (Err(e), p2),
                Ok(_) => {
                    let (rm, p3) = spec_fixed_digits(s, p2, 2);
                    match rm {
                        Err(e) => (Err(e), p3),
                        Ok(minute) => {
                            let (rs, p4) = spec_seconds_part(s, p3);
                            match rs {
                                Err(e) => (Err(e), p4),
                                Ok(sn) => {
                                    let (second, nanos) = if sn.0 == 60 {
                                        (59, sn.1 + 1_000_000_000)
                                    } else {
                                        sn
                                    };
                                    if hour > 23 || minute > 59 || second > 59 || nanos > 1_999_999_999 {
                                        (Err(ParseError::OutOfBounds), p4)
                                    } else {
                                        (Ok((hour, minute, second, nanos)), p4)
                                    }
                                },
                            }
                        },
                    }
                },
            }
        },
    }
}

/// A parsed integer as a mathematical integer.
pub open spec fn lift_u8(r: Result<u8, ParseError>) -> Result<int, ParseError> {
    match r {
        Ok(v) => Ok(v as int),
        Err(e) => Err(e),
    }
}

/// A parsed integer as a mathematical integer.
pub open spec fn lift_u16(r: Result<u16, ParseError>) -> Result<int, ParseError> {
    match r {
        Ok(v) => Ok(v as int),
        Err(e) => Err(e),
    }
}

/// A parsed integer as a mathematical integer.
pub open spec fn lift_i16(r: Result<i16, ParseError>) -> Result<int, ParseError> {
    match r {
        Ok(v) => Ok(v as int),
        Err(e) => Err(e),
    }
}

/// A parsed integer as a mathematical integer.
pub open spec fn lift_u32(r: Result<u32, ParseError>) -> Result<int, ParseError> {
    match r {
        Ok(v) => Ok(v as int),
        Err(e) => Err(e),
    }
}

/// A parsed integer as a mathematical integer.
pub open spec fn lift_i32(r: Result<i32, ParseError>) -> Result<int, ParseError> {
    match r {
        Ok(v) => Ok(v as int),
        Err(e) => Err(e),
    }
}

/// A parsed date as its year, month and day.
pub open spec fn lift_date(r: Result<Date, ParseError>) -> Result<(int, int, int), ParseError> {
    match r {
        Ok(d) => Ok(d@),
        Err(e) => Err(e),
    }
}

/// A parsed time as its hour, minute, second and nanosecond.
pub open spec fn lift_time(r: Result<Time, ParseError>) -> Result<(int, int, int, int), ParseError> {
    match r {
        Ok(t) => Ok(t@),
        Err(e) => Err(e),
    }
}

/// A parsed pair of second and nanosecond as mathematical integers.
pub open spec fn lift_pair(r: Result<(u8, u32), ParseError>) -> Result<(int, int), ParseError> {
    match r {
        Ok(v) => Ok((v.0 as int, v.1 as int)),
        Err(e) => Err(e),
    }
}

/// The date with a given ordinal day of its year is the one [`spec_ordinal_date`] names.
pub proof fn lemma_ordinal_date(year: int, month: int, day: int, ordinal: int)
    requires
        is_valid_date(year, month, day),
        crate::gregorian::spec_days_before_month(year, month) + day == ordinal,
    ensures
        spec_ordinal_date(year, ordinal) == (year, month, day),
{
    crate::gregorian::lemma_days_before_month_values(year);
    crate::gregorian::lemma_epoch_days_roundtrip(year, month, day);
}

/// A parser to parse date time strings.
///
/// It reads the bytes of a string from left to right.
pub struct Parser<'a> {
    bytes: &'a [u8],
    pos: usize,
}

impl<'a> View for Parser<'a> {
    type V = (Seq<u8>, int);

    /// The bytes being read and the position of the next byte.
    closed spec fn view(&self) -> (Seq<u8>, int) {
        (self.bytes@, self.pos as int)
    }
}

impl<'a> Parser<'a> {
    /// The position of a parser never passes the end of its bytes.
    #[verifier::type_invariant]
    pub open spec fn inv(&self) -> bool {
        0 <= self@.1 <= self@.0.len()
    }

    /// Creates a parser at the start of a string.
    pub fn new(s: &'a str) -> (r: Parser<'a>)
        ensures
            r@ == (s.spec_bytes(), 0int),
    {
        Parser { bytes: s.as_bytes(), pos: 0 }
    }

    /// Creates a parser at the start of a byte string.
    pub fn from_bytes(bytes: &'a [u8]) -> (r: Parser<'a>)
        ensures
            r@ == (bytes@, 0int),
    {
        Parser { bytes, pos: 0 }
    }

    /// Returns the position of the next byte.
    pub fn position(&self) -> (r: usize)
        ensures
            r == self@.1,
            r <= self@.0.len(),
    {
        proof {
            use_type_invariant(self);
        }
        self.pos
    }

    /// Returns the number of bytes being read.
    pub fn len(&self) -> (r: usize)
        ensures
            r == self@.0.len(),
    {
        self.bytes.len()
    }

    /// Returns the byte at a position.
    pub fn byte(&self, i: usize) -> (r: u8)
        requires
            i < self@.0.len(),
        ensures
            r == self@.0[i as int],
    {
        self.bytes[i]
    }

    /// Moves the position `k` bytes forward, as far as the end.
    pub fn advance_by(&mut self, k: usize) -> (r: usize)
        ensures
            final(self)@.0 == old(self)@.0,
            old(self)@.1 + k <= old(self)@.0.len() ==> final(self)@.1 == old(self)@.1 + k,
            r == final(self)@.1,
    {
        proof {
            use_type_invariant(&*self);
        }
        if k <= self.bytes.len() - self.pos {
            self.pos = self.pos + k;
        } else {
            self.pos = self.bytes.len();
        }
        self.pos
    }

    /// Peeks the next byte in the stream.
    pub fn peek(&self) -> (r: Option<u8>)
        ensures
            r == byte_at(self@.0, self@.1),
    {
        proof {
            use_type_invariant(self);
        }
        if self.pos < self.bytes.len() {
            Some(self.bytes[self.pos])
        } else {
            None
        }
    }

    /// Advances the stream by 1 byte.
    pub fn advance(&mut self) -> (r: Option<u8>)
        ensures
            r == byte_at(old(self)@.0, old(self)@.1),
            final(self)@ == (old(self)@.0, if r is Some {
                old(self)@.1 + 1
            } else {
                old(self)@.1
            }),
    {
        proof {
            use_type_invariant(&*self);
        }
        if self.pos < self.bytes.len() {
            let b = self.bytes[self.pos];
            self.pos = self.pos + 1;
            Some(b)
        } else {
            None
        }
    }

    /// Advances the stream by 1 byte if the next byte matches the expected one.
    pub fn advance_if_equal(&mut self, expected: u8) -> (r: Option<u8>)
        ensures
            r == if byte_at(old(self)@.0, old(self)@.1) == Some(expected) {
                Some(expected)
            } else {
                None::<u8>
            },
            final(self)@ == (old(self)@.0, if r is Some {
                old(self)@.1 + 1
            } else {
                old(self)@.1
            }),
    {
        proof {
            use_type_invariant(&*self);
        }
        if self.pos < self.bytes.len() && self.bytes[self.pos] == expected {
            self.pos = self.pos + 1;
            Some(expected)
        } else {
            None
        }
    }

    /// Advances the stream by 1 byte if the next byte is an ASCII digit.
    pub fn advance_if_digit(&mut self) -> (r: Option<u8>)
        ensures
            r == if byte_at(old(self)@.0, old(self)@.1) matches Some(b) && is_digit(b) {
                byte_at(old(self)@.0, old(self)@.1)
            } else {
                None::<u8>
            },
            final(self)@ == (old(self)@.0, if r is Some {
                old(self)@.1 + 1
            } else {
                old(self)@.1
            }),
    {
        proof {
            use_type_invariant(&*self);
        }
        if self.pos < self.bytes.len() && self.bytes[self.pos] >= 48 && self.bytes[self.pos] <= 57 {
            let b = self.bytes[self.pos];
            self.pos = self.pos + 1;
            Some(b)
        } else {
            None
        }
    }

    /// Reads the run of up to `max` digits at the current position, returning how
    /// many were read and the number they write.
    fn read_digits(&mut self, max: usize) -> (r: (usize, u32))
        requires
            max <= 9,
        ensures
            is_digit_run(old(self)@.0, old(self)@.1, max as int, r.0 as int),
            r.0 == digit_run(old(self)@.0, old(self)@.1, max as int),
            r.1 == digits_value(old(self)@.0, old(self)@.1, r.0 as nat),
            r.1 < pow10(r.0 as nat),
            final(self)@ == (old(self)@.0, old(self)@.1 + r.0),
    {
        let ghost s = self@.0;
        let ghost p = self@.1;
        let mut count: usize = 0;
        let mut value: u32 = 0;
        while count < max
            invariant
                s == old(self)@.0,
                p == old(self)@.1,
                self@.0 == s,
                self@.1 == p + count,
                count <= max <= 9,
                all_digits(s, p, count as int),
                value == digits_value(s, p, count as nat),
                value < pow10(count as nat),
                pow10(count as nat) <= 1_000_000_000,
            decreases max - count,
        {
            proof {
                lemma_pow10_bounds(count as nat, max as nat);
            }
            match self.advance_if_digit() {
                Some(b) => {
                    proof {
                        assert(s[p + count] == b);
                        assert(value * 10 + (b - 48) < pow10((count + 1) as nat)) by (nonlinear_arith)
                            requires
                                value < pow10(count as nat),
                                pow10((count + 1) as nat) == 10 * pow10(count as nat),
                                48 <= b <= 57,
                        ;
                        lemma_pow10_bounds((count + 1) as nat, max as nat);
                    }
                    value = value * 10 + (b - 48) as u32;
                    count = count + 1;
                },
                None => {
                    proof {
                        assert(is_digit_run(s, p, max as int, count as int));
                        lemma_digit_run_unique(s, p, max as int, count as int);
                    }
                    return (count, value);
                },
            }
        }
        proof {
            assert(is_digit_run(s, p, max as int, count as int));
            lemma_digit_run_unique(s, p, max as int, count as int);
        }
        (count, value)
    }

    /// Parses up to 9 digits, returning the number being represented.
    ///
    /// This also handles the optional sign. If no numbers are given then this errors.
    pub fn parse_i32(&mut self) -> (r: Result<i32, ParseError>)
        ensures
            (lift_i32(r), final(self)@.1) == spec_i32(old(self)@.0, old(self)@.1),
            final(self)@.0 == old(self)@.0,
            r matches Ok(v) ==> -999_999_999 <= v <= 999_999_999 && final(self)@.1 > old(self)@.1,
    {
        let negative = self.parse_sign();
        let (count, value) = self.read_digits(9);
        if count == 0 {
            Err(ParseError::UnexpectedNonDigit)
        } else {
            proof {
                lemma_pow10_bounds(count as nat, 9);
                reveal_with_fuel(pow10, 10);
            }
            let n = value as i32;
            Ok(if negative { -n } else { n })
        }
    }

    /// Parses up to `max` digits (at most nine), returning the number being represented.
    pub fn parse_up_to(&mut self, max: usize) -> (r: Result<u32, ParseError>)
        requires
            max <= 9,
        ensures
            (lift_u32(r), final(self)@.1) == spec_digits(old(self)@.0, old(self)@.1, max as int),
            final(self)@.0 == old(self)@.0,
    {
        let (count, value) = self.read_digits(max);
        if count == 0 {
            Err(ParseError::UnexpectedNonDigit)
        } else {
            Ok(value)
        }
    }

    /// Parses up to 9 digits, returning the number being represented.
    ///
    /// If no numbers are given then this errors.
    pub fn parse_u32(&mut self) -> (r: Result<u32, ParseError>)
        ensures
            (lift_u32(r), final(self)@.1) == spec_digits(old(self)@.0, old(self)@.1, 9),
            final(self)@.0 == old(self)@.0,
            r matches Ok(v) ==> v <= 999_999_999 && final(self)@.1 > old(self)@.1,
    {
        let (count, value) = self.read_digits(9);
        if count == 0 {
            Err(ParseError::UnexpectedNonDigit)
        } else {
            proof {
                lemma_pow10_bounds(count as nat, 9);
                reveal_with_fuel(pow10, 10);
            }
            Ok(value)
        }
    }

    /// Parses up to `max` digits (at most four), returning the number being represented.
    ///
    /// This is mainly used for parsing between 2-3 digits without leading zeroes.
    pub fn parse_u16(&mut self, max: usize) -> (r: Result<u16, ParseError>)
        requires
            max <= 4,
        ensures
            (lift_u16(r), final(self)@.1) == spec_digits(old(self)@.0, old(self)@.1, max as int),
            final(self)@.0 == old(self)@.0,
            r matches Ok(v) ==> v < pow10(max as nat),
    {
        let (count, value) = self.read_digits(max);
        if count == 0 {
            Err(ParseError::UnexpectedNonDigit)
        } else {
            proof {
                lemma_pow10_bounds(count as nat, 4);
                reveal_with_fuel(pow10, 5);
            }
            Ok(value as u16)
        }
    }

    /// Parses up to 9 digits of a fraction of a second, returning the nanoseconds.
    pub fn parse_nanoseconds(&mut self) -> (r: Result<u32, ParseError>)
        ensures
            (lift_u32(r), final(self)@.1) == spec_fraction(old(self)@.0, old(self)@.1, 9),
            final(self)@.0 == old(self)@.0,
            r matches Ok(n) ==> n < 1_000_000_000,
    {
        self.parse_fraction(9)
    }

    /// Parses up to 6 digits of a fraction of a second, returning the microseconds.
    pub fn parse_microseconds(&mut self) -> (r: Result<u32, ParseError>)
        ensures
            (lift_u32(r), final(self)@.1) == spec_fraction(old(self)@.0, old(self)@.1, 6),
            final(self)@.0 == old(self)@.0,
            r matches Ok(n) ==> n < 1_000_000,
    {
        self.parse_fraction(6)
    }

    /// Parses up to `max` fractional digits, scaled to `max` digits.
    fn parse_fraction(&mut self, max: usize) -> (r: Result<u32, ParseError>)
        requires
            max <= 9,
        ensures
            (lift_u32(r), final(self)@.1) == spec_fraction(old(self)@.0, old(self)@.1, max as int),
            final(self)@.0 == old(self)@.0,
            r matches Ok(n) ==> n < pow10(max as nat),
            max == 9 ==> pow10(max as nat) == 1_000_000_000,
            max == 6 ==> pow10(max as nat) == 1_000_000,
    {
        proof {
            reveal_with_fuel(pow10, 10);
        }
        let (count, value) = self.read_digits(max);
        if count == 0 {
            return Err(ParseError::UnexpectedNonDigit);
        }
        let mut result: u32 = value;
        let mut i: usize = count;
        proof {
            lemma_pow10_bounds(max as nat, 9);
        }
        while i < max
            invariant
                count <= i <= max <= 9,
                result == value * pow10((i - count) as nat),
                result < pow10(i as nat),
                value < pow10(count as nat),
                pow10(max as nat) <= 1_000_000_000,
            decreases max - i,
        {
            proof {
                lemma_pow10_bounds((i + 1) as nat, max as nat);
                assert(pow10((i + 1 - count) as nat) == 10 * pow10((i - count) as nat));
                assert(result * 10 == value * pow10((i + 1 - count) as nat)) by (nonlinear_arith)
                    requires
                        result == value * pow10((i - count) as nat),
                        pow10((i + 1 - count) as nat) == 10 * pow10((i - count) as nat),
                ;
            }
            result = result * 10;
            i = i + 1;
        }
        Ok(result)
    }

    /// Expects the stream to have the following byte.
    pub fn expect(&mut self, expected: u8) -> (r: Result<u8, ParseError>)
        ensures
            (lift_u8(r), final(self)@.1) == spec_expect(old(self)@.0, old(self)@.1, expected),
            final(self)@.0 == old(self)@.0,
    {
        match self.advance() {
            Some(b) => if b == expected {
                Ok(b)
            } else {
                Err(ParseError::UnexpectedChar(b as char))
            },
            None => Err(ParseError::UnexpectedEnd),
        }
    }

    /// Returns how many bytes of `name` the input continues with from the current position.
    pub fn matched_prefix(&self, name: &[u8]) -> (k: usize)
        ensures
            k == prefix_len(self@.0, self@.1, name@),
            is_prefix_len(self@.0, self@.1, name@, k as int),
    {
        proof {
            use_type_invariant(self);
        }
        let len = self.bytes.len();
        let mut k: usize = 0;
        while k < name.len() && k < len - self.pos && self.bytes[self.pos + k] == name[k]
            invariant
                len == self.bytes@.len(),
                k <= name@.len(),
                self.pos + k <= self.bytes@.len(),
                forall|i: int| 0 <= i < k ==> self@.0[self@.1 + i] == name@[i],
            decreases name@.len() - k,
        {
            k = k + 1;
        }
        proof {
            lemma_prefix_len_unique(self@.0, self@.1, name@, k as int);
        }
        k
    }

    /// Expects the stream to continue with the given bytes, failing on the first one
    /// that differs.
    pub fn expect_str(&mut self, expected: &[u8]) -> (r: Result<(), ParseError>)
        ensures
            final(self)@.0 == old(self)@.0,
            r == spec_expect_str(old(self)@.0, old(self)@.1, expected@),
            r is Ok ==> final(self)@.1 == old(self)@.1 + expected@.len(),
    {
        let k = self.matched_prefix(expected);
        let len = self.bytes.len();
        proof {
            use_type_invariant(&*self);
        }
        if k == expected.len() {
            self.pos = self.pos + k;
            Ok(())
        } else if self.pos + k == len {
            Err(ParseError::UnexpectedEnd)
        } else {
            let b = self.bytes[self.pos + k];
            Err(ParseError::UnexpectedChar(b as char))
        }
    }

    /// Parses an optional ± and returns whether the value is negative.
    pub fn parse_sign(&mut self) -> (r: bool)
        ensures
            (r, final(self)@.1) == spec_sign(old(self)@.0, old(self)@.1),
            final(self)@.0 == old(self)@.0,
    {
        if self.advance_if_equal(43u8).is_some() {
            false
        } else if self.advance_if_equal(45u8).is_some() {
            true
        } else {
            false
        }
    }

    /// Parses a required ± and returns whether the value is negative.
    pub fn parse_required_sign(&mut self) -> (r: Result<bool, ParseError>)
        ensures
            (r, final(self)@.1) == spec_required_sign(old(self)@.0, old(self)@.1),
            final(self)@.0 == old(self)@.0,
    {
        match self.peek() {
            Some(c) => if c == 43u8 {
                self.advance();
                Ok(false)
            } else if c == 45u8 {
                self.advance();
                Ok(true)
            } else {
                Err(ParseError::UnexpectedChar(c as char))
            },
            None => Err(ParseError::UnexpectedEnd),
        }
    }

    /// Reads exactly `n` digits, failing on the first byte that is not one.
    fn parse_fixed_digits(&mut self, n: usize) -> (r: Result<u32, ParseError>)
        requires
            1 <= n <= 4,
        ensures
            (lift_u32(r), final(self)@.1) == spec_fixed_digits(old(self)@.0, old(self)@.1, n as int),
            final(self)@.0 == old(self)@.0,
            r matches Ok(v) ==> v < pow10(n as nat),
    {
        let (count, value) = self.read_digits(n);
        if count == n {
            return Ok(value);
        }
        proof {
            use_type_invariant(&*self);
        }
        match self.advance() {
            Some(_) => Err(ParseError::UnexpectedNonDigit),
            None => Err(ParseError::UnexpectedEnd),
        }
    }

    /// Parses a year matching the syntax `±?YYYYY?`. Years must be zero-padded.
    pub fn parse_year(&mut self) -> (r: Result<i16, ParseError>)
        ensures
            (lift_i16(r), final(self)@.1) == spec_year(old(self)@.0, old(self)@.1),
            final(self)@.0 == old(self)@.0,
    {
        let negative = self.parse_sign();
        let year = self.parse_fixed_digits(4)?;
        proof {
            reveal_with_fuel(pow10, 5);
        }
        let year: u32 = match self.advance_if_digit() {
            Some(b) => year * 10 + (b - 48u8) as u32,
            None => year,
        };
        if year > 32767 {
            return Err(ParseError::OutOfBounds);
        }
        let year = year as i16;
        Ok(if negative { -year } else { year })
    }

    /// Parses a two digit unit (e.g. `02`) into their integer representation.
    /// This must match the syntax `NN`. No signs permitted.
    ///
    /// Must be zero padded. Note this does not do bound checking.
    pub fn parse_two_digits(&mut self) -> (r: Result<u8, ParseError>)
        ensures
            (lift_u8(r), final(self)@.1) == spec_fixed_digits(old(self)@.0, old(self)@.1, 2),
            final(self)@.0 == old(self)@.0,
            r matches Ok(v) ==> v < 100,
    {
        proof {
            reveal_with_fuel(pow10, 3);
        }
        let v = self.parse_fixed_digits(2)?;
        Ok(v as u8)
    }

    /// Parses a single digit.
    pub fn parse_digit(&mut self) -> (r: Result<u8, ParseError>)
        ensures
            (lift_u8(r), final(self)@.1) == spec_fixed_digits(old(self)@.0, old(self)@.1, 1),
            final(self)@.0 == old(self)@.0,
            r matches Ok(v) ==> v < 10,
    {
        proof {
            reveal_with_fuel(pow10, 2);
        }
        let v = self.parse_fixed_digits(1)?;
        Ok(v as u8)
    }

    /// Parses a month matching the `MM` syntax. This performs bounds checking between
    /// 1 and 12.
    pub fn parse_month(&mut self) -> (r: Result<u8, ParseError>)
        ensures
            (lift_u8(r), final(self)@.1) == spec_month(old(self)@.0, old(self)@.1),
            final(self)@.0 == old(self)@.0,
    {
        let digits = self.parse_two_digits()?;
        if digits == 0 || digits > 12 {
            Err(ParseError::OutOfBounds)
        } else {
            Ok(digits)
        }
    }

    /// Parses the supported date formats.
    ///
    /// Right now these are:
    ///
    /// - `±YYYYY-MM-DD` (e.g. `2012-02-13` or `-9999-10-12`)
    /// - `±YYYYY-MM` (e.g. `2012-02`)
    /// - `±YYYYY-Www` (e.g. `2012-W10`)
    /// - `±YYYYY-Www-D` (e.g. `2012-W10-1`)
    /// - `±YYYYY-DDD` (e.g. `2021-048`)
    pub fn parse_date(&mut self) -> (r: Result<Date, ParseError>)
        ensures
            (lift_date(r), final(self)@.1) == spec_date(old(self)@.0, old(self)@.1),
            final(self)@.0 == old(self)@.0,
    {
        let year = self.parse_year()?;
        self.expect(45u8)?;
        if self.advance_if_equal(87u8).is_some() {
            self.parse_week_part(year)
        } else {
            self.parse_month_part(year)
        }
    }

    /// Parses the part `Www[-D]` of a week date, after the `W`.
    fn parse_week_part(&mut self, year: i16) -> (r: Result<Date, ParseError>)
        ensures
            (lift_date(r), final(self)@.1) == spec_week_part(old(self)@.0, old(self)@.1, year as int),
            final(self)@.0 == old(self)@.0,
    {
        let week = self.parse_two_digits()?;
        if week == 0 || week > crate::gregorian::iso_weeks_in_year(year) {
            return Err(ParseError::OutOfBounds);
        }
        let weekday = if self.advance_if_equal(45u8).is_some() {
            match self.parse_digit()? {
                1 => Weekday::Monday,
                2 => Weekday::Tuesday,
                3 => Weekday::Wednesday,
                4 => Weekday::Thursday,
                5 => Weekday::Friday,
                6 => Weekday::Saturday,
                7 => Weekday::Sunday,
                _ => {
                    return Err(ParseError::OutOfBounds);
                },
            }
        } else {
            Weekday::Monday
        };
        match IsoWeekDate::new(year, week, weekday) {
            Ok(iso) => Ok(Date::from_iso_week_date(iso)),
            Err(_) => Err(ParseError::OutOfBounds),
        }
    }

    /// Parses the part `MM[-DD]` or `DDD` of a calendar or ordinal date.
    fn parse_month_part(&mut self, year: i16) -> (r: Result<Date, ParseError>)
        ensures
            (lift_date(r), final(self)@.1) == spec_month_part(old(self)@.0, old(self)@.1, year as int),
            final(self)@.0 == old(self)@.0,
    {
        let month = self.parse_two_digits()?;
        if let Some(b) = self.advance_if_digit() {
            let ordinal: u16 = month as u16 * 10 + (b - 48u8) as u16;
            match Date::from_ordinal(year, ordinal) {
                Ok(d) => {
                    d.in_range();
                    proof {
                        lemma_ordinal_date(year as int, d@.1, d@.2, ordinal as int);
                    }
                    Ok(d)
                },
                Err(_) => Err(ParseError::OutOfBounds),
            }
        } else if month == 0 || month > 12 {
            Err(ParseError::OutOfBounds)
        } else if self.advance_if_equal(45u8).is_some() {
            let day = self.parse_two_digits()?;
            match Date::new(year, month, day) {
                Ok(d) => Ok(d),
                Err(_) => Err(ParseError::OutOfBounds),
            }
        } else {
            match Date::new(year, month, 1) {
                Ok(d) => Ok(d),
                Err(_) => Err(ParseError::OutOfBounds),
            }
        }
    }

    /// Parses the optional part `:SS[.fffffffff]` of a time, returning the second
    /// and the nanoseconds.
    fn parse_seconds_part(&mut self) -> (r: Result<(u8, u32), ParseError>)
        ensures
            (lift_pair(r), final(self)@.1) == spec_seconds_part(old(self)@.0, old(self)@.1),
            final(self)@.0 == old(self)@.0,
            r matches Ok(v) ==> v.1 < 1_000_000_000,
    {
        if self.advance_if_equal(58u8).is_none() {
            return Ok((0, 0));
        }
        let second = self.parse_two_digits()?;
        if self.advance_if_equal(46u8).is_some() || self.advance_if_equal(44u8).is_some() {
            let nanos = self.parse_nanoseconds()?;
            Ok((second, nanos))
        } else {
            Ok((second, 0))
        }
    }

    /// Parses the supported time formats.
    ///
    /// Right now these are:
    ///
    /// - `HH:MM` (e.g. `10:23`)
    /// - `HH:MM:SS` (e.g. `10:24:30`)
    /// - `HH:MM:SS.sssssssss`, up to 9 digits of precision (e.g. `10:24:30.999999999`)
    /// - `HH:MM:SS,sssssssss`, same as above
    pub fn parse_time(&mut self) -> (r: Result<Time, ParseError>)
        ensures
            (lift_time(r), final(self)@.1) == spec_time(old(self)@.0, old(self)@.1),
            final(self)@.0 == old(self)@.0,
    {
        let hour = self.parse_two_digits()?;
        self.expect(58u8)?;
        let minute = self.parse_two_digits()?;
        let (mut second, mut nanosecond) = self.parse_seconds_part()?;
        if second == 60 {
            second = 59;
            nanosecond = nanosecond + 1_000_000_000;
        }
        if hour > 23 || minute > 59 || second > 59 || nanosecond > 1_999_999_999 {
            Err(ParseError::OutOfBounds)
        } else {
            Ok(Time::from_parts(hour, minute, second, nanosecond))
        }
    }
}

/// Ten to a power grows with the power and stays within the range of an `u32` up to nine.
pub proof fn lemma_pow10_bounds(n: nat, m: nat)
    requires
        n <= m,
    ensures
        1 <= pow10(n) <= pow10(m),
        m <= 9 ==> pow10(m) <= 1_000_000_000,
        pow10(n + 1) == 10 * pow10(n),
    decreases m,
{
    if m == 0 {
    } else if n == m {
        lemma_pow10_bounds((n - 1) as nat, (m - 1) as nat);
    } else {
        lemma_pow10_bounds(n, (m - 1) as nat);
    }
    if m <= 9 {
        lemma_pow10_monotone(m, 9);
        reveal_with_fuel(pow10, 10);
    }
}

/// Ten to a power grows with the power.
proof fn lemma_pow10_monotone(n: nat, m: nat)
    requires
        n <= m,
    ensures
        1 <= pow10(n) <= pow10(m),
    decreases m,
{
    if m == 0 {
    } else if n == m {
        lemma_pow10_monotone((n - 1) as nat, (m - 1) as nat);
    } else {
        lemma_pow10_monotone(n, (m - 1) as nat);
    }
}

/// The error that occurred during parsing in [`parse_spec`].
#[derive(Debug, Clone, Copy, PartialEq, Eq, Structural, PartialOrd, Ord)]
#[non_exhaustive]
pub enum Error {
    /// An unknown format specifier was found
    UnknownSpecifier(u8),
    /// A specifier was expected after a `%` or a modifier.
    SpecifierNotFound,
}

/// How a number is padded when formatted.
#[derive(Debug, Clone, Copy, PartialEq, Eq, Structural, PartialOrd, Ord, Hash)]
pub enum FormatSpecPadding {
    /// Pad with zeros (the default).
    Zero,
    /// Do not pad (the `#` modifier).
    Empty,
    /// Pad with spaces (the `_` modifier).
    Space,
}

/// The kind of fragment in a format specification.
///
/// These are the internal data within a [`FormatSpec`] and are generally
/// not manually constructed.
#[derive(Debug, Clone, Copy, PartialEq, Eq)]
#[non_exhaustive]
pub enum FormatSpecKind<'a> {
    /// A raw string
    Raw(&'a str),
    /// An abbreviated weekday name (`%a`)
    AbbreviatedWeekday,
    /// A full weekday name (`%A`)
    FullWeekday,
    /// A numerical weekday (`%w`)
    Weekday,
    /// An ISO weekday (`%u`)
    IsoWeekday,
    /// A numerical day (`%d`)
    Day,
    /// An ordinal day (`%j`)
    Ordinal,
    /// An abbreviated month name (`%b`)
    AbbreviatedMonth,
    /// A full month name (`%B`)
    FullMonth,
    /// The numerical month (`%m`)
    Month,
    /// The numerical year (`%Y`)
    Year,
    /// An explicitly signed year (`%y`)
    SignedYear,
    /// An ISO week calendar year (`%G`)
    IsoWeekYear,
    /// An ISO week calendar week (`%V`)
    IsoWeek,
    /// The numerical 24-hour clock (`%H`)
    Hour,
    /// The numerical 12-hour clock (`%I`)
    Hour12,
    /// The time meridiem (`%p`)
    Meridiem,
    /// The numerical minute (`%M`)
    Minute,
    /// The numerical second (`%S`)
    Second,
    /// The numerical nanosecond (`%f`)
    Nanosecond,
    /// The UTC offset (`%o`)
    UtcOffset,
    /// A shortened UTC offset (`%z`)
    UtcOffsetBrief,
    /// The timezone name (`%Z`)
    ZoneName,
    /// A literal `%` character (`%%`)
    Escape,
}

/// A handle for how a fragment should be formatted.
///
/// A slice of these is usually passed to the corresponding `format` function.
/// These slices can be received using the [`parse_spec`] function.
#[derive(Debug, Clone, Copy, PartialEq, Eq)]
pub struct FormatSpec<'a> {
    kind: FormatSpecKind<'a>,
    padding: FormatSpecPadding,
}

impl<'a> View for FormatSpec<'a> {
    type V = (FormatSpecKind<'a>, FormatSpecPadding);

    /// The kind of fragment and its padding.
    closed spec fn view(&self) -> (FormatSpecKind<'a>, FormatSpecPadding) {
        (self.kind, self.padding)
    }
}

impl<'a> FormatSpec<'a> {
    /// Two values with the same view are the same value.
    pub proof fn lemma_view_eq(a: FormatSpec<'a>, b: FormatSpec<'a>)
        requires
            a@ == b@,
        ensures
            a == b,
    {
    }
}

impl<'a> FormatSpec<'a> {
    /// Creates a new [`FormatSpec`] from the given [`FormatSpecKind`].
    pub fn new(kind: FormatSpecKind<'a>) -> (r: FormatSpec<'a>)
        ensures
            r@ == (kind, FormatSpecPadding::Zero),
    {
        FormatSpec { kind, padding: FormatSpecPadding::Zero }
    }

    /// Returns a new [`FormatSpec`] with no padding.
    ///
    /// This is equivalent to the `#` modifier.
    pub fn with_no_padding(self) -> (r: FormatSpec<'a>)
        ensures
            r@ == (self@.0, FormatSpecPadding::Empty),
    {
        FormatSpec { padding: FormatSpecPadding::Empty, ..self }
    }

    /// Returns a new [`FormatSpec`] with zero padding.
    ///
    /// This is the default modifier.
    pub fn with_zero_padding(self) -> (r: FormatSpec<'a>)
        ensures
            r@ == (self@.0, FormatSpecPadding::Zero),
    {
        FormatSpec { padding: FormatSpecPadding::Zero, ..self }
    }

    /// Returns a new [`FormatSpec`] with space padding.
    ///
    /// This is equivalent to the `_` modifier.
    pub fn with_space_padding(self) -> (r: FormatSpec<'a>)
        ensures
            r@ == (self@.0, FormatSpecPadding::Space),
    {
        FormatSpec { padding: FormatSpecPadding::Space, ..self }
    }

    /// Returns a new [`FormatSpec`] with a raw string.
    pub fn raw(s: &'a str) -> (r: FormatSpec<'a>)
        ensures
            r@ == (FormatSpecKind::Raw(s), FormatSpecPadding::Empty),
    {
        FormatSpec { kind: FormatSpecKind::Raw(s), padding: FormatSpecPadding::Empty }
    }

    /// Returns the kind of fragment.
    pub fn kind(&self) -> (r: FormatSpecKind<'a>)
        ensures
            r == self@.0,
    {
        self.kind
    }

    /// Returns the padding of the fragment.
    pub fn padding(&self) -> (r: FormatSpecPadding)
        ensures
            r == self@.1,
    {
        self.padding
    }
}

/// The directive byte that follows `%` for a kind of fragment, and `-1` for raw text.
pub open spec fn kind_code(k: FormatSpecKind) -> int {
    match k {
        FormatSpecKind::Raw(_) => -1,
        FormatSpecKind::AbbreviatedWeekday => 97,
        FormatSpecKind::FullWeekday => 65,
        FormatSpecKind::Weekday => 119,
        FormatSpecKind::IsoWeekday => 117,
        FormatSpecKind::Day => 100,
        FormatSpecKind::Ordinal => 106,
        FormatSpecKind::AbbreviatedMonth => 98,
        FormatSpecKind::FullMonth => 66,
        FormatSpecKind::Month => 109,
        FormatSpecKind::Year => 89,
        FormatSpecKind::SignedYear => 121,
        FormatSpecKind::IsoWeekYear => 71,
        FormatSpecKind::IsoWeek => 86,
        FormatSpecKind::Hour => 72,
        FormatSpecKind::Hour12 => 73,
        FormatSpecKind::Meridiem => 112,
        FormatSpecKind::Minute => 77,
        FormatSpecKind::Second => 83,
        FormatSpecKind::Nanosecond => 102,
        FormatSpecKind::UtcOffset => 111,
        FormatSpecKind::UtcOffsetBrief => 122,
        FormatSpecKind::ZoneName => 90,
        FormatSpecKind::Escape => 37,
    }
}

/// Whether a byte names a directive after `%`.
pub open spec fn is_directive(d: u8) -> bool {
    d == 97u8 || d == 65u8 || d == 119u8 || d == 117u8 || d == 100u8 || d == 106u8 || d == 98u8 || d == 66u8 || d == 109u8 || d == 89u8 || d == 121u8 || d == 71u8 || d == 86u8 || d == 72u8 || d == 73u8 || d == 112u8 || d == 77u8 || d == 83u8 || d == 102u8 || d == 111u8 || d == 122u8 || d == 90u8 || d == 37u8
}

/// The outcome of reading the directive byte after `%` and its modifier: the
/// directive itself, or the error it gives.
pub open spec fn spec_directive(d: u8) -> Result<int, Error> {
    if is_directive(d) {
        Ok(d as int)
    } else if d == 95u8 || d == 35u8 {
        Err(Error::SpecifierNotFound)
    } else {
        Err(Error::UnknownSpecifier(d))
    }
}

/// A parsed directive as its byte.
pub open spec fn lift_kind(r: Result<FormatSpecKind, Error>) -> Result<int, Error> {
    match r {
        Ok(k) => Ok(kind_code(k)),
        Err(e) => Err(e),
    }
}

/// Returns the kind of fragment that a directive byte after `%` names.
pub fn parse_directive(directive: u8) -> (r: Result<FormatSpecKind<'static>, Error>)
    ensures
        lift_kind(r) == spec_directive(directive),
        r matches Ok(k) ==> !(k is Raw),
{
    match directive {
        97 => Ok(FormatSpecKind::AbbreviatedWeekday),
        65 => Ok(FormatSpecKind::FullWeekday),
        119 => Ok(FormatSpecKind::Weekday),
        117 => Ok(FormatSpecKind::IsoWeekday),
        100 => Ok(FormatSpecKind::Day),
        106 => Ok(FormatSpecKind::Ordinal),
        98 => Ok(FormatSpecKind::AbbreviatedMonth),
        66 => Ok(FormatSpecKind::FullMonth),
        109 => Ok(FormatSpecKind::Month),
        89 => Ok(FormatSpecKind::Year),
        121 => Ok(FormatSpecKind::SignedYear),
        71 => Ok(FormatSpecKind::IsoWeekYear),
        86 => Ok(FormatSpecKind::IsoWeek),
        72 => Ok(FormatSpecKind::Hour),
        73 => Ok(FormatSpecKind::Hour12),
        112 => Ok(FormatSpecKind::Meridiem),
        77 => Ok(FormatSpecKind::Minute),
        83 => Ok(FormatSpecKind::Second),
        102 => Ok(FormatSpecKind::Nanosecond),
        111 => Ok(FormatSpecKind::UtcOffset),
        122 => Ok(FormatSpecKind::UtcOffsetBrief),
        90 => Ok(FormatSpecKind::ZoneName),
        37 => Ok(FormatSpecKind::Escape),
        95 | 35 => Err(Error::SpecifierNotFound),
        _ => Err(Error::UnknownSpecifier(directive)),
    }
}

/// A fragment as its directive byte (or `-1` for raw text), the bytes of its raw
/// text (empty for a directive), and its padding.
pub type SpecItem = (int, Seq<u8>, FormatSpecPadding);

/// The description of a fragment of a format specification.
pub open spec fn spec_item(f: FormatSpec) -> SpecItem {
    match f@.0 {
        FormatSpecKind::Raw(t) => (-1, t.spec_bytes(), f@.1),
        k => (kind_code(k), Seq::empty(), f@.1),
    }
}

/// The position of the first `%` at or after `p`, or the end of the bytes.
pub open spec fn next_percent(s: Seq<u8>, p: int) -> int
    decreases s.len() - p,
{
    if p < 0 || p >= s.len() {
        s.len() as int
    } else if s[p] == 37u8 {
        p
    } else {
        next_percent(s, p + 1)
    }
}

/// A fragment put before the outcome of parsing the rest of a format specification.
pub open spec fn prepend_item(item: SpecItem, r: Result<Seq<SpecItem>, Error>) -> Result<Seq<SpecItem>, Error> {
    match r {
        Ok(v) => Ok(seq![item] + v),
        Err(e) => Err(e),
    }
}

/// Known fragments put before the outcome of parsing the rest of a format specification.
pub open spec fn prepend_all(items: Seq<SpecItem>, r: Result<Seq<SpecItem>, Error>) -> Result<Seq<SpecItem>, Error> {
    match r {
        Ok(v) => Ok(items + v),
        Err(e) => Err(e),
    }
}

/// The fragments of a format specification from position `p` on, within `fuel`
/// fragments, where `inside` tells whether a directive starts at `p`.
///
/// Text up to the next `%` becomes a raw fragment (empty between two directives);
/// `%` followed by an optional modifier `#` or `_` and a directive byte becomes a
/// directive fragment.
pub open spec fn spec_format_items(s: Seq<u8>, p: int, inside: bool, fuel: nat) -> Result<Seq<SpecItem>, Error>
    decreases fuel,
{
    if fuel == 0 {
        Ok(Seq::empty())
    } else if inside {
        if 0 <= p && p + 2 < s.len() && s[p] == 37u8 && (s[p + 1] == 35u8 || s[p + 1] == 95u8) {
            match spec_directive(s[p + 2]) {
                Err(e) => Err(e),
                Ok(c) => prepend_item(
                    (c, Seq::empty(), if s[p + 1] == 35u8 {
                        FormatSpecPadding::Empty
                    } else {
                        FormatSpecPadding::Space
                    }),
                    spec_format_items(s, p + 3, false, (fuel - 1) as nat),
                ),
            }
        } else if 0 <= p && p + 1 < s.len() && s[p] == 37u8 {
            match spec_directive(s[p + 1]) {
                Err(e) => Err(e),
                Ok(c) => prepend_item(
                    (c, Seq::empty(), FormatSpecPadding::Zero),
                    spec_format_items(s, p + 2, false, (fuel - 1) as nat),
                ),
            }
        } else {
            Err(Error::SpecifierNotFound)
        }
    } else if p >= s.len() {
        Ok(Seq::empty())
    } else {
        let q = next_percent(s, p);
        if q >= s.len() {
            Ok(seq![(-1, s.subrange(p, s.len() as int), FormatSpecPadding::Empty)])
        } else {
            prepend_item(
                (-1, s.subrange(p, q), FormatSpecPadding::Empty),
                spec_format_items(s, q, true, (fuel - 1) as nat),
            )
        }
    }
}

/// The fragments of a whole format specification.
pub open spec fn spec_parse_spec(s: Seq<u8>) -> Result<Seq<SpecItem>, Error> {
    spec_format_items(s, 0, s.len() > 0 && s[0] == 37u8, (2 * s.len() + 2) as nat)
}

/// A parsed format specification as the descriptions of its fragments.
pub open spec fn lift_specs(r: Result<Vec<FormatSpec>, Error>) -> Result<Seq<SpecItem>, Error> {
    match r {
        Ok(v) => Ok(v@.map_values(|f: FormatSpec| spec_item(f))),
        Err(e) => Err(e),
    }
}

/// In valid UTF-8, the byte after an ASCII byte that starts a character starts one too.
proof fn lemma_boundary_after_ascii(bytes: Seq<u8>, i: int)
    requires
        valid_utf8(bytes),
        0 <= i < bytes.len(),
        is_char_boundary(bytes, i),
        bytes[i] < 0x80,
    ensures
        is_char_boundary(bytes, i + 1),
    decreases bytes.len(),
{
    let l = length_of_first_scalar(bytes);
    let rest = pop_first_scalar(bytes);
    assert(valid_first_scalar(bytes) && valid_utf8(rest));
    assert(1 <= l <= 4 && l <= bytes.len());
    assert(rest.len() == bytes.len() - l);
    if i == 0 {
        assert(l == 1);
        assert(is_char_boundary(bytes, 1) == is_char_boundary(rest, 0));
    } else {
        assert(is_char_boundary(bytes, i) == is_char_boundary(rest, i - l));
        assert(i - l >= 0);
        assert(rest[i - l] == bytes[i]);
        lemma_boundary_after_ascii(rest, i - l);
        assert(is_char_boundary(bytes, i + 1) == is_char_boundary(rest, i + 1 - l));
    }
}

/// Returns the position of the first `%` in a string, or its length.
fn find_percent(bytes: &[u8]) -> (r: usize)
    ensures
        r == next_percent(bytes@, 0),
        r <= bytes@.len(),
        r < bytes@.len() ==> bytes@[r as int] == 37u8,
{
    let mut i: usize = 0;
    while i < bytes.len()
        invariant
            i <= bytes@.len(),
            next_percent(bytes@, 0) == next_percent(bytes@, i as int),
        decreases bytes@.len() - i,
    {
        if bytes[i] == 37u8 {
            return i;
        }
        i = i + 1;
    }
    i
}

/// The first `%` from a position on lies at the same distance in a suffix.
proof fn lemma_next_percent_shift(s: Seq<u8>, p: int, q: int)
    requires
        0 <= p <= q <= s.len(),
    ensures
        next_percent(s, q) - p == next_percent(s.subrange(p, s.len() as int), q - p),
    decreases s.len() - q,
{
    if q < s.len() && s[q] != 37u8 {
        lemma_next_percent_shift(s, p, q + 1);
    }
}

/// Putting known fragments and then one more before an outcome is putting the
/// longer list of fragments before it.
proof fn lemma_prepend_assoc(items: Seq<SpecItem>, item: SpecItem, r: Result<Seq<SpecItem>, Error>)
    ensures
        prepend_all(items, prepend_item(item, r)) == prepend_all(items.push(item), r),
{
    if let Ok(v) = r {
        assert(items + (seq![item] + v) =~= items.push(item) + v);
    }
}

/// Parses a format string into a [`Vec`] of [`FormatSpec`].
///
/// If a parser error occurs then [`Error`] is returned.
pub fn parse_spec(s: &str) -> (r: Result<Vec<FormatSpec<'_>>, Error>)
    ensures
        lift_specs(r) == spec_parse_spec(s.spec_bytes()),
{
    broadcast use vstd::utf8::encode_utf8_valid_utf8;

    let ghost bytes = s.spec_bytes();
    let all = s.as_bytes();
    let total = all.len();
    let mut rest: &str = s;
    let mut pos: usize = 0;
    let mut inside = all.len() > 0 && all[0] == 37u8;
    let mut out: Vec<FormatSpec> = Vec::new();
    let ghost mut fuel: nat = (2 * bytes.len() + 2) as nat;
    let ghost target = spec_parse_spec(bytes);
    proof {
        assert(bytes.subrange(0, bytes.len() as int) =~= bytes);
        assert(out@.map_values(|f: FormatSpec| spec_item(f)) =~= Seq::<SpecItem>::empty());
    }
    loop
        invariant_except_break
            pos <= bytes.len(),
            rest.spec_bytes() == bytes.subrange(pos as int, bytes.len() as int),
            fuel >= 2 * (bytes.len() - pos) + if inside {
                1int
            } else {
                2int
            },
            inside ==> pos < bytes.len() && bytes[pos as int] == 37u8,
            target == prepend_all(
                out@.map_values(|f: FormatSpec| spec_item(f)),
                spec_format_items(bytes, pos as int, inside, fuel),
            ),
        invariant
            bytes == s.spec_bytes(),
            all@ == bytes,
            bytes.len() == total,
            target == spec_parse_spec(bytes),
        ensures
            target == Ok::<Seq<SpecItem>, Error>(out@.map_values(|f: FormatSpec| spec_item(f))),
        decreases fuel,
    {
        let b = rest.as_bytes();
        proof {
            vstd::utf8::encode_utf8_valid_utf8(rest@);
            assert(valid_utf8(b@));
            assert(b@ == bytes.subrange(pos as int, bytes.len() as int));
        }
        let ghost before = out@;
        if inside {
            if b.len() >= 3 && b[0] == 37u8 && (b[1] == 35u8 || b[1] == 95u8) {
                let kind = match parse_directive(b[2]) {
                    Ok(k) => k,
                    Err(e) => {
                        return Err(e);
                    },
                };
                let padding = if b[1] == 35u8 {
                    FormatSpecPadding::Empty
                } else {
                    FormatSpecPadding::Space
                };
                out.push(FormatSpec { kind, padding });
                proof {
                    vstd::utf8::is_char_boundary_iff_not_is_continuation_byte(b@, 2);
                    lemma_boundary_after_ascii(b@, 2);
                    lemma_prepend_assoc(
                        before.map_values(|f: FormatSpec| spec_item(f)),
                        spec_item(FormatSpec { kind, padding }),
                        spec_format_items(bytes, pos + 3, false, (fuel - 1) as nat),
                    );
                    assert(out@.map_values(|f: FormatSpec| spec_item(f)) =~= before.map_values(
                        |f: FormatSpec| spec_item(f),
                    ).push(spec_item(FormatSpec { kind, padding })));
                }
                let (_, tail) = rest.split_at(3);
                rest = tail;
                pos = pos + 3;
                proof {
                    assert(rest.spec_bytes() =~= bytes.subrange(pos as int, bytes.len() as int));
                }
            } else if b.len() >= 2 && b[0] == 37u8 {
                let kind = match parse_directive(b[1]) {
                    Ok(k) => k,
                    Err(e) => {
                        return Err(e);
                    },
                };
                out.push(FormatSpec { kind, padding: FormatSpecPadding::Zero });
                proof {
                    vstd::utf8::is_char_boundary_iff_not_is_continuation_byte(b@, 1);
                    lemma_boundary_after_ascii(b@, 1);
                    lemma_prepend_assoc(
                        before.map_values(|f: FormatSpec| spec_item(f)),
                        spec_item(FormatSpec { kind, padding: FormatSpecPadding::Zero }),
                        spec_format_items(bytes, pos + 2, false, (fuel - 1) as nat),
                    );
                    assert(out@.map_values(|f: FormatSpec| spec_item(f)) =~= before.map_values(
                        |f: FormatSpec| spec_item(f),
                    ).push(spec_item(FormatSpec { kind, padding: FormatSpecPadding::Zero })));
                }
                let (_, tail) = rest.split_at(2);
                rest = tail;
                pos = pos + 2;
                proof {
                    assert(rest.spec_bytes() =~= bytes.subrange(pos as int, bytes.len() as int));
                }
            } else {
                return Err(Error::SpecifierNotFound);
            }
            inside = false;
        } else {
            if b.len() == 0 {
                break ;
            }
            let q = find_percent(b);
            proof {
                lemma_next_percent_shift(bytes, pos as int, pos as int);
            }
            if q == b.len() {
                out.push(FormatSpec::raw(rest));
                proof {
                    assert(next_percent(bytes, pos as int) == bytes.len());
                    assert(rest.spec_bytes() == bytes.subrange(pos as int, bytes.len() as int));
                    lemma_prepend_assoc(
                        before.map_values(|f: FormatSpec| spec_item(f)),
                        spec_item(FormatSpec { kind: FormatSpecKind::Raw(rest), padding: FormatSpecPadding::Empty }),
                        Ok(Seq::empty()),
                    );
                    assert(seq![spec_item(FormatSpec { kind: FormatSpecKind::Raw(rest), padding: FormatSpecPadding::Empty })] + Seq::<SpecItem>::empty() =~= seq![spec_item(FormatSpec { kind: FormatSpecKind::Raw(rest), padding: FormatSpecPadding::Empty })]);
                    assert(before.map_values(|f: FormatSpec| spec_item(f)).push(spec_item(FormatSpec { kind: FormatSpecKind::Raw(rest), padding: FormatSpecPadding::Empty })) + Seq::<SpecItem>::empty() =~= before.map_values(|f: FormatSpec| spec_item(f)).push(spec_item(FormatSpec { kind: FormatSpecKind::Raw(rest), padding: FormatSpecPadding::Empty })));
                    assert(out@.map_values(|f: FormatSpec| spec_item(f)) =~= before.map_values(
                        |f: FormatSpec| spec_item(f),
                    ).push(spec_item(FormatSpec { kind: FormatSpecKind::Raw(rest), padding: FormatSpecPadding::Empty })));
                }
                break ;
            }
            proof {
                vstd::utf8::is_char_boundary_iff_not_is_continuation_byte(b@, q as int);
            }
            let (raw, tail) = rest.split_at(q);
            out.push(FormatSpec::raw(raw));
            proof {
                assert(raw.spec_bytes() =~= bytes.subrange(pos as int, pos + q));
                lemma_prepend_assoc(
                    before.map_values(|f: FormatSpec| spec_item(f)),
                    spec_item(FormatSpec { kind: FormatSpecKind::Raw(raw), padding: FormatSpecPadding::Empty }),
                    spec_format_items(bytes, pos + q, true, (fuel - 1) as nat),
                );
                assert(out@.map_values(|f: FormatSpec| spec_item(f)) =~= before.map_values(
                    |f: FormatSpec| spec_item(f),
                ).push(spec_item(FormatSpec { kind: FormatSpecKind::Raw(raw), padding: FormatSpecPadding::Empty })));
            }
            rest = tail;
            pos = pos + q;
            proof {
                assert(rest.spec_bytes() =~= bytes.subrange(pos as int, bytes.len() as int));
            }
            inside = true;
        }
        proof {
            fuel = (fuel - 1) as nat;
        }
    }
    Ok(out)
}

} // verus!
