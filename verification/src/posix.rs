//! Time zones given by a POSIX `TZ` rule string.
//!
//! The rule string has the form `std offset [dst [offset] , start [/time] , end [/time]]`
//! where `std` and `dst` are abbreviations of at least three characters, optionally
//! quoted with `<` and `>`, an offset is `[+-]hh[:mm[:ss]]` counted *west* of UTC,
//! and a DST transition date is one of `Jn` (`1 <= n <= 365`, leap days not counted),
//! `n` (`0 <= n <= 365`, leap days counted) or `Mm.w.d` (weekday `d`, Sunday being `0`,
//! of week `w` of month `m`, week `5` meaning the last one).
use vstd::prelude::*;
use vstd::string::StringExecFns;

use crate::date::Date;
use crate::datetime::{spec_compare_instants, spec_shift_wall_clock, DateTime};
use crate::gregorian::{
    date_of_epoch_days, date_to_epoch_days, days_in_month, is_leap_year, spec_days_in_month, spec_epoch_days,
    spec_is_leap_year, spec_weekday_from_days, weekday_difference, weekday_from_days,
};
use crate::time::Time;
use crate::timestamp::{Timestamp, MAX_VALID_SECONDS, MIN_VALID_SECONDS};
use crate::timezone::{clamp_offset, spec_offset_components, DateTimeResolution, DateTimeResolutionKind, TimeZone, UtcOffset};
use crate::tzerror::ParseError;
use crate::display::{abs, push_char, push_zero_padded, zero_padded};
use crate::utils::divmod_i64;

verus! {

broadcast use vstd::string::axiom_spec_iter;

/// The characters of a string, in order.
fn chars_of(s: &str) -> (v: Vec<char>)
    ensures
        v@ == s@,
{
    let mut v: Vec<char> = Vec::new();
    for c in it: s.chars()
        invariant
            v@ == it.seq().take(it.index() as int),
            it.seq() == s@,
    {
        v.push(c);
    }
    v
}

/// A count of seconds from 1970-01-01 00:00:00 of a local wall clock, with no offset.
#[derive(Debug, Clone, Copy, PartialEq, Eq, Structural, PartialOrd, Ord, Hash, Default)]
pub struct NaiveTimestamp(pub i64);

/// The seconds of a local date and time of day, counted from 1970-01-01 00:00:00.
pub open spec fn spec_local_seconds(date: Date, time: Time) -> int {
    date.spec_days_since_epoch() * 86400 + time@.0 * 3600 + time@.1 * 60 + time@.2
}

impl NaiveTimestamp {
    /// Creates a naive timestamp from a local date and time, ignoring the nanoseconds.
    pub fn new(date: &Date, time: &Time) -> (r: NaiveTimestamp)
        ensures
            r.0 == spec_local_seconds(*date, *time),
    {
        let days = date.days_since_epoch();
        NaiveTimestamp(
            days as i64 * 86400 + time.hour() as i64 * 3600 + time.minute() as i64 * 60
                + time.second() as i64,
        )
    }

    /// Creates a naive timestamp from a count of seconds.
    pub fn from_seconds(secs: i64) -> (r: NaiveTimestamp)
        ensures
            r.0 == secs,
    {
        NaiveTimestamp(secs)
    }

    /// Returns the count of seconds.
    pub fn into_inner(self) -> (r: i64)
        ensures
            r == self.0,
    {
        self.0
    }

    /// The UNIX timestamp of this local wall clock at the given offset from UTC.
    pub fn to_regular(self, offset: &UtcOffset) -> (r: Timestamp)
        requires
            i64::MIN + 86400 <= self.0 <= i64::MAX - 86400,
        ensures
            r@ == (self.0 - offset.spec_total_seconds(), 0int),
    {
        proof {
            use_type_invariant(offset);
        }
        Timestamp::from_seconds(self.0 - offset.total_seconds() as i64)
    }

    /// The date time in UTC whose wall clock reads this timestamp.
    pub fn to_utc(self) -> (r: DateTime)
        ensures
            r@.2@ == (0int, 0int, 0int),
            self.0 >= MAX_VALID_SECONDS ==> r@.0@ == (i16::MAX as int, 12int, 31int) && r@.1@ == (
                23int,
                59int,
                59int,
                999_999_999int,
            ),
            self.0 <= MIN_VALID_SECONDS ==> r@.0@ == (i16::MIN as int, 1int, 1int) && r@.1@ == (
                0int,
                0int,
                0int,
                0int,
            ),
            MIN_VALID_SECONDS < self.0 < MAX_VALID_SECONDS ==> {
                let secs = (self.0 as int) % 86400;
                &&& r@.0@ == date_of_epoch_days(self.0 / 86400)
                &&& r@.1@ == (secs / 3600, secs % 3600 / 60, secs % 60, 0int)
            },
    {
        Timestamp::from_seconds(self.0).to_utc()
    }
}

/// The largest time of day a rule can name: `99:99:99`, in seconds.
pub const MAX_RULE_TIME: i64 = 362_439;

/// A rule for the local date and time of day at which a DST transition happens.
#[derive(Debug, Clone, Copy, PartialEq, Eq, Structural, Hash)]
pub enum DstTransitionRule {
    /// The Julian day. The first element is 1 <= n <= 365.
    /// Leap days aren't counted and it's impossible to refer to February 29.
    /// The second element is offset in seconds from midnight when the transition takes place.
    JulianDay(u16, i64),
    /// A zero-based Julian day. The first element is 0 <= n <= 365. Leap days are counted.
    /// The second element is offset in seconds from midnight when the transition takes place.
    Day(u16, i64),
    /// The `weekday` (0 <= weekday <= 6) of week `n` (1 <= n <= 5) of the `month` (1 <= month <= 12).
    /// A value of `n == 5` means the last `weekday` of the `month`. `weekday == 0` is Sunday.
    /// The offset is seconds from midnight when the transition takes place.
    Calendar { month: u8, n: u8, weekday: u8, offset: i64 },
}

impl DstTransitionRule {
    /// The fields of the rule are within the ranges its variant documents, and its
    /// time of day is one that a rule string can give.
    pub open spec fn wf(self) -> bool {
        match self {
            DstTransitionRule::JulianDay(d, offset) => 1 <= d <= 365 && 0 <= offset <= MAX_RULE_TIME,
            DstTransitionRule::Day(d, offset) => d <= 365 && 0 <= offset <= MAX_RULE_TIME,
            DstTransitionRule::Calendar { month, n, weekday, offset } => {
                &&& 1 <= month <= 12
                &&& 1 <= n <= 5
                &&& weekday <= 6
                &&& 0 <= offset <= MAX_RULE_TIME
            },
        }
    }

    /// The rule with its time of day replaced.
    pub open spec fn spec_with_offset(self, offset: i64) -> DstTransitionRule {
        match self {
            DstTransitionRule::JulianDay(d, _) => DstTransitionRule::JulianDay(d, offset),
            DstTransitionRule::Day(d, _) => DstTransitionRule::Day(d, offset),
            DstTransitionRule::Calendar { month, n, weekday, .. } => DstTransitionRule::Calendar {
                month,
                n,
                weekday,
                offset,
            },
        }
    }

    /// The day of the month of the `n`th `weekday` of a month, the last one for `n == 5`.
    pub open spec fn spec_calendar_day(year: int, month: int, n: int, weekday: int) -> int {
        let first = spec_weekday_from_days(spec_epoch_days(year, month, 1));
        let day = (weekday - first) % 7 + 1 + (n - 1) * 7;
        if day > spec_days_in_month(year, month) {
            day - 7
        } else {
            day
        }
    }

    /// The local seconds, counted from 1970-01-01 00:00:00, at which the rule fires in `year`.
    pub open spec fn spec_timestamp_in_year(self, year: int) -> int {
        match self {
            DstTransitionRule::JulianDay(d, offset) => {
                let day = if d >= 60 && spec_is_leap_year(year) {
                    d + 1
                } else {
                    d as int
                };
                (spec_epoch_days(year, 1, 1) - 1 + day) * 86400 + offset
            },
            DstTransitionRule::Day(d, offset) => (spec_epoch_days(year, 1, 1) + d) * 86400 + offset,
            DstTransitionRule::Calendar { month, n, weekday, offset } => spec_epoch_days(
                year,
                month as int,
                DstTransitionRule::spec_calendar_day(year, month as int, n as int, weekday as int),
            ) * 86400 + offset,
        }
    }

    /// Returns a new rule with a newly set number of seconds from midnight local time.
    pub fn with_offset(self, offset: i64) -> (r: DstTransitionRule)
        ensures
            r == self.spec_with_offset(offset),
    {
        match self {
            DstTransitionRule::JulianDay(d, _) => DstTransitionRule::JulianDay(d, offset),
            DstTransitionRule::Day(d, _) => DstTransitionRule::Day(d, offset),
            DstTransitionRule::Calendar { month, n, weekday, .. } => DstTransitionRule::Calendar {
                month,
                n,
                weekday,
                offset,
            },
        }
    }

    /// Returns the local timestamp at which the rule fires in the given year.
    pub fn timestamp_in_year(&self, year: i16) -> (r: NaiveTimestamp)
        requires
            self.wf(),
        ensures
            r.0 == self.spec_timestamp_in_year(year as int),
            -1_200_000_000_000 <= r.0 <= 1_200_000_000_000,
    {
        match self {
            DstTransitionRule::JulianDay(day, offset) => {
                let d: u16 = if *day >= 60 && is_leap_year(year) {
                    *day + 1
                } else {
                    *day
                };
                let epoch = date_to_epoch_days(year, 1, 1) as i64;
                proof {
                    crate::gregorian::lemma_epoch_days_bounds(year as int, 1, 1);
                }
                NaiveTimestamp::from_seconds((epoch - 1 + d as i64) * 86400 + *offset)
            },
            DstTransitionRule::Day(day, offset) => {
                let epoch = date_to_epoch_days(year, 1, 1) as i64;
                proof {
                    crate::gregorian::lemma_epoch_days_bounds(year as int, 1, 1);
                }
                NaiveTimestamp::from_seconds((epoch + *day as i64) * 86400 + *offset)
            },
            DstTransitionRule::Calendar { month, n, weekday, offset } => {
                let first_epoch = date_to_epoch_days(year, *month, 1);
                proof {
                    crate::gregorian::lemma_epoch_days_bounds(year as int, *month as int, 1);
                }
                let first_weekday = weekday_from_days(first_epoch);
                let dim = days_in_month(year, *month);
                let mut day: u8 = weekday_difference(*weekday, first_weekday) + 1 + (*n - 1) * 7;
                if day > dim {
                    day = day - 7;
                }
                let epoch = date_to_epoch_days(year, *month, day) as i64;
                proof {
                    crate::gregorian::lemma_epoch_days_bounds(year as int, *month as int, day as int);
                }
                NaiveTimestamp::from_seconds(epoch * 86400 + *offset)
            },
        }
    }
}

// ---------------------------------------------------------------------------
// The grammar of a rule string
// ---------------------------------------------------------------------------

/// Whether a character has the Unicode `Alphabetic` property, as `char::is_alphabetic` says.
pub uninterp spec fn is_alphabetic(c: char) -> bool;

/// Whether a character is alphabetic: among ASCII characters the letters, and beyond
/// them whatever has the Unicode `Alphabetic` property.
pub open spec fn alphabetic(c: char) -> bool {
    if (c as u32) < 128 {
        'A' <= c <= 'Z' || 'a' <= c <= 'z'
    } else {
        is_alphabetic(c)
    }
}

/// Calls `char::is_alphabetic`, which tells whether a character has the Unicode
/// `Alphabetic` property. Its result is named by [`is_alphabetic`]; among ASCII
/// characters exactly the letters `A`-`Z` and `a`-`z` have the property.
#[verifier::external_body]
fn char_is_alphabetic(c: char) -> (r: bool)
    ensures
        r == is_alphabetic(c),
        ('A' <= c <= 'Z' || 'a' <= c <= 'z') ==> r,
        (c as u32) < 128 && !('A' <= c <= 'Z' || 'a' <= c <= 'z') ==> !r,
{
    c.is_alphabetic()
}

/// An ASCII decimal digit.
pub open spec fn is_digit_char(c: char) -> bool {
    '0' <= c <= '9'
}

/// The value of an ASCII decimal digit.
pub open spec fn digit_value(c: char) -> int {
    c as int - 48
}

/// A character allowed in an abbreviation quoted with `<` and `>`.
pub open spec fn is_quoted_char(c: char) -> bool {
    ||| is_digit_char(c)
    ||| 'a' <= c <= 'z'
    ||| 'A' <= c <= 'Z'
    ||| c == '+'
    ||| c == '-'
}

/// The first position at or after `i` whose character may not stand in a quoted abbreviation.
pub open spec fn quoted_end(s: Seq<char>, i: int) -> int
    decreases s.len() - i,
{
    if i < 0 || i >= s.len() {
        s.len() as int
    } else if is_quoted_char(s[i]) {
        quoted_end(s, i + 1)
    } else {
        i
    }
}

/// The first position at or after `i` whose character is not alphabetic.
pub open spec fn alphabetic_end(s: Seq<char>, i: int) -> int
    decreases s.len() - i,
{
    if i < 0 || i >= s.len() {
        s.len() as int
    } else if alphabetic(s[i]) {
        alphabetic_end(s, i + 1)
    } else {
        i
    }
}

/// An abbreviation is accepted when its UTF-8 encoding has at least three bytes.
pub open spec fn checked_abbr(abbr: Seq<char>, next: int) -> Option<(Seq<char>, int)> {
    if vstd::utf8::encode_utf8(abbr).len() < 3 {
        None
    } else {
        Some((abbr, next))
    }
}

/// The abbreviation at position `p` and the position after it: either a run of
/// alphabetic characters, or characters quoted with `<` and `>`.
pub open spec fn spec_abbr(s: Seq<char>, p: int) -> Option<(Seq<char>, int)> {
    if p < 0 || p >= s.len() {
        None
    } else if s[p] == '<' {
        let e = quoted_end(s, p + 1);
        if e < s.len() && s[e] != '>' {
            None
        } else {
            checked_abbr(s.subrange(p + 1, e), if e < s.len() { e + 1 } else { e })
        }
    } else if alphabetic(s[p]) {
        let e = alphabetic_end(s, p + 1);
        checked_abbr(s.subrange(p, e), e)
    } else {
        None
    }
}

/// One or two digits at position `p`, and the position after them.
pub open spec fn spec_one_or_two_digits(s: Seq<char>, p: int) -> Option<(int, int)> {
    if 0 <= p < s.len() && is_digit_char(s[p]) {
        if p + 1 < s.len() && is_digit_char(s[p + 1]) {
            Some((digit_value(s[p]) * 10 + digit_value(s[p + 1]), p + 2))
        } else {
            Some((digit_value(s[p]), p + 1))
        }
    } else {
        None
    }
}

/// Exactly two digits at position `p`, and the position after them.
pub open spec fn spec_two_digits(s: Seq<char>, p: int) -> Option<(int, int)> {
    if 0 <= p && p + 1 < s.len() && is_digit_char(s[p]) && is_digit_char(s[p + 1]) {
        Some((digit_value(s[p]) * 10 + digit_value(s[p + 1]), p + 2))
    } else {
        None
    }
}

/// An optional `:` and two digits at position `p`: their value, `0` when absent.
pub open spec fn spec_colon_part(s: Seq<char>, p: int) -> Option<(int, int)> {
    if 0 <= p < s.len() && s[p] == ':' {
        spec_two_digits(s, p + 1)
    } else {
        Some((0, p))
    }
}

/// A time `hh[:mm[:ss]]` at position `p` in seconds, and the position after it.
pub open spec fn spec_hms(s: Seq<char>, p: int) -> Option<(int, int)> {
    match spec_one_or_two_digits(s, p) {
        None => None,
        Some((h, q)) => match spec_colon_part(s, q) {
            None => None,
            Some((m, r)) => match spec_colon_part(s, r) {
                None => None,
                Some((sec, t)) => Some((h * 3600 + m * 60 + sec, t)),
            },
        },
    }
}

/// An offset `[+-]hh[:mm[:ss]]` at position `p`, counted west of UTC, as seconds east
/// of UTC, and the position after it.
pub open spec fn spec_posix_offset(s: Seq<char>, p: int) -> Result<(int, int), ParseError> {
    if p < 0 || p >= s.len() {
        Err(ParseError::InvalidPosixTz)
    } else {
        let west = s[p] != '-';
        let q = if s[p] == '+' || s[p] == '-' { p + 1 } else { p };
        match spec_hms(s, q) {
            None => Err(ParseError::InvalidPosixTz),
            Some((t, r)) => {
                let seconds = if west { -t } else { t };
                if -86400 <= seconds <= 86400 {
                    Ok((seconds, r))
                } else {
                    Err(ParseError::InvalidOffset)
                }
            },
        }
    }
}

/// One to three digits at position `p`, and the position after them.
pub open spec fn spec_up_to_three_digits(s: Seq<char>, p: int) -> Option<(int, int)> {
    if !(0 <= p < s.len() && is_digit_char(s[p])) {
        None
    } else if !(p + 1 < s.len() && is_digit_char(s[p + 1])) {
        Some((digit_value(s[p]), p + 1))
    } else if !(p + 2 < s.len() && is_digit_char(s[p + 2])) {
        Some((digit_value(s[p]) * 10 + digit_value(s[p + 1]), p + 2))
    } else {
        Some((digit_value(s[p]) * 100 + digit_value(s[p + 1]) * 10 + digit_value(s[p + 2]), p + 3))
    }
}

/// The date part of a transition rule at position `p`, with a time of day of zero, and
/// the position after it.
pub open spec fn spec_rule_date(s: Seq<char>, p: int) -> Option<(DstTransitionRule, int)> {
    if p < 0 || p >= s.len() {
        None
    } else if s[p] == 'J' {
        match spec_up_to_three_digits(s, p + 1) {
            Some((d, q)) if 1 <= d <= 365 => Some((DstTransitionRule::JulianDay(d as u16, 0), q)),
            _ => None,
        }
    } else if s[p] == 'M' {
        match spec_one_or_two_digits(s, p + 1) {
            Some((m, q)) if q + 3 < s.len() && s[q] == '.' && is_digit_char(s[q + 1]) && s[q + 2]
                == '.' && is_digit_char(s[q + 3]) => {
                let n = digit_value(s[q + 1]);
                let w = digit_value(s[q + 3]);
                if 1 <= m <= 12 && 1 <= n <= 5 && w <= 6 {
                    Some(
                        (
                            DstTransitionRule::Calendar {
                                month: m as u8,
                                n: n as u8,
                                weekday: w as u8,
                                offset: 0,
                            },
                            q + 4,
                        ),
                    )
                } else {
                    None
                }
            },
            _ => None,
        }
    } else {
        match spec_up_to_three_digits(s, p) {
            Some((d, q)) if d <= 365 => Some((DstTransitionRule::Day(d as u16, 0), q)),
            _ => None,
        }
    }
}

/// A transition rule `date[/time]` at position `p`, the time defaulting to 02:00:00,
/// and the position after it.
pub open spec fn spec_rule(s: Seq<char>, p: int) -> Option<(DstTransitionRule, int)> {
    match spec_rule_date(s, p) {
        None => None,
        Some((rule, q)) => if 0 <= q < s.len() && s[q] == '/' {
            match spec_hms(s, q + 1) {
                None => None,
                Some((t, r)) => Some((rule.spec_with_offset(t as i64), r)),
            }
        } else {
            Some((rule.spec_with_offset(7200), q))
        },
    }
}

/// The number of bytes of the UTF-8 encoding of a character.
pub open spec fn utf8_width(c: char) -> int {
    let v = c as u32;
    if v < 0x80 {
        1
    } else if v < 0x800 {
        2
    } else if v < 0x10000 && !(0xD800 <= v <= 0xDFFF) {
        3
    } else {
        4
    }
}

/// The UTF-8 encoding of a sequence of characters has the widths of its characters,
/// so at least one byte for each.
proof fn lemma_encode_utf8_len(chars: Seq<char>)
    ensures
        chars.len() == 0 ==> vstd::utf8::encode_utf8(chars).len() == 0,
        chars.len() > 0 ==> vstd::utf8::encode_utf8(chars).len() == utf8_width(chars[0])
            + vstd::utf8::encode_utf8(chars.drop_first()).len(),
        vstd::utf8::encode_utf8(chars).len() >= chars.len(),
    decreases chars.len(),
{
    if chars.len() > 0 {
        lemma_encode_utf8_len(chars.drop_first());
        let v = chars[0] as u32;
        assert(vstd::utf8::encode_scalar(v).len() == utf8_width(chars[0]));
        assert(vstd::utf8::encode_utf8(chars) == vstd::utf8::encode_scalar(v) + vstd::utf8::encode_utf8(
            chars.drop_first(),
        ));
    }
}

/// Returns the number of bytes of the UTF-8 encoding of a character.
fn char_utf8_width(c: char) -> (r: usize)
    ensures
        r == utf8_width(c),
{
    let v = c as u32;
    if v < 0x80 {
        1
    } else if v < 0x800 {
        2
    } else if v < 0x10000 && !(0xD800 <= v && v <= 0xDFFF) {
        3
    } else {
        4
    }
}

/// Whether the characters `from..to` encode to at least three bytes of UTF-8.
fn long_enough(s: &Vec<char>, from: usize, to: usize) -> (r: bool)
    requires
        from <= to <= s@.len(),
    ensures
        r == (vstd::utf8::encode_utf8(s@.subrange(from as int, to as int)).len() >= 3),
{
    let ghost a = s@.subrange(from as int, to as int);
    proof {
        lemma_encode_utf8_len(a);
    }
    if to - from >= 3 {
        true
    } else if to == from {
        false
    } else if to - from == 1 {
        proof {
            lemma_encode_utf8_len(a.drop_first());
        }
        char_utf8_width(s[from]) >= 3
    } else {
        proof {
            lemma_encode_utf8_len(a.drop_first());
            lemma_encode_utf8_len(a.drop_first().drop_first());
        }
        char_utf8_width(s[from]) + char_utf8_width(s[from + 1]) >= 3
    }
}

/// Collects the characters `from..to` into a string.
fn string_of(s: &Vec<char>, from: usize, to: usize) -> (r: String)
    requires
        from <= to <= s@.len(),
    ensures
        r@ == s@.subrange(from as int, to as int),
{
    let mut out = String::new();
    let mut i = from;
    while i < to
        invariant
            from <= i <= to <= s@.len(),
            out@ == s@.subrange(from as int, i as int),
        decreases to - i,
    {
        push_char(&mut out, s[i]);
        proof {
            assert(s@.subrange(from as int, i + 1) =~= s@.subrange(from as int, i as int).push(s@[i as int]));
        }
        i = i + 1;
    }
    out
}

/// Whether a character is an ASCII decimal digit.
fn is_digit_exec(c: char) -> (r: bool)
    ensures
        r == is_digit_char(c),
{
    '0' <= c && c <= '9'
}

/// The value of an ASCII decimal digit.
fn digit_of(c: char) -> (r: u8)
    requires
        is_digit_char(c),
    ensures
        r == digit_value(c),
{
    (c as u32 - 48) as u8
}

/// Whether a character may stand in a quoted abbreviation.
fn is_quoted_exec(c: char) -> (r: bool)
    ensures
        r == is_quoted_char(c),
{
    ('0' <= c && c <= '9') || ('a' <= c && c <= 'z') || ('A' <= c && c <= 'Z') || c == '+' || c == '-'
}

/// Whether position `p` holds the given character.
fn char_at_is(s: &Vec<char>, p: usize, c: char) -> (r: bool)
    ensures
        r == (p < s@.len() && s@[p as int] == c),
{
    p < s.len() && s[p] == c
}

/// Parses an abbreviation at position `p`.
fn parse_abbr(s: &Vec<char>, p: usize) -> (r: Result<(String, usize), ParseError>)
    requires
        p <= s@.len(),
    ensures
        r matches Ok((a, q)) ==> spec_abbr(s@, p as int) == Some((a@, q as int)),
        r is Err <==> spec_abbr(s@, p as int) is None,
        r matches Err(e) ==> e == ParseError::InvalidPosixTz,
{
    if p >= s.len() {
        return Err(ParseError::InvalidPosixTz);
    }
    if s[p] == '<' {
        let mut e = p + 1;
        while e < s.len() && is_quoted_exec(s[e])
            invariant
                p + 1 <= e <= s@.len(),
                quoted_end(s@, e as int) == quoted_end(s@, p + 1),
            decreases s@.len() - e,
        {
            e = e + 1;
        }
        if e < s.len() && s[e] != '>' {
            return Err(ParseError::InvalidPosixTz);
        }
        if !long_enough(s, p + 1, e) {
            return Err(ParseError::InvalidPosixTz);
        }
        let abbr = string_of(s, p + 1, e);
        let next = if e < s.len() {
            e + 1
        } else {
            e
        };
        Ok((abbr, next))
    } else if char_is_alphabetic(s[p]) {
        let mut e = p + 1;
        while e < s.len() && char_is_alphabetic(s[e])
            invariant
                p + 1 <= e <= s@.len(),
                alphabetic_end(s@, e as int) == alphabetic_end(s@, p + 1),
            decreases s@.len() - e,
        {
            e = e + 1;
        }
        if !long_enough(s, p, e) {
            return Err(ParseError::InvalidPosixTz);
        }
        Ok((string_of(s, p, e), e))
    } else {
        Err(ParseError::InvalidPosixTz)
    }
}

/// Parses one or two digits at position `p`.
fn parse_one_or_two_digits(s: &Vec<char>, p: usize) -> (r: Option<(u8, usize)>)
    requires
        p <= s@.len(),
    ensures
        r is None <==> spec_one_or_two_digits(s@, p as int) is None,
        r matches Some((v, q)) ==> spec_one_or_two_digits(s@, p as int) == Some((v as int, q as int)),
{
    if p < s.len() && is_digit_exec(s[p]) {
        let c = digit_of(s[p]);
        if p + 1 < s.len() && is_digit_exec(s[p + 1]) {
            Some((c * 10 + digit_of(s[p + 1]), p + 2))
        } else {
            Some((c, p + 1))
        }
    } else {
        None
    }
}

/// Parses an optional `:` and two digits at position `p`.
fn parse_colon_part(s: &Vec<char>, p: usize) -> (r: Option<(u8, usize)>)
    requires
        p <= s@.len(),
    ensures
        r is None <==> spec_colon_part(s@, p as int) is None,
        r matches Some((v, q)) ==> spec_colon_part(s@, p as int) == Some((v as int, q as int)),
{
    if char_at_is(s, p, ':') {
        if s.len() - p >= 3 && is_digit_exec(s[p + 1]) && is_digit_exec(s[p + 2]) {
            Some((digit_of(s[p + 1]) * 10 + digit_of(s[p + 2]), p + 3))
        } else {
            None
        }
    } else {
        Some((0, p))
    }
}

/// Parses a time of day `hh[:mm[:ss]]` at position `p`, in seconds.
fn parse_time(s: &Vec<char>, p: usize) -> (r: Result<(i64, usize), ParseError>)
    requires
        p <= s@.len(),
    ensures
        r is Err <==> spec_hms(s@, p as int) is None,
        r matches Ok((t, q)) ==> spec_hms(s@, p as int) == Some((t as int, q as int)),
        r matches Ok((t, q)) ==> 0 <= t <= MAX_RULE_TIME,
        r matches Err(e) ==> e == ParseError::InvalidPosixTz,
{
    let (hour, q) = match parse_one_or_two_digits(s, p) {
        Some(v) => v,
        None => return Err(ParseError::InvalidPosixTz),
    };
    let (minute, q) = match parse_colon_part(s, q) {
        Some(v) => v,
        None => return Err(ParseError::InvalidPosixTz),
    };
    let (second, q) = match parse_colon_part(s, q) {
        Some(v) => v,
        None => return Err(ParseError::InvalidPosixTz),
    };
    Ok((hour as i64 * 3600 + minute as i64 * 60 + second as i64, q))
}

/// Parses an offset `[+-]hh[:mm[:ss]]` at position `p`, counted west of UTC.
fn parse_offset(s: &Vec<char>, p: usize) -> (r: Result<(UtcOffset, usize), ParseError>)
    requires
        p <= s@.len(),
    ensures
        r matches Ok((o, q)) ==> spec_posix_offset(s@, p as int) == Ok::<(int, int), ParseError>(
            (o.spec_total_seconds(), q as int),
        ),
        r matches Err(e) ==> spec_posix_offset(s@, p as int) == Err::<(int, int), ParseError>(e),
{
    if p >= s.len() {
        return Err(ParseError::InvalidPosixTz);
    }
    let west = s[p] != '-';
    let q = if s[p] == '+' || s[p] == '-' {
        p + 1
    } else {
        p
    };
    let (t, q) = parse_time(s, q)?;
    let seconds: i64 = if west {
        -t
    } else {
        t
    };
    if seconds < -86400 || seconds > 86400 {
        return Err(ParseError::InvalidOffset);
    }
    Ok((UtcOffset::from_seconds_unchecked(seconds as i32), q))
}

/// Parses one to three digits at position `p`.
fn parse_three_digit_number(s: &Vec<char>, p: usize) -> (r: Result<(u16, usize), ParseError>)
    requires
        p <= s@.len(),
    ensures
        r is Err <==> spec_up_to_three_digits(s@, p as int) is None,
        r matches Ok((v, q)) ==> spec_up_to_three_digits(s@, p as int) == Some((v as int, q as int)),
        r matches Err(e) ==> e == ParseError::InvalidPosixTz,
{
    let mut n: u16 = 0;
    let mut i = p;
    while i - p < 3 && i < s.len() && is_digit_exec(s[i])
        invariant
            p <= i <= p + 3,
            i <= s@.len(),
            forall|k: int| p <= k < i ==> is_digit_char(#[trigger] s@[k]),
            i == p ==> n == 0,
            i == p + 1 ==> n == digit_value(s@[p as int]),
            i == p + 2 ==> n == digit_value(s@[p as int]) * 10 + digit_value(s@[p + 1]),
            i == p + 3 ==> n == digit_value(s@[p as int]) * 100 + digit_value(s@[p + 1]) * 10
                + digit_value(s@[p + 2]),
        decreases p + 3 - i,
    {
        n = n * 10 + digit_of(s[i]) as u16;
        i = i + 1;
    }
    if i == p {
        Err(ParseError::InvalidPosixTz)
    } else {
        Ok((n, i))
    }
}

/// Parses a single digit at position `p`.
fn parse_digit(s: &Vec<char>, p: usize) -> (r: Result<u8, ParseError>)
    ensures
        r is Ok <==> p < s@.len() && is_digit_char(s@[p as int]),
        r matches Ok(d) ==> d == digit_value(s@[p as int]),
        r matches Err(e) ==> e == ParseError::InvalidPosixTz,
{
    if p < s.len() && is_digit_exec(s[p]) {
        Ok(digit_of(s[p]))
    } else {
        Err(ParseError::InvalidPosixTz)
    }
}

/// Parses a DST transition rule `date[/time]` at position `p`.
fn parse_dst_transition_rule(s: &Vec<char>, p: usize) -> (r: Result<(DstTransitionRule, usize), ParseError>)
    requires
        p <= s@.len(),
    ensures
        r is Err <==> spec_rule(s@, p as int) is None,
        r matches Ok((rule, q)) ==> spec_rule(s@, p as int) == Some((rule, q as int)) && rule.wf(),
        r matches Err(e) ==> e == ParseError::InvalidPosixTz,
{
    if p >= s.len() {
        return Err(ParseError::InvalidPosixTz);
    }
    let (rule, q) = if s[p] == 'J' {
        let (day, q) = parse_three_digit_number(s, p + 1)?;
        if day < 1 || day > 365 {
            return Err(ParseError::InvalidPosixTz);
        }
        (DstTransitionRule::JulianDay(day, 0), q)
    } else if s[p] == 'M' {
        let (month, q) = match parse_one_or_two_digits(s, p + 1) {
            Some(v) => v,
            None => return Err(ParseError::InvalidPosixTz),
        };
        if !char_at_is(s, q, '.') {
            return Err(ParseError::InvalidPosixTz);
        }
        let n = parse_digit(s, q + 1)?;
        if !char_at_is(s, q + 2, '.') {
            return Err(ParseError::InvalidPosixTz);
        }
        let weekday = parse_digit(s, q + 3)?;
        if month > 12 || month < 1 || n < 1 || n > 5 || weekday > 6 {
            return Err(ParseError::InvalidPosixTz);
        }
        (DstTransitionRule::Calendar { month, n, weekday, offset: 0 }, q + 4)
    } else {
        let (day, q) = parse_three_digit_number(s, p)?;
        if day > 365 {
            return Err(ParseError::InvalidPosixTz);
        }
        (DstTransitionRule::Day(day, 0), q)
    };
    if char_at_is(s, q, '/') {
        let (offset, r) = parse_time(s, q + 1)?;
        Ok((rule.with_offset(offset), r))
    } else {
        Ok((rule.with_offset(7200), q))
    }
}

// ---------------------------------------------------------------------------
// The time zone
// ---------------------------------------------------------------------------

/// The DST part of a POSIX time zone.
#[derive(Debug, PartialEq, Eq, Hash)]
pub struct DstTransitionInfo {
    /// The abbreviation while DST is observed.
    pub abbr: String,
    /// The offset from UTC while DST is observed.
    pub offset: UtcOffset,
    /// When DST starts, in standard local time.
    pub start: DstTransitionRule,
    /// When DST ends, in DST local time.
    pub end: DstTransitionRule,
    /// The DST offset less the standard offset.
    pub base_offset: UtcOffset,
}

/// The DST part of a POSIX time zone as plain values: the abbreviation, the offset in
/// seconds, the start and end rules, and the offset difference in seconds.
pub open spec fn dst_view(d: DstTransitionInfo) -> (Seq<char>, int, DstTransitionRule, DstTransitionRule, int) {
    (d.abbr@, d.offset.spec_total_seconds(), d.start, d.end, d.base_offset.spec_total_seconds())
}

/// A POSIX-string specified time zone rule.
///
/// The details of this format are specified under the POSIX TZ rules
/// under Section 8.3. These mainly show up either in the `TZ` environment
/// variable or at the end of a TZif footer as specified by RFC 8536.
#[derive(Debug, PartialEq, Eq, Hash)]
pub struct PosixTimeZone {
    std_abbr: String,
    std_offset: UtcOffset,
    dst: Option<DstTransitionInfo>,
}

impl View for PosixTimeZone {
    type V = (Seq<char>, int, Option<(Seq<char>, int, DstTransitionRule, DstTransitionRule, int)>);

    /// The standard abbreviation, the standard offset in seconds, and the DST part.
    closed spec fn view(&self) -> Self::V {
        (
            self.std_abbr@,
            self.std_offset.spec_total_seconds(),
            match self.dst {
                Some(d) => Some(dst_view(d)),
                None => None,
            },
        )
    }
}

/// The time zone a rule string describes, or the error that parsing it gives.
pub open spec fn spec_posix(
    s: Seq<char>,
) -> Result<(Seq<char>, int, Option<(Seq<char>, int, DstTransitionRule, DstTransitionRule, int)>), ParseError> {
    match spec_abbr(s, 0) {
        None => Err(ParseError::InvalidPosixTz),
        Some((std_abbr, p)) => {
            let std_offset = if p >= s.len() {
                Ok((0int, p))
            } else {
                spec_posix_offset(s, p)
            };
            match std_offset {
                Err(e) => Err(e),
                Ok((std_secs, q)) => if q >= s.len() {
                    Ok((std_abbr, std_secs, None))
                } else {
                    match spec_abbr(s, q) {
                        None => Err(ParseError::InvalidPosixTz),
                        Some((dst_abbr, r)) => {
                            let dst_offset: Result<(int, int), ParseError> = if r >= s.len() {
                                Err(ParseError::InvalidPosixTz)
                            } else if s[r] == ',' {
                                Ok((clamp_offset(std_secs + 3600), r + 1))
                            } else {
                                match spec_posix_offset(s, r) {
                                    Err(e) => Err(e),
                                    Ok((o, t)) => if t < s.len() && s[t] == ',' {
                                        Ok((o, t + 1))
                                    } else {
                                        Err(ParseError::InvalidPosixTz)
                                    },
                                }
                            };
                            match dst_offset {
                                Err(e) => Err(e),
                                Ok((dst_secs, t)) => match spec_rule(s, t) {
                                    Some((start, u)) if u < s.len() && s[u] == ',' => match spec_rule(
                                        s,
                                        u + 1,
                                    ) {
                                        Some((end, _)) => Ok(
                                            (
                                                std_abbr,
                                                std_secs,
                                                Some(
                                                    (
                                                        dst_abbr,
                                                        dst_secs,
                                                        start,
                                                        end,
                                                        clamp_offset(dst_secs - std_secs),
                                                    ),
                                                ),
                                            ),
                                        ),
                                        None => Err(ParseError::InvalidPosixTz),
                                    },
                                    _ => Err(ParseError::InvalidPosixTz),
                                },
                            }
                        },
                    }
                },
            }
        },
    }
}

/// The transition rules of the DST part of a POSIX time zone are well formed.
pub open spec fn posix_wf(
    v: (Seq<char>, int, Option<(Seq<char>, int, DstTransitionRule, DstTransitionRule, int)>),
) -> bool {
    match v.2 {
        Some(d) => d.2.wf() && d.3.wf(),
        None => true,
    }
}

impl PosixTimeZone {
    /// The transition rules of the DST part are well formed.
    #[verifier::type_invariant]
    closed spec fn inv(&self) -> bool {
        posix_wf(self@)
    }

    /// Creates a new [`PosixTimeZone`] with the given TZ string.
    ///
    /// Whatever follows the end rule is ignored.
    pub fn new(tz: &str) -> (r: Result<PosixTimeZone, ParseError>)
        ensures
            r matches Ok(z) ==> spec_posix(tz@) == Ok::<_, ParseError>(z@),
            r matches Err(e) ==> spec_posix(tz@) == Err::<
                (Seq<char>, int, Option<(Seq<char>, int, DstTransitionRule, DstTransitionRule, int)>),
                ParseError,
            >(e),
    {
        // std[offset[dst[offset],start[/time],end[/time]]]
        let s = chars_of(tz);
        let (std_abbr, p) = parse_abbr(&s, 0)?;
        let (std_offset, q) = if p >= s.len() {
            (UtcOffset::utc(), p)
        } else {
            parse_offset(&s, p)?
        };
        if q >= s.len() {
            return Ok(PosixTimeZone { std_abbr, std_offset, dst: None });
        }
        let (abbr, r) = parse_abbr(&s, q)?;
        if r >= s.len() {
            return Err(ParseError::InvalidPosixTz);
        }
        let (offset, t) = if s[r] == ',' {
            (std_offset.saturating_add(UtcOffset::from_seconds_unchecked(3600)), r + 1)
        } else {
            let (offset, t) = parse_offset(&s, r)?;
            if !char_at_is(&s, t, ',') {
                return Err(ParseError::InvalidPosixTz);
            }
            (offset, t + 1)
        };
        let (start, u) = parse_dst_transition_rule(&s, t)?;
        if !char_at_is(&s, u, ',') {
            return Err(ParseError::InvalidPosixTz);
        }
        let (end, _) = parse_dst_transition_rule(&s, u + 1)?;
        let base_offset = offset.saturating_sub(std_offset);
        Ok(PosixTimeZone { std_abbr, std_offset, dst: Some(DstTransitionInfo { abbr, offset, start, end, base_offset }) })
    }
}

impl Clone for DstTransitionInfo {
    fn clone(&self) -> (r: DstTransitionInfo)
        ensures
            dst_view(r) == dst_view(*self),
    {
        DstTransitionInfo {
            abbr: self.abbr.clone(),
            offset: self.offset,
            start: self.start,
            end: self.end,
            base_offset: self.base_offset,
        }
    }
}

impl Clone for PosixTimeZone {
    fn clone(&self) -> (r: PosixTimeZone)
        ensures
            r@ == self@,
    {
        proof {
            use_type_invariant(self);
        }
        let dst = match &self.dst {
            Some(d) => Some(d.clone()),
            None => None,
        };
        PosixTimeZone { std_abbr: self.std_abbr.clone(), std_offset: self.std_offset, dst }
    }
}

// ---------------------------------------------------------------------------
// When DST is observed
// ---------------------------------------------------------------------------

/// Whether `ts` lies in the DST period that starts at `start` and ends at `end`, a
/// period that wraps around the end of the year when it ends before it starts.
pub open spec fn spec_in_dst(start: int, end: int, ts: int) -> bool {
    if start < end {
        start <= ts < end
    } else {
        !(end <= ts < start)
    }
}

/// The year of the UTC date of a UNIX time, saturating at the ends of the range.
pub open spec fn utc_year(secs: int) -> int {
    if secs >= MAX_VALID_SECONDS {
        i16::MAX as int
    } else if secs <= MIN_VALID_SECONDS {
        i16::MIN as int
    } else {
        date_of_epoch_days(secs / 86400).0
    }
}

/// Whether DST is observed at a local wall clock of `ts` seconds in `year`.
pub open spec fn spec_is_dst_local(
    v: (Seq<char>, int, Option<(Seq<char>, int, DstTransitionRule, DstTransitionRule, int)>),
    year: int,
    ts: int,
) -> bool {
    match v.2 {
        Some(d) => spec_in_dst(d.2.spec_timestamp_in_year(year), d.3.spec_timestamp_in_year(year), ts),
        None => false,
    }
}

/// Whether DST is observed at the UNIX time `secs` of a day of `year`: DST starts at the
/// start rule read in standard time and ends at the end rule read in DST.
pub open spec fn spec_is_dst_utc(
    v: (Seq<char>, int, Option<(Seq<char>, int, DstTransitionRule, DstTransitionRule, int)>),
    year: int,
    secs: int,
) -> bool {
    match v.2 {
        Some(d) => spec_in_dst(
            d.2.spec_timestamp_in_year(year) - v.1,
            d.3.spec_timestamp_in_year(year) - d.1,
            secs,
        ),
        None => false,
    }
}

/// The offset in seconds in effect at the UNIX time `secs` of a day of `year`.
pub open spec fn spec_offset_at(
    v: (Seq<char>, int, Option<(Seq<char>, int, DstTransitionRule, DstTransitionRule, int)>),
    year: int,
    secs: int,
) -> int {
    match v.2 {
        Some(d) => if spec_is_dst_utc(v, year, secs) {
            d.1
        } else {
            v.1
        },
        None => v.1,
    }
}

/// The abbreviation in effect at the UNIX time `secs` of a day of `year`.
pub open spec fn spec_name_at(
    v: (Seq<char>, int, Option<(Seq<char>, int, DstTransitionRule, DstTransitionRule, int)>),
    year: int,
    secs: int,
) -> Seq<char> {
    match v.2 {
        Some(d) => if spec_is_dst_utc(v, year, secs) {
            d.0
        } else {
            v.0
        },
        None => v.0,
    }
}

/// How a local wall clock of `ts` seconds in `year` resolves: its kind, and the offsets
/// in seconds before and after the transition it falls in.
///
/// With a positive DST difference, the hour before DST ends is ambiguous and the hour
/// after it starts is missing; with a negative one, the hour before DST starts is
/// ambiguous and the hour after it ends is missing.
pub open spec fn spec_partial_resolution(
    v: (Seq<char>, int, Option<(Seq<char>, int, DstTransitionRule, DstTransitionRule, int)>),
    year: int,
    ts: int,
) -> (DateTimeResolutionKind, int, int) {
    match v.2 {
        Some(d) => {
            let diff = d.4;
            let end = d.3.spec_timestamp_in_year(year);
            let start = d.2.spec_timestamp_in_year(year);
            let is_dst = spec_in_dst(start, end, ts);
            if diff > 0 {
                if end - diff <= ts < end {
                    (DateTimeResolutionKind::Ambiguous, d.1, v.1)
                } else if start <= ts < start + diff {
                    (DateTimeResolutionKind::Missing, v.1, d.1)
                } else if is_dst {
                    (DateTimeResolutionKind::Unambiguous, d.1, d.1)
                } else {
                    (DateTimeResolutionKind::Unambiguous, v.1, v.1)
                }
            } else {
                if start + diff <= ts < start {
                    (DateTimeResolutionKind::Ambiguous, v.1, d.1)
                } else if end <= ts < end - diff {
                    (DateTimeResolutionKind::Missing, d.1, v.1)
                } else if is_dst {
                    (DateTimeResolutionKind::Unambiguous, d.1, d.1)
                } else {
                    (DateTimeResolutionKind::Unambiguous, v.1, v.1)
                }
            }
        },
        None => (DateTimeResolutionKind::Unambiguous, v.1, v.1),
    }
}

/// The local wall clock, in seconds, of the UTC instant `u` under the rule of `year`.
pub open spec fn local_of(
    v: (Seq<char>, int, Option<(Seq<char>, int, DstTransitionRule, DstTransitionRule, int)>),
    year: int,
    u: int,
) -> int {
    u + spec_offset_at(v, year, u)
}

/// Under the rule of one year, a local time that [`spec_partial_resolution`] calls
/// missing is the wall clock of no instant, an ambiguous one is the wall clock of
/// exactly two instants, one at each of its offsets, and an unambiguous one is the
/// wall clock of exactly one instant, at its offset. This holds when the DST offset
/// differs from standard time by the rule's difference and the two transitions of the
/// year lie at least twice that difference apart.
pub proof fn lemma_partial_resolution_law(
    v: (Seq<char>, int, Option<(Seq<char>, int, DstTransitionRule, DstTransitionRule, int)>),
    year: int,
    ts: int,
)
    requires
        v.2 matches Some(d) ==> {
            let start = d.2.spec_timestamp_in_year(year);
            let end = d.3.spec_timestamp_in_year(year);
            let gap = if d.4 < 0 { -d.4 } else { d.4 };
            &&& d.4 == d.1 - v.1
            &&& start < end ==> end - start >= 2 * gap
            &&& start >= end ==> start - end >= 2 * gap
        },
    ensures
        ({
            let (k, e, l) = spec_partial_resolution(v, year, ts);
            &&& k == DateTimeResolutionKind::Missing ==> forall|u: int| #[trigger] local_of(v, year, u) != ts
            &&& k == DateTimeResolutionKind::Ambiguous ==> {
                &&& e != l
                &&& local_of(v, year, ts - e) == ts
                &&& local_of(v, year, ts - l) == ts
                &&& forall|u: int| #[trigger] local_of(v, year, u) == ts ==> u == ts - e || u == ts - l
            }
            &&& k == DateTimeResolutionKind::Unambiguous ==> {
                &&& e == l
                &&& local_of(v, year, ts - e) == ts
                &&& forall|u: int| #[trigger] local_of(v, year, u) == ts ==> u == ts - e
            }
        }),
{
}

impl DstTransitionInfo {
    /// Returns true if DST is active at the given local date and time.
    pub fn is_active(&self, date: &Date, time: &Time) -> (r: bool)
        requires
            self.start.wf(),
            self.end.wf(),
        ensures
            r == spec_in_dst(
                self.start.spec_timestamp_in_year(date@.0),
                self.end.spec_timestamp_in_year(date@.0),
                spec_local_seconds(*date, *time),
            ),
    {
        let ts = NaiveTimestamp::new(date, time);
        let start = self.start.timestamp_in_year(date.year());
        let end = self.end.timestamp_in_year(date.year());
        if start.0 < end.0 {
            start.0 <= ts.0 && ts.0 < end.0
        } else {
            !(end.0 <= ts.0 && ts.0 < start.0)
        }
    }

    /// Returns true if DST is observed at the UNIX timestamp, given the standard offset.
    pub fn is_dst_utc(&self, ts: Timestamp, std_offset: &UtcOffset) -> (r: bool)
        requires
            self.start.wf(),
            self.end.wf(),
        ensures
            r == spec_in_dst(
                self.start.spec_timestamp_in_year(utc_year(ts@.0)) - std_offset.spec_total_seconds(),
                self.end.spec_timestamp_in_year(utc_year(ts@.0)) - self.offset.spec_total_seconds(),
                ts@.0,
            ),
    {
        let utc = ts.to_utc();
        let year = utc.year();
        proof {
            crate::gregorian::lemma_epoch_days_bounds(year as int, 1, 1);
            crate::gregorian::lemma_epoch_days_bounds(year as int, 12, 31);
        }
        let start = self.start.timestamp_in_year(year).to_regular(std_offset);
        let end = self.end.timestamp_in_year(year).to_regular(&self.offset);
        let secs = ts.as_seconds();
        if start.as_seconds() < end.as_seconds() {
            start.as_seconds() <= secs && secs < end.as_seconds()
        } else {
            !(end.as_seconds() <= secs && secs < start.as_seconds())
        }
    }
}

impl PosixTimeZone {
    /// Returns the abbreviation of standard time.
    pub fn std_abbr(&self) -> (r: &str)
        ensures
            r@ == self@.0,
    {
        self.std_abbr.as_str()
    }

    /// Returns the offset from UTC of standard time.
    pub fn std_offset(&self) -> (r: UtcOffset)
        ensures
            r.spec_total_seconds() == self@.1,
    {
        self.std_offset
    }

    /// Returns the DST part, if DST is observed.
    pub fn dst(&self) -> (r: Option<&DstTransitionInfo>)
        ensures
            r is None <==> self@.2 is None,
            r matches Some(d) ==> self@.2 == Some(dst_view(*d)),
    {
        match &self.dst {
            Some(d) => Some(d),
            None => None,
        }
    }

    /// Returns `true` if the given local date and time are in DST.
    pub fn is_dst(&self, date: &Date, time: &Time) -> (r: bool)
        ensures
            r == spec_is_dst_local(self@, date@.0, spec_local_seconds(*date, *time)),
    {
        proof {
            use_type_invariant(self);
        }
        match &self.dst {
            Some(dst) => dst.is_active(date, time),
            None => false,
        }
    }

    /// Returns the offset of this time zone at a date time in UTC.
    fn utc_offset_at(&self, utc: &DateTime) -> (r: UtcOffset)
        ensures
            r.spec_total_seconds() == spec_offset_at(
                self@,
                utc@.0@.0,
                spec_local_seconds(utc@.0, utc@.1),
            ),
    {
        proof {
            use_type_invariant(self);
        }
        let ts = NaiveTimestamp::new(utc.date(), utc.time());
        match &self.dst {
            None => self.std_offset,
            Some(dst) => {
                let year = utc.year();
                let dst_on = dst.start.timestamp_in_year(year).0 - self.std_offset.total_seconds() as i64;
                let dst_off = dst.end.timestamp_in_year(year).0 - dst.offset.total_seconds() as i64;
                let is_dst = if dst_on < dst_off {
                    dst_on <= ts.0 && ts.0 < dst_off
                } else {
                    !(dst_off <= ts.0 && ts.0 < dst_on)
                };
                if is_dst {
                    dst.offset
                } else {
                    self.std_offset
                }
            },
        }
    }

    /// Moves the wall clock of a date time in UTC to the local time of this time zone,
    /// keeping its offset.
    pub fn shift_utc(&self, utc: &mut DateTime)
        requires
            crate::timezone::away_from_range_ends(old(utc)@.0),
        ensures
            (final(utc)@.0@, final(utc)@.1@) == spec_shift_wall_clock(
                old(utc)@.0,
                old(utc)@.1,
                spec_offset_at(self@, old(utc)@.0@.0, spec_local_seconds(old(utc)@.0, old(utc)@.1))
                    * 1_000_000_000,
            ),
            final(utc)@.2 == old(utc)@.2,
    {
        let offset = self.utc_offset_at(utc);
        let time = utc.time();
        proof {
            use_type_invariant(&offset);
            use_type_invariant(time);
            crate::timezone::lemma_shift_in_range(utc@.0, utc@.1, offset);
        }
        utc.shift(offset);
    }

    /// Returns the kind of resolution of a local date and time, with the offsets before
    /// and after the transition it falls in.
    pub fn partial_resolution(&self, date: &Date, time: &Time) -> (r: (
        DateTimeResolutionKind,
        UtcOffset,
        UtcOffset,
    ))
        ensures
            (r.0, r.1.spec_total_seconds(), r.2.spec_total_seconds()) == spec_partial_resolution(
                self@,
                date@.0,
                spec_local_seconds(*date, *time),
            ),
    {
        proof {
            use_type_invariant(self);
        }
        match &self.dst {
            Some(dst) => {
                let ts = NaiveTimestamp::new(date, time).into_inner();
                let dst_diff = dst.base_offset.total_seconds() as i64;
                let end = dst.end.timestamp_in_year(date.year()).into_inner();
                let start = dst.start.timestamp_in_year(date.year()).into_inner();
                let is_dst = if start < end {
                    start <= ts && ts < end
                } else {
                    !(end <= ts && ts < start)
                };
                if dst_diff > 0 {
                    if end - dst_diff <= ts && ts < end {
                        (DateTimeResolutionKind::Ambiguous, dst.offset, self.std_offset)
                    } else if start <= ts && ts < start + dst_diff {
                        (DateTimeResolutionKind::Missing, self.std_offset, dst.offset)
                    } else if is_dst {
                        (DateTimeResolutionKind::Unambiguous, dst.offset, dst.offset)
                    } else {
                        (DateTimeResolutionKind::Unambiguous, self.std_offset, self.std_offset)
                    }
                } else {
                    if start + dst_diff <= ts && ts < start {
                        (DateTimeResolutionKind::Ambiguous, self.std_offset, dst.offset)
                    } else if end <= ts && ts < end - dst_diff {
                        (DateTimeResolutionKind::Missing, dst.offset, self.std_offset)
                    } else if is_dst {
                        (DateTimeResolutionKind::Unambiguous, dst.offset, dst.offset)
                    } else {
                        (DateTimeResolutionKind::Unambiguous, self.std_offset, self.std_offset)
                    }
                }
            },
            None => (DateTimeResolutionKind::Unambiguous, self.std_offset, self.std_offset),
        }
    }
}

impl TimeZone for PosixTimeZone {
    fn name(&self, ts: Timestamp) -> (r: Option<&str>)
        ensures
            r matches Some(n) && n@ == spec_name_at(self@, utc_year(ts@.0), ts@.0),
    {
        proof {
            use_type_invariant(self);
        }
        match &self.dst {
            Some(dst) => {
                if dst.is_dst_utc(ts, &self.std_offset) {
                    Some(dst.abbr.as_str())
                } else {
                    Some(self.std_abbr.as_str())
                }
            },
            None => Some(self.std_abbr.as_str()),
        }
    }

    fn offset(&self, ts: Timestamp) -> (r: UtcOffset)
        ensures
            r.spec_total_seconds() == spec_offset_at(self@, utc_year(ts@.0), ts@.0),
    {
        proof {
            use_type_invariant(self);
        }
        match &self.dst {
            Some(dst) => {
                if dst.is_dst_utc(ts, &self.std_offset) {
                    dst.offset
                } else {
                    self.std_offset
                }
            },
            None => self.std_offset,
        }
    }

    fn resolve(self, date: Date, time: Time) -> (r: DateTimeResolution)
        ensures
            r@.0 == date,
            r@.1 == time,
            (r@.4, r@.2.spec_total_seconds(), r@.3.spec_total_seconds()) == spec_partial_resolution(
                self@,
                date@.0,
                spec_local_seconds(date, time),
            ),
    {
        let (kind, earlier, later) = self.partial_resolution(&date, &time);
        match kind {
            DateTimeResolutionKind::Missing => DateTimeResolution::missing(date, time, earlier, later),
            DateTimeResolutionKind::Unambiguous => DateTimeResolution::unambiguous(date, time, earlier),
            DateTimeResolutionKind::Ambiguous => DateTimeResolution::ambiguous(date, time, earlier, later),
        }
    }

    /// The kind and offsets of a local time follow the rule's transitions in its year.
    open spec fn resolves_to(self, date: Date, time: Time, r: DateTimeResolution) -> bool {
        &&& r@.0 == date
        &&& r@.1 == time
        &&& (r@.4, r@.2.spec_total_seconds(), r@.3.spec_total_seconds()) == spec_partial_resolution(
            self@,
            date@.0,
            spec_local_seconds(date, time),
        )
    }

    /// The converted date time names the same instant, unless it is in a leap second.
    fn convert_utc(self, utc: DateTime) -> (r: DateTime)
        ensures
            (r@.0@, r@.1@) == spec_shift_wall_clock(
                utc@.0,
                utc@.1,
                spec_offset_at(self@, utc@.0@.0, spec_local_seconds(utc@.0, utc@.1)) * 1_000_000_000,
            ),
            r@.2.spec_total_seconds() == spec_offset_at(
                self@,
                utc@.0@.0,
                spec_local_seconds(utc@.0, utc@.1),
            ),
            utc@.1@.3 < 1_000_000_000 ==> spec_compare_instants(r, utc) == 0,
    {
        let offset = self.utc_offset_at(&utc);
        let mut moved = utc;
        self.shift_utc(&mut moved);
        let time = utc.time();
        proof {
            use_type_invariant(time);
            if utc@.1@.3 < 1_000_000_000 {
                crate::datetime::lemma_shift_wall_clock_seconds(utc@.0, utc@.1, offset.spec_total_seconds());
            }
        }
        moved.with_timezone(offset)
    }

    fn is_fixed(&self) -> (r: bool)
        ensures
            r == (self@.2 is None),
    {
        self.dst.is_none()
    }
}

// ---------------------------------------------------------------------------
// Writing a rule string back
// ---------------------------------------------------------------------------

/// A number as `{}` writes it.
pub open spec fn plain(v: int) -> Seq<char> {
    zero_padded(v, 0, false)
}

/// `h`, or `h:mm:ss` when the minutes or the seconds are not zero.
pub open spec fn hms_text(h: int, m: int, sec: int) -> Seq<char> {
    if m != 0 || sec != 0 {
        plain(h) + seq![':'] + zero_padded(m, 2, false) + seq![':'] + zero_padded(sec, 2, false)
    } else {
        plain(h)
    }
}

/// The text of a time of day of a transition rule, in seconds.
pub open spec fn time_text(offset: int) -> Seq<char> {
    hms_text(offset / 3600, offset % 3600 / 60, offset % 3600 % 60)
}

/// The text of an offset from UTC, counted west of UTC.
pub open spec fn offset_text(o: (int, int, int)) -> Seq<char> {
    hms_text(-o.0, abs(o.1) as int, abs(o.2) as int)
}

/// The text of a transition rule.
pub open spec fn rule_text(rule: DstTransitionRule) -> Seq<char> {
    match rule {
        DstTransitionRule::JulianDay(d, offset) => seq!['J'] + plain(d as int) + seq!['/'] + time_text(
            offset as int,
        ),
        DstTransitionRule::Day(d, offset) => plain(d as int) + seq!['/'] + time_text(offset as int),
        DstTransitionRule::Calendar { month, n, weekday, offset } => seq!['M'] + plain(month as int) + seq![
            '.',
        ] + plain(n as int) + seq!['.'] + plain(weekday as int) + seq!['/'] + time_text(offset as int),
    }
}

/// An ASCII letter.
pub open spec fn is_ascii_letter(c: char) -> bool {
    'a' <= c <= 'z' || 'A' <= c <= 'Z'
}

/// An abbreviation, quoted with `<` and `>` unless it is made of ASCII letters only.
pub open spec fn abbr_text(a: Seq<char>) -> Seq<char> {
    if exists|i: int| 0 <= i < a.len() && !is_ascii_letter(#[trigger] a[i]) {
        seq!['<'] + a + seq!['>']
    } else {
        a
    }
}

/// Appends a time of day `h[:mm:ss]`.
fn push_hms(out: &mut String, h: i64, m: i64, sec: i64)
    requires
        -1_000_000 <= h <= 1_000_000,
        0 <= m <= 100,
        0 <= sec <= 100,
    ensures
        final(out)@ == old(out)@ + hms_text(h as int, m as int, sec as int),
{
    push_zero_padded(out, h, 0, false);
    if m != 0 || sec != 0 {
        push_char(out, ':');
        push_zero_padded(out, m, 2, false);
        push_char(out, ':');
        push_zero_padded(out, sec, 2, false);
        proof {
            assert(final(out)@ =~= old(out)@ + hms_text(h as int, m as int, sec as int));
        }
    }
}

/// Appends the time of day of a transition rule.
fn display_time(out: &mut String, offset: i64)
    requires
        0 <= offset <= MAX_RULE_TIME,
    ensures
        final(out)@ == old(out)@ + time_text(offset as int),
{
    let (hours, rest) = divmod_i64(offset, 3600);
    let (minutes, seconds) = divmod_i64(rest, 60);
    push_hms(out, hours, minutes, seconds);
}

/// Appends an offset from UTC, counted west of UTC.
fn display_offset(out: &mut String, offset: &UtcOffset)
    ensures
        final(out)@ == old(out)@ + offset_text(offset@),
{
    proof {
        use_type_invariant(offset);
    }
    let hours = -(offset.hours() as i64);
    let minutes = offset.minutes() as i64;
    let seconds = offset.seconds() as i64;
    let m = if minutes < 0 {
        -minutes
    } else {
        minutes
    };
    let s = if seconds < 0 {
        -seconds
    } else {
        seconds
    };
    push_hms(out, hours, m, s);
}

/// Appends an abbreviation, quoted unless it is made of ASCII letters only.
fn display_abbr(out: &mut String, abbr: &String)
    ensures
        final(out)@ == old(out)@ + abbr_text(abbr@),
{
    let a = abbr.as_str();
    let chars = chars_of(a);
    let mut i: usize = 0;
    let mut plain_letters = true;
    while i < chars.len()
        invariant
            i <= chars@.len(),
            chars@ == abbr@,
            plain_letters == forall|k: int| 0 <= k < i ==> is_ascii_letter(#[trigger] chars@[k]),
        decreases chars@.len() - i,
    {
        let c = chars[i];
        if !(('a' <= c && c <= 'z') || ('A' <= c && c <= 'Z')) {
            plain_letters = false;
        }
        i = i + 1;
    }
    if plain_letters {
        out.append(a);
    } else {
        push_char(out, '<');
        out.append(a);
        push_char(out, '>');
        proof {
            assert(exists|k: int| 0 <= k < abbr@.len() && !is_ascii_letter(#[trigger] abbr@[k]));
        }
    }
}

impl DstTransitionRule {
    /// Appends the text of this rule.
    fn display(&self, out: &mut String)
        requires
            self.wf(),
        ensures
            final(out)@ == old(out)@ + rule_text(*self),
    {
        match self {
            DstTransitionRule::JulianDay(d, offset) => {
                push_char(out, 'J');
                push_zero_padded(out, *d as i64, 0, false);
                push_char(out, '/');
                display_time(out, *offset);
            },
            DstTransitionRule::Day(d, offset) => {
                push_zero_padded(out, *d as i64, 0, false);
                push_char(out, '/');
                display_time(out, *offset);
            },
            DstTransitionRule::Calendar { month, n, weekday, offset } => {
                push_char(out, 'M');
                push_zero_padded(out, *month as i64, 0, false);
                push_char(out, '.');
                push_zero_padded(out, *n as i64, 0, false);
                push_char(out, '.');
                push_zero_padded(out, *weekday as i64, 0, false);
                push_char(out, '/');
                display_time(out, *offset);
            },
        }
        proof {
            assert(final(out)@ =~= old(out)@ + rule_text(*self));
        }
    }

    /// Returns the text of this rule, such as `M3.2.0/2`.
    pub fn to_string(&self) -> (r: String)
        requires
            self.wf(),
        ensures
            r@ == rule_text(*self),
    {
        let mut out = String::new();
        self.display(&mut out);
        proof {
            assert(out@ =~= rule_text(*self));
        }
        out
    }
}

/// The text of a POSIX time zone: its abbreviations and offsets, and its rules.
///
/// The offset of standard time is left out when there is no DST and it is zero, and
/// the DST offset when it is an hour ahead of standard time.
pub open spec fn posix_text(
    v: (Seq<char>, int, Option<(Seq<char>, int, DstTransitionRule, DstTransitionRule, int)>),
) -> Seq<char> {
    match v.2 {
        None => abbr_text(v.0) + if v.1 == 0 {
            Seq::empty()
        } else {
            offset_text(spec_offset_components(v.1))
        },
        Some(d) => abbr_text(v.0) + offset_text(spec_offset_components(v.1)) + abbr_text(d.0) + (if d.1
            == clamp_offset(v.1 + 3600) {
            Seq::empty()
        } else {
            offset_text(spec_offset_components(d.1))
        }) + seq![','] + rule_text(d.2) + seq![','] + rule_text(d.3),
    }
}

impl PosixTimeZone {
    /// Returns a rule string describing this time zone.
    ///
    /// This is not the string the time zone was parsed from: it is a representation of
    /// the same data.
    pub fn to_string(&self) -> (r: String)
        ensures
            r@ == posix_text(self@),
    {
        proof {
            use_type_invariant(self);
            use_type_invariant(&self.std_offset);
        }
        let mut out = String::new();
        display_abbr(&mut out, &self.std_abbr);
        match &self.dst {
            None => {
                if !self.std_offset.is_utc() {
                    display_offset(&mut out, &self.std_offset);
                }
            },
            Some(dst) => {
                proof {
                    use_type_invariant(&dst.offset);
                }
                display_offset(&mut out, &self.std_offset);
                display_abbr(&mut out, &dst.abbr);
                let default = self.std_offset.saturating_add(UtcOffset::from_seconds_unchecked(3600));
                proof {
                    use_type_invariant(&default);
                }
                if dst.offset.total_seconds() != default.total_seconds() {
                    display_offset(&mut out, &dst.offset);
                }
                push_char(&mut out, ',');
                dst.start.display(&mut out);
                push_char(&mut out, ',');
                dst.end.display(&mut out);
            },
        }
        proof {
            assert(out@ =~= posix_text(self@));
        }
        out
    }
}

impl From<DateTime> for NaiveTimestamp {
    /// The seconds of the local wall clock of a date time, ignoring its offset.
    fn from(dt: DateTime) -> (r: NaiveTimestamp) {
        NaiveTimestamp::new(dt.date(), dt.time())
    }
}

impl vstd::std_specs::convert::FromSpecImpl<DateTime> for NaiveTimestamp {
    open spec fn obeys_from_spec() -> bool {
        true
    }

    open spec fn from_spec(v: DateTime) -> NaiveTimestamp {
        NaiveTimestamp(spec_local_seconds(v@.0, v@.1) as i64)
    }
}

impl core::str::FromStr for PosixTimeZone {
    type Err = ParseError;

    /// Parses a rule string, as [`PosixTimeZone::new`] does.
    fn from_str(s: &str) -> (r: Result<PosixTimeZone, ParseError>)
        ensures
            r matches Ok(z) ==> spec_posix(s@) == Ok::<_, ParseError>(z@),
            r matches Err(e) ==> spec_posix(s@) == Err::<
                (Seq<char>, int, Option<(Seq<char>, int, DstTransitionRule, DstTransitionRule, int)>),
                ParseError,
            >(e),
    {
        PosixTimeZone::new(s)
    }
}

} // verus!
