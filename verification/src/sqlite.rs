//! Reading RFC 3339 date times, and the date time strings that SQLite stores.
//!
//! SQLite stores date times as RFC 3339 text whose offset may be left out, since it
//! keeps them in UTC; a missing offset therefore means UTC.
use vstd::prelude::*;
use vstd::string::StringSliceAdditionalSpecFns;

use crate::date::Date;
use crate::datetime::DateTime;
use crate::display::{abs, iso_date, lemma_zero_padded_2, sign_of, zero_padded};
use crate::fmt::{byte_at, spec_expect, spec_fixed_digits, spec_month, spec_time, spec_year, ParseError, Parser};
use crate::gregorian::is_valid_date;
use crate::formatter::rfc3339;
use crate::isoformat::{
    chars_of_codes, date_codes, fraction_codes, lemma_chars_of_codes_add, lemma_codes_bytes, lemma_date_chars,
    lemma_fraction_chars, lemma_read_date_codes, lemma_read_time_codes, lemma_read_two, lemma_time_chars, time_codes,
    two_codes, year_codes,
};
use crate::timezone::UtcOffset;

verus! {

/// The offset part that ends a date time string, at position `p`: `Z`, `+hh:mm`,
/// `-hh:mm` or, unless `required`, nothing, in seconds. Whatever follows it is ignored.
pub open spec fn spec_text_offset(s: Seq<u8>, p: int, required: bool) -> Result<int, ParseError> {
    match byte_at(s, p) {
        None => if required {
            Err(ParseError::UnexpectedEnd)
        } else {
            Ok(0)
        },
        Some(c) => if c == 90u8 {
            Ok(0)
        } else if c == 43u8 || c == 45u8 {
            let (rh, p1) = spec_fixed_digits(s, p + 1, 2);
            match rh {
                Err(e) => Err(e),
                Ok(h) => {
                    let (rc, p2) = spec_expect(s, p1, 58u8);
                    match rc {
                        Err(e) => Err(e),
                        Ok(_) => {
                            let (rm, _) = spec_fixed_digits(s, p2, 2);
                            match rm {
                                Err(e) => Err(e),
                                Ok(m) => if h > 23 || m > 59 {
                                    Err(ParseError::OutOfBounds)
                                } else if c == 45u8 {
                                    Ok(-(h * 3600 + m * 60))
                                } else {
                                    Ok(h * 3600 + m * 60)
                                },
                            }
                        },
                    }
                },
            }
        } else {
            Err(ParseError::UnexpectedChar(c as char))
        },
    }
}

/// The date, time and offset in seconds that a date time string names:
/// `YYYY-MM-DD`, a space or `T`, a time, and an offset that is optional unless
/// `required`.
pub open spec fn spec_date_time_text(s: Seq<u8>, required: bool) -> Result<
    ((int, int, int), (int, int, int, int), int),
    ParseError,
> {
    let (ry, p1) = spec_year(s, 0);
    let (r1, p2) = spec_expect(s, p1, 45u8);
    let (rm, p3) = spec_month(s, p2);
    let (r2, p4) = spec_expect(s, p3, 45u8);
    let (rd, p5) = spec_fixed_digits(s, p4, 2);
    if let Err(e) = ry {
        Err(e)
    } else if let Err(e) = r1 {
        Err(e)
    } else if let Err(e) = rm {
        Err(e)
    } else if let Err(e) = r2 {
        Err(e)
    } else if let Err(e) = rd {
        Err(e)
    } else {
        let date = (ry->Ok_0, rm->Ok_0, rd->Ok_0);
        if !is_valid_date(date.0, date.1, date.2) {
            Err(ParseError::OutOfBounds)
        } else {
            match byte_at(s, p5) {
                None => Err(ParseError::UnexpectedEnd),
                Some(c) => if c != 32u8 && c != 84u8 {
                    Err(ParseError::UnexpectedChar(c as char))
                } else {
                    let (rt, p6) = spec_time(s, p5 + 1);
                    match rt {
                        Err(e) => Err(e),
                        Ok(time) => match spec_text_offset(s, p6, required) {
                            Err(e) => Err(e),
                            Ok(offset) => Ok((date, time, offset)),
                        },
                    }
                },
            }
        }
    }
}

/// The date, time and offset in seconds that a date time string of SQLite names:
/// `YYYY-MM-DD`, a space or `T`, a time, and an optional offset.
pub open spec fn spec_sqlite3(s: Seq<u8>) -> Result<((int, int, int), (int, int, int, int), int), ParseError> {
    spec_date_time_text(s, false)
}

/// The date, time and offset in seconds that an RFC 3339 date time names:
/// `YYYY-MM-DD`, a space or `T`, a time, and an offset.
pub open spec fn spec_rfc3339_text(s: Seq<u8>) -> Result<((int, int, int), (int, int, int, int), int), ParseError> {
    spec_date_time_text(s, true)
}

/// Parses the offset that ends a date time string.
fn parse_text_offset(parser: &mut Parser, required: bool) -> (r: Result<UtcOffset, ParseError>)
    ensures
        match spec_text_offset(old(parser)@.0, old(parser)@.1, required) {
            Ok(o) => r matches Ok(off) && off.spec_total_seconds() == o,
            Err(e) => r == Err::<UtcOffset, ParseError>(e),
        },
{
    match parser.advance() {
        None => if required {
            Err(ParseError::UnexpectedEnd)
        } else {
            Ok(UtcOffset::utc())
        },
        Some(c) => {
            if c == 90u8 {
                Ok(UtcOffset::utc())
            } else if c == 43u8 || c == 45u8 {
                let hours = parser.parse_two_digits()?;
                parser.expect(58u8)?;
                let minutes = parser.parse_two_digits()?;
                if hours > 23 || minutes > 59 {
                    return Err(ParseError::OutOfBounds);
                }
                let seconds: i32 = hours as i32 * 3600 + minutes as i32 * 60;
                if c == 45u8 {
                    Ok(UtcOffset::from_seconds_unchecked(-seconds))
                } else {
                    Ok(UtcOffset::from_seconds_unchecked(seconds))
                }
            } else {
                Err(ParseError::UnexpectedChar(c as char))
            }
        },
    }
}

/// Parses a date, a space or `T`, a time and an offset that is optional unless
/// `required`.
fn parse_date_time_text(s: &str, required: bool) -> (r: Result<DateTime, ParseError>)
    ensures
        match spec_date_time_text(s.spec_bytes(), required) {
            Ok(v) => r matches Ok(dt) && dt@.0@ == v.0 && dt@.1@ == v.1 && dt@.2.spec_total_seconds() == v.2,
            Err(e) => r == Err::<DateTime, ParseError>(e),
        },
{
    let mut parser = Parser::new(s);
    let year = parser.parse_year()?;
    parser.expect(45u8)?;
    let month = parser.parse_month()?;
    parser.expect(45u8)?;
    let day = parser.parse_two_digits()?;
    let date = match Date::new(year, month, day) {
        Ok(d) => d,
        Err(_) => return Err(ParseError::OutOfBounds),
    };
    match parser.advance() {
        Some(c) => {
            if c != 32u8 && c != 84u8 {
                return Err(ParseError::UnexpectedChar(c as char));
            }
        },
        None => return Err(ParseError::UnexpectedEnd),
    }
    let time = parser.parse_time()?;
    let offset = parse_text_offset(&mut parser, required)?;
    Ok(DateTime::from_components(date, time, offset))
}

/// Parses a date time the way SQLite stores it: RFC 3339 with either a space or a `T`
/// between the date and the time, and an optional offset that defaults to UTC.
pub fn parse_sqlite3_format(s: &str) -> (r: Result<DateTime, ParseError>)
    ensures
        match spec_sqlite3(s.spec_bytes()) {
            Ok(v) => r matches Ok(dt) && dt@.0@ == v.0 && dt@.1@ == v.1 && dt@.2.spec_total_seconds() == v.2,
            Err(e) => r == Err::<DateTime, ParseError>(e),
        },
{
    parse_date_time_text(s, false)
}

impl DateTime {
    /// Parses an RFC 3339 date time such as `2022-06-21 09:34:01.789000-05:00` or
    /// `2022-06-21T14:34:01Z`: a date, a space or `T`, a time and an offset.
    pub fn from_rfc3339(s: &str) -> (r: Result<DateTime, ParseError>)
        ensures
            match spec_rfc3339_text(s.spec_bytes()) {
                Ok(v) => r matches Ok(dt) && dt@.0@ == v.0 && dt@.1@ == v.1 && dt@.2.spec_total_seconds() == v.2,
                Err(e) => r == Err::<DateTime, ParseError>(e),
            },
    {
        parse_date_time_text(s, true)
    }
}

/// The characters of an offset `±HH:MM` whose sign is that of its hours, each as its
/// distance from the digit zero (a plus five below it and a dash three below).
pub open spec fn offset_codes(h: int, m: int) -> Seq<int> {
    seq![
        if h < 0 {
            -3int
        } else {
            -5int
        },
    ] + two_codes(abs(h) as int) + seq![10int] + two_codes(abs(m) as int)
}

/// The seconds and microseconds that the RFC 3339 form writes for a time: a leap
/// second's extra billion nanoseconds become a second of 60.
pub open spec fn rfc3339_seconds(t: (int, int, int, int)) -> (int, int) {
    let us = t.3 / 1000;
    if us >= 1_000_000 {
        (t.2 + 1, us - 1_000_000)
    } else {
        (t.2, us)
    }
}

/// The characters of the RFC 3339 form of a date time, each as its distance from
/// the digit zero (a space being sixteen below it).
pub open spec fn rfc3339_codes(dt: DateTime) -> Seq<int> {
    let t = dt@.1@;
    let (s2, us2) = rfc3339_seconds(t);
    date_codes(dt@.0@) + seq![-16int] + time_codes(t.0, t.1, s2) + fraction_codes(us2) + offset_codes(
        dt@.2@.0,
        dt@.2@.1,
    )
}

/// An offset written `±HH:MM` is the characters of [`offset_codes`].
proof fn lemma_offset_chars(h: int, m: int)
    requires
        -99 <= h <= 99,
        -99 <= m <= 99,
    ensures
        zero_padded(h, 3, true) + seq![':'] + zero_padded(abs(m) as int, 2, false) == chars_of_codes(
            offset_codes(h, m),
        ),
{
    lemma_zero_padded_2(abs(h) as int);
    lemma_zero_padded_2(abs(m) as int);
    assert(zero_padded(h, 3, true) =~= sign_of(h, true) + zero_padded(abs(h) as int, 2, false));
    assert(zero_padded(h, 3, true) + seq![':'] + zero_padded(abs(m) as int, 2, false) =~= chars_of_codes(
        offset_codes(h, m),
    ));
}

/// The RFC 3339 form of a date time is the characters of [`rfc3339_codes`].
#[verifier::rlimit(40)]
proof fn lemma_rfc3339_chars(dt: DateTime)
    requires
        dt@.0.inv(),
        dt@.1.inv(),
        dt@.2.inv(),
        dt@.1@.3 >= 1_000_000_000 ==> dt@.1@.2 == 59,
        -23 <= dt@.2@.0 <= 23,
    ensures
        rfc3339(dt) == chars_of_codes(rfc3339_codes(dt)),
{
    let t = dt@.1@;
    let (s2, us2) = rfc3339_seconds(t);
    let (oh, om, _) = dt@.2@;
    crate::timezone::lemma_offset_minutes(dt@.2);
    let date = date_codes(dt@.0@);
    let time = time_codes(t.0, t.1, s2);
    let frac = fraction_codes(us2);
    let off = offset_codes(oh, om);
    let tt = zero_padded(t.0, 2, false) + seq![':'] + zero_padded(t.1, 2, false) + seq![':'] + zero_padded(s2, 2, false);
    let ff = if us2 != 0 {
        seq!['.'] + zero_padded(us2, 6, false)
    } else {
        Seq::empty()
    };
    let oo = zero_padded(oh, 3, true) + seq![':'] + zero_padded(abs(om) as int, 2, false);
    assert(rfc3339(dt) =~= iso_date(dt@.0@) + seq![' '] + tt + ff + oo);
    lemma_date_chars(dt@.0@);
    lemma_time_chars(t.0, t.1, s2);
    lemma_fraction_chars(us2);
    lemma_offset_chars(oh, om);
    lemma_chars_of_codes_add(date, seq![-16int]);
    lemma_chars_of_codes_add(date + seq![-16int], time);
    lemma_chars_of_codes_add(date + seq![-16int] + time, frac);
    lemma_chars_of_codes_add(date + seq![-16int] + time + frac, off);
    assert(chars_of_codes(seq![-16int]) =~= seq![' ']);
}

/// The bytes of an offset `±HH:MM` at position `q` read back as its seconds.
#[verifier::rlimit(30)]
proof fn lemma_read_offset_codes(bs: Seq<u8>, q: int, oh: int, om: int)
    requires
        0 <= q,
        -23 <= oh <= 23,
        -59 <= om <= 59,
        oh < 0 ==> om <= 0,
        oh >= 0 ==> om >= 0,
        q + 6 <= bs.len(),
        forall|i: int| 0 <= i < 6 ==> bs[q + i] == 48 + #[trigger] offset_codes(oh, om)[i],
    ensures
        spec_text_offset(bs, q, true) == Ok::<int, ParseError>(oh * 3600 + om * 60),
{
    let oc = offset_codes(oh, om);
    assert(bs[q] == 48 + oc[0] && bs[q + 1] == 48 + oc[1] && bs[q + 2] == 48 + oc[2]);
    assert(bs[q + 3] == 48 + oc[3] && bs[q + 4] == 48 + oc[4] && bs[q + 5] == 48 + oc[5]);
    lemma_read_two(bs, q + 1, abs(oh) as int);
    lemma_read_two(bs, q + 4, abs(om) as int);
    assert(spec_expect(bs, q + 3, 58u8) == (Ok::<int, ParseError>(58), q + 4));
}

/// The bytes of the RFC 3339 form of a date time: its date, a space, its time of
/// day, the fraction of its microseconds and its offset.
#[verifier::spinoff_prover]
#[verifier::rlimit(60)]
proof fn lemma_rfc3339_bytes(dt: DateTime)
    requires
        dt@.0.inv(),
        dt@.1.inv(),
        dt@.2.inv(),
        dt@.1@.3 >= 1_000_000_000 ==> dt@.1@.2 == 59,
        -23 <= dt@.2@.0 <= 23,
    ensures
        ({
            let bs = vstd::utf8::encode_utf8(rfc3339(dt));
            let t = dt@.1@;
            let dc = date_codes(dt@.0@);
            let tc = time_codes(t.0, t.1, rfc3339_seconds(t).0);
            let fc = fraction_codes(rfc3339_seconds(t).1);
            let oc = offset_codes(dt@.2@.0, dt@.2@.1);
            let dl = dc.len() as int;
            let q = dl + 9 + fc.len();
            &&& bs.len() == q + 6
            &&& forall|i: int| 0 <= i < dl ==> bs[i] == 48 + #[trigger] dc[i]
            &&& bs[dl] == 32
            &&& forall|i: int| 0 <= i < 8 ==> bs[dl + 1 + i] == 48 + #[trigger] tc[i]
            &&& forall|i: int| 0 <= i < fc.len() ==> bs[dl + 9 + i] == 48 + #[trigger] fc[i]
            &&& forall|i: int| 0 <= i < 6 ==> bs[q + i] == 48 + #[trigger] oc[i]
            &&& (bs[q] == 43 || bs[q] == 45)
        }),
{
    let d = dt@.0@;
    let t = dt@.1@;
    let (s2, us2) = rfc3339_seconds(t);
    let (oh, om, _) = dt@.2@;
    crate::timezone::lemma_offset_minutes(dt@.2);
    lemma_rfc3339_chars(dt);
    let dc = date_codes(d);
    let tc = time_codes(t.0, t.1, s2);
    let fc = fraction_codes(us2);
    let oc = offset_codes(oh, om);
    let codes = rfc3339_codes(dt);
    let dl = dc.len() as int;
    let q = dl + 9 + fc.len();
    assert(codes == dc + seq![-16int] + tc + fc + oc);
    assert(codes.len() == q + 6);
    assert forall|i: int| 0 <= i < codes.len() implies -48 <= #[trigger] codes[i] <= 79 by {
        if i < dl {
            assert(codes[i] == dc[i]);
            if i < year_codes(d.0).len() {
                assert(dc[i] == year_codes(d.0)[i]);
            }
        } else if i == dl {
        } else if i < dl + 9 {
            assert(codes[i] == tc[i - dl - 1]);
        } else if i < q {
            assert(codes[i] == fc[i - dl - 9]);
        } else {
            assert(codes[i] == oc[i - q]);
        }
    }
    lemma_codes_bytes(codes);
    let bs = vstd::utf8::encode_utf8(rfc3339(dt));
    assert forall|i: int| 0 <= i < dl implies bs[i] == 48 + #[trigger] dc[i] by {
        assert(codes[i] == dc[i]);
    }
    assert(codes[dl] == -16);
    assert forall|i: int| 0 <= i < 8 implies bs[dl + 1 + i] == 48 + #[trigger] tc[i] by {
        assert(codes[dl + 1 + i] == tc[i]);
    }
    assert forall|i: int| 0 <= i < fc.len() implies bs[dl + 9 + i] == 48 + #[trigger] fc[i] by {
        assert(codes[dl + 9 + i] == fc[i]);
    }
    assert forall|i: int| 0 <= i < 6 implies bs[q + i] == 48 + #[trigger] oc[i] by {
        assert(codes[q + i] == oc[i]);
    }
    assert(bs[q + 0] == 48 + oc[0]);
}

/// Writing a date time in RFC 3339 form and reading it back gives its date, its time
/// and its offset, for a time whose nanoseconds are whole microseconds, an offset of
/// whole minutes within a day whose sign its hours carry, and a year other than
/// -32768; a leap second's extra nanoseconds come back when they sit on second 59.
#[verifier::rlimit(40)]
pub proof fn lemma_rfc3339_roundtrip(dt: DateTime)
    requires
        dt@.0.inv(),
        dt@.1.inv(),
        dt@.2.inv(),
        dt@.0@.0 != i16::MIN,
        dt@.1@.3 % 1000 == 0,
        dt@.1@.3 >= 1_000_000_000 ==> dt@.1@.2 == 59,
        dt@.2@.2 == 0,
        -23 <= dt@.2@.0 <= 23,
        dt@.2@.0 != 0 || dt@.2@.1 >= 0,
    ensures
        spec_rfc3339_text(vstd::utf8::encode_utf8(rfc3339(dt))) == Ok::<
            ((int, int, int), (int, int, int, int), int),
            ParseError,
        >((dt@.0@, dt@.1@, dt@.2.spec_total_seconds())),
{
    let d = dt@.0@;
    let t = dt@.1@;
    let (s2, us2) = rfc3339_seconds(t);
    let (oh, om, _) = dt@.2@;
    crate::timezone::lemma_offset_minutes(dt@.2);
    lemma_rfc3339_bytes(dt);
    let bs = vstd::utf8::encode_utf8(rfc3339(dt));
    let dl = date_codes(d).len() as int;
    let q = dl + 9 + fraction_codes(us2).len();
    lemma_read_date_codes(bs, d);
    lemma_read_time_codes(bs, dl + 1, t.0, t.1, s2, us2);
    lemma_read_offset_codes(bs, q, oh, om);
}

} // verus!
