//! Text output: decimal numbers with padding, and the ISO 8601 forms of the
//! library's types.
use vstd::prelude::*;

use crate::date::{Date, IsoWeekDate};
use crate::datetime::DateTime;
use crate::interval::{interval_totals, Interval, MICROS_PER_HOUR, MICROS_PER_MIN, MICROS_PER_SEC};
use crate::isoformat::{IsoFormatPrecision, ToIsoFormat};
use crate::time::Time;
use crate::timezone::UtcOffset;
use crate::utils::{trunc_div, trunc_rem};
use vstd::string::StringSliceAdditionalSpecFns;

verus! {

/// Appends a character to the end of a string, as `String::push` does.
#[verifier::external_body]
pub(crate) fn push_char(s: &mut String, c: char)
    ensures
        final(s)@ == old(s)@.push(c),
{
    s.push(c);
}

/// The character of a decimal digit.
pub open spec fn digit_char(d: int) -> char {
    (48 + d) as char
}

/// The decimal digits of a natural number, with no leading zeros.
pub open spec fn decimal(n: nat) -> Seq<char>
    decreases n,
{
    if n < 10 {
        seq![digit_char(n as int)]
    } else {
        decimal(n / 10).push(digit_char((n % 10) as int))
    }
}

/// `k` copies of a character.
pub open spec fn repeat(c: char, k: int) -> Seq<char> {
    Seq::new(if k > 0 { k as nat } else { 0 }, |i: int| c)
}

/// The sign that goes before a number: `-` for a negative one, and `+` for any other
/// when `plus` asks for an explicit sign.
pub open spec fn sign_of(v: int, plus: bool) -> Seq<char> {
    if v < 0 {
        seq!['-']
    } else if plus {
        seq!['+']
    } else {
        Seq::empty()
    }
}

/// The absolute value of an integer.
pub open spec fn abs(v: int) -> nat {
    if v < 0 {
        (-v) as nat
    } else {
        v as nat
    }
}

/// A number padded with zeros after its sign to at least `width` characters, as
/// Rust's `{:0width$}` (or `{:+0width$}` when `plus`) writes it.
pub open spec fn zero_padded(v: int, width: int, plus: bool) -> Seq<char> {
    let sign = sign_of(v, plus);
    let digits = decimal(abs(v));
    sign + repeat('0', width - sign.len() - digits.len()) + digits
}

/// A number padded with spaces before it to at least `width` characters, as Rust's
/// `{:width$}` (or `{:+width$}` when `plus`) writes it.
pub open spec fn space_padded(v: int, width: int, plus: bool) -> Seq<char> {
    let text = sign_of(v, plus) + decimal(abs(v));
    repeat(' ', width - text.len()) + text
}

/// The decimal digits of a natural number have at least one character and at most
/// twenty for a number that fits in a `u64`.
proof fn lemma_decimal_len(n: nat)
    ensures
        1 <= decimal(n).len(),
        n < 10 ==> decimal(n).len() == 1,
        n <= u64::MAX ==> decimal(n).len() <= 20,
    decreases n,
{
    if n >= 10 {
        lemma_decimal_len(n / 10);
        if n <= u64::MAX {
            lemma_decimal_len_bound(n);
        }
    }
}

/// A number below `10^k` has at most `k` digits; here for the range of `u64`.
proof fn lemma_decimal_len_bound(n: nat)
    requires
        n <= u64::MAX,
    ensures
        decimal(n).len() <= 20,
    decreases n,
{
    assert(crate::fmt::pow10(20) == 100_000_000_000_000_000_000) by {
        reveal_with_fuel(crate::fmt::pow10, 21);
    }
    lemma_decimal_len_upto(n, 20);
}

/// A number below `10^k` has at most `k` digits.
proof fn lemma_decimal_len_upto(n: nat, k: nat)
    requires
        n < crate::fmt::pow10(k),
        k >= 1,
    ensures
        decimal(n).len() <= k,
    decreases k,
{
    if n >= 10 {
        assert(crate::fmt::pow10(k) == 10 * crate::fmt::pow10((k - 1) as nat));
        if k == 1 {
            assert(false);
        } else {
            lemma_decimal_len_upto(n / 10, (k - 1) as nat);
        }
    }
}

/// Returns the character of a decimal digit.
fn digit(d: u64) -> (r: char)
    requires
        d < 10,
    ensures
        r == digit_char(d as int),
{
    ((48 + d) as u8) as char
}

/// Appends the decimal digits of a number to a string.
pub(crate) fn push_decimal(out: &mut String, n: u64)
    ensures
        final(out)@ == old(out)@ + decimal(n as nat),
    decreases n,
{
    if n >= 10 {
        push_decimal(out, n / 10);
    }
    push_char(out, digit(n % 10));
    proof {
        if n >= 10 {
            assert(old(out)@ + decimal(n as nat) =~= (old(out)@ + decimal((n / 10) as nat)).push(
                digit_char((n % 10) as int),
            ));
        } else {
            assert(old(out)@ + decimal(n as nat) =~= old(out)@.push(digit_char(n as int)));
        }
    }
}

/// Returns how many decimal digits a number has.
fn decimal_len(n: u64) -> (r: usize)
    ensures
        r == decimal(n as nat).len(),
        1 <= r <= 20,
    decreases n,
{
    proof {
        lemma_decimal_len(n as nat);
    }
    if n < 10 {
        1
    } else {
        decimal_len(n / 10) + 1
    }
}

/// Appends `k` copies of a character to a string.
fn push_repeat(out: &mut String, c: char, k: i64)
    ensures
        final(out)@ == old(out)@ + repeat(c, k as int),
{
    let mut i: i64 = 0;
    while i < k
        invariant
            0 <= i,
            k > 0 ==> i <= k,
            k <= 0 ==> i == 0,
            out@ == old(out)@ + repeat(c, i as int),
        decreases k - i,
    {
        push_char(out, c);
        proof {
            assert(old(out)@ + repeat(c, i + 1) =~= (old(out)@ + repeat(c, i as int)).push(c));
        }
        i = i + 1;
    }
    proof {
        if k > 0 {
            assert(i == k);
        } else {
            assert(repeat(c, k as int) =~= repeat(c, i as int));
        }
    }
}

/// Appends a number padded with zeros after its sign to at least `width` characters.
pub(crate) fn push_zero_padded(out: &mut String, v: i64, width: i64, plus: bool)
    requires
        v > i64::MIN,
        0 <= width <= 100,
    ensures
        final(out)@ == old(out)@ + zero_padded(v as int, width as int, plus),
{
    let magnitude: u64 = if v < 0 {
        (-v) as u64
    } else {
        v as u64
    };
    let len = decimal_len(magnitude) as i64;
    let sign_len: i64 = if v < 0 || plus {
        1
    } else {
        0
    };
    if v < 0 {
        push_char(out, '-');
    } else if plus {
        push_char(out, '+');
    }
    let ghost mid = out@;
    push_repeat(out, '0', width - sign_len - len);
    push_decimal(out, magnitude);
    proof {
        let sign = sign_of(v as int, plus);
        assert(mid == old(out)@ + sign);
        assert(sign.len() == sign_len);
        assert(final(out)@ =~= old(out)@ + zero_padded(v as int, width as int, plus));
    }
}

/// Appends a number padded with spaces before it to at least `width` characters.
pub(crate) fn push_space_padded(out: &mut String, v: i64, width: i64, plus: bool)
    requires
        v > i64::MIN,
        0 <= width <= 100,
    ensures
        final(out)@ == old(out)@ + space_padded(v as int, width as int, plus),
{
    let magnitude: u64 = if v < 0 {
        (-v) as u64
    } else {
        v as u64
    };
    let len = decimal_len(magnitude) as i64;
    let sign_len: i64 = if v < 0 || plus {
        1
    } else {
        0
    };
    push_repeat(out, ' ', width - sign_len - len);
    let ghost mid = out@;
    if v < 0 {
        push_char(out, '-');
    } else if plus {
        push_char(out, '+');
    }
    push_decimal(out, magnitude);
    proof {
        assert(final(out)@ =~= old(out)@ + space_padded(v as int, width as int, plus));
    }
}

/// The ISO 8601 form of a date: `YYYY-MM-DD`, with a sign and at least five digits
/// for the years outside `0..=9999`.
pub open spec fn iso_date(d: (int, int, int)) -> Seq<char> {
    (if 0 <= d.0 <= 9999 {
        zero_padded(d.0, 4, false)
    } else {
        zero_padded(d.0, 5, true)
    }) + seq!['-'] + zero_padded(d.1, 2, false) + seq!['-'] + zero_padded(d.2, 2, false)
}

/// The ISO 8601 form of a time of day at a precision.
pub open spec fn iso_time(t: (int, int, int, int), precision: IsoFormatPrecision) -> Seq<char> {
    let hh = zero_padded(t.0, 2, false);
    let hm = hh + seq![':'] + zero_padded(t.1, 2, false);
    let hms = hm + seq![':'] + zero_padded(t.2, 2, false);
    match precision {
        IsoFormatPrecision::Hour => hh + seq![':', '0', '0'],
        IsoFormatPrecision::Minute => hm,
        IsoFormatPrecision::Second => hms,
        IsoFormatPrecision::Millisecond => hms + seq!['.'] + zero_padded(t.3 / 1_000_000, 3, false),
        IsoFormatPrecision::Microsecond => hms + seq!['.'] + zero_padded(t.3 / 1_000, 6, false),
        IsoFormatPrecision::Nanosecond => hms + seq!['.'] + zero_padded(t.3, 9, false),
    }
}

/// The precision at which a time of day is written by default: to the second, or to
/// the microsecond when it has a fraction of a second.
pub open spec fn default_time_precision(t: (int, int, int, int)) -> IsoFormatPrecision {
    if t.3 != 0 {
        IsoFormatPrecision::Microsecond
    } else {
        IsoFormatPrecision::Second
    }
}

/// The ISO 8601 form of an offset from UTC: `±HH:MM`, followed by `:SS` when it has seconds.
pub open spec fn iso_offset(o: (int, int, int)) -> Seq<char> {
    zero_padded(o.0, 3, true) + seq![':'] + zero_padded(abs(o.1) as int, 2, false) + if abs(o.2) > 0 {
        seq![':'] + zero_padded(abs(o.2) as int, 2, false)
    } else {
        Seq::empty()
    }
}

/// Appends the ISO 8601 form of a date.
pub(crate) fn push_iso_date(out: &mut String, date: &Date)
    ensures
        final(out)@ == old(out)@ + iso_date(date@),
{
    date.in_range();
    let year = date.year();
    if year >= 0 && year <= 9999 {
        push_zero_padded(out, year as i64, 4, false);
    } else {
        push_zero_padded(out, year as i64, 5, true);
    }
    push_char(out, '-');
    push_zero_padded(out, date.month() as i64, 2, false);
    push_char(out, '-');
    push_zero_padded(out, date.day() as i64, 2, false);
    proof {
        assert(final(out)@ =~= old(out)@ + iso_date(date@));
    }
}

/// Appends the ISO 8601 form of a time of day at a precision.
pub(crate) fn push_iso_time(out: &mut String, time: &Time, precision: IsoFormatPrecision)
    ensures
        final(out)@ == old(out)@ + iso_time(time@, precision),
{
    push_zero_padded(out, time.hour() as i64, 2, false);
    if let IsoFormatPrecision::Hour = precision {
        push_char(out, ':');
        push_char(out, '0');
        push_char(out, '0');
        proof {
            assert(final(out)@ =~= old(out)@ + iso_time(time@, precision));
        }
        return ;
    }
    push_char(out, ':');
    push_zero_padded(out, time.minute() as i64, 2, false);
    if let IsoFormatPrecision::Minute = precision {
        proof {
            assert(final(out)@ =~= old(out)@ + iso_time(time@, precision));
        }
        return ;
    }
    push_char(out, ':');
    push_zero_padded(out, time.second() as i64, 2, false);
    match precision {
        IsoFormatPrecision::Millisecond => {
            push_char(out, '.');
            push_zero_padded(out, time.millisecond() as i64, 3, false);
        },
        IsoFormatPrecision::Microsecond => {
            push_char(out, '.');
            push_zero_padded(out, time.microsecond() as i64, 6, false);
        },
        IsoFormatPrecision::Nanosecond => {
            push_char(out, '.');
            push_zero_padded(out, time.nanosecond() as i64, 9, false);
        },
        _ => {},
    }
    proof {
        assert(final(out)@ =~= old(out)@ + iso_time(time@, precision));
    }
}

/// Appends the ISO 8601 form of an offset from UTC.
pub(crate) fn push_iso_offset(out: &mut String, offset: &UtcOffset)
    ensures
        final(out)@ == old(out)@ + iso_offset(offset@),
{
    let (h, m, s) = offset.into_hms();
    let m: i64 = if m < 0 {
        -(m as i64)
    } else {
        m as i64
    };
    let s: i64 = if s < 0 {
        -(s as i64)
    } else {
        s as i64
    };
    push_zero_padded(out, h as i64, 3, true);
    push_char(out, ':');
    push_zero_padded(out, m, 2, false);
    if s > 0 {
        push_char(out, ':');
        push_zero_padded(out, s, 2, false);
    }
    proof {
        assert(final(out)@ =~= old(out)@ + iso_offset(offset@));
    }
}

impl ToIsoFormat for Date {
    /// The precision is not used for dates.
    fn to_iso_format_with_precision(&self, precision: IsoFormatPrecision) -> (r: String)
        ensures
            r@ == iso_date(self@),
    {
        self.to_iso_format()
    }

    /// Converts to `YYYY-MM-DD`, with a sign and at least five digits for the years
    /// outside `0..=9999`.
    fn to_iso_format(&self) -> (r: String)
        ensures
            r@ == iso_date(self@),
    {
        let mut out = String::new();
        push_iso_date(&mut out, self);
        out
    }
}

impl ToIsoFormat for Time {
    fn to_iso_format_with_precision(&self, precision: IsoFormatPrecision) -> (r: String)
        ensures
            r@ == iso_time(self@, precision),
    {
        let mut out = String::new();
        push_iso_time(&mut out, self, precision);
        out
    }

    /// Converts to `HH:MM:SS`, or `HH:MM:SS.ffffff` when the time has a fraction of a second.
    fn to_iso_format(&self) -> (r: String)
        ensures
            r@ == iso_time(self@, default_time_precision(self@)),
    {
        if self.nanosecond() != 0 {
            self.to_iso_format_with_precision(IsoFormatPrecision::Microsecond)
        } else {
            self.to_iso_format_with_precision(IsoFormatPrecision::Second)
        }
    }
}

impl ToIsoFormat for UtcOffset {
    /// The precision is not used for offsets.
    fn to_iso_format_with_precision(&self, precision: IsoFormatPrecision) -> (r: String)
        ensures
            r@ == iso_offset(self@),
    {
        self.to_iso_format()
    }

    /// Converts to `±HH:MM`, followed by `:SS` when the offset has seconds.
    fn to_iso_format(&self) -> (r: String)
        ensures
            r@ == iso_offset(self@),
    {
        let mut out = String::new();
        push_iso_offset(&mut out, self);
        out
    }
}

impl ToIsoFormat for DateTime {
    fn to_iso_format_with_precision(&self, precision: IsoFormatPrecision) -> (r: String)
        ensures
            r@ == iso_date(self@.0@) + seq!['T'] + iso_time(self@.1@, precision) + iso_offset(self@.2@),
    {
        let mut out = String::new();
        push_iso_date(&mut out, self.date());
        push_char(&mut out, 'T');
        push_iso_time(&mut out, self.time(), precision);
        push_iso_offset(&mut out, self.timezone());
        out
    }

    /// Converts to the date, a `T`, the time and the offset.
    fn to_iso_format(&self) -> (r: String)
        ensures
            r@ == iso_date(self@.0@) + seq!['T'] + iso_time(self@.1@, default_time_precision(self@.1@))
                + iso_offset(self@.2@),
    {
        if self.nanosecond() != 0 {
            self.to_iso_format_with_precision(IsoFormatPrecision::Microsecond)
        } else {
            self.to_iso_format_with_precision(IsoFormatPrecision::Second)
        }
    }
}

/// The ISO 8601 form of a week date: `YYYY-Www-D`.
pub open spec fn iso_week_date(w: (int, int, int)) -> Seq<char> {
    zero_padded(w.0, 4, false) + seq!['-', 'W'] + zero_padded(w.1, 2, false) + seq!['-'] + decimal(
        w.2 as nat,
    )
}

impl ToIsoFormat for IsoWeekDate {
    /// The precision is not used for week dates.
    fn to_iso_format_with_precision(&self, precision: IsoFormatPrecision) -> (r: String)
        ensures
            r@ == iso_week_date((self@.0, self@.1, self@.2.spec_number_from_monday())),
    {
        self.to_iso_format()
    }

    /// Converts to `YYYY-Www-D`, where `D` is the weekday number with Monday as 1.
    fn to_iso_format(&self) -> (r: String)
        ensures
            r@ == iso_week_date((self@.0, self@.1, self@.2.spec_number_from_monday())),
    {
        let mut out = String::new();
        push_zero_padded(&mut out, self.year() as i64, 4, false);
        push_char(&mut out, '-');
        push_char(&mut out, 'W');
        push_zero_padded(&mut out, self.week() as i64, 2, false);
        push_char(&mut out, '-');
        push_decimal(&mut out, self.weekday().number_from_monday() as u64);
        proof {
            assert(out@ =~= iso_week_date((self@.0, self@.1, self@.2.spec_number_from_monday())));
        }
        out
    }
}

/// The digits of a fraction `f` written with `width` digits, without its trailing zeros.
pub open spec fn fraction_digits(f: nat, width: nat) -> Seq<char>
    decreases width,
{
    if width > 1 && f % 10 == 0 {
        fraction_digits(f / 10, (width - 1) as nat)
    } else {
        zero_padded(f as int, width as int, false)
    }
}

/// A number of microseconds written as seconds with a decimal fraction, as Rust
/// writes the `f64` value `micros / 1e6`: the sign, the whole seconds, and the
/// fraction without trailing zeros (with no point when the fraction is zero).
pub open spec fn seconds_with_fraction(micros: int) -> Seq<char> {
    let a = abs(micros);
    let text = decimal(a / 1_000_000) + if a % 1_000_000 == 0 {
        Seq::empty()
    } else {
        seq!['.'] + fraction_digits(a % 1_000_000, 6)
    };
    if micros < 0 {
        seq!['-'] + text
    } else {
        text
    }
}

/// A number followed by a unit letter when it is not zero, and nothing otherwise.
pub open spec fn unit_part(v: int, unit: char) -> Seq<char> {
    if v != 0 {
        zero_padded(v, 0, false).push(unit)
    } else {
        Seq::empty()
    }
}

/// The ISO 8601 form of an interval written in `years`, `months`, `days`, `hours`,
/// `minutes` and microseconds, as `PnYnMnDTnHnMnS` with each unit as written, zero
/// units left out and negative units written with their sign, the seconds with their
/// fraction; `PT0S` for an interval whose totals are zero.
pub open spec fn iso_interval(w: (int, int, int, int, int, int)) -> Seq<char> {
    let t = interval_totals(w);
    if t.0 == 0 && t.1 == 0 && t.2 == 0 {
        seq!['P', 'T', '0', 'S']
    } else {
        seq!['P'] + unit_part(w.0, 'Y') + unit_part(w.1, 'M') + unit_part(w.2, 'D') + (if w.3 != 0 || w.4 != 0
            || w.5 != 0 {
            seq!['T']
        } else {
            Seq::empty()
        }) + unit_part(w.3, 'H') + unit_part(w.4, 'M') + if w.5 != 0 {
            seconds_with_fraction(w.5).push('S')
        } else {
            Seq::empty()
        }
    }
}

/// Appends a number followed by a unit letter when it is not zero.
fn push_unit_part(out: &mut String, v: i64, unit: char)
    ensures
        final(out)@ == old(out)@ + unit_part(v as int, unit),
{
    if v != 0 {
        if v < 0 {
            push_char(out, '-');
        }
        let magnitude: u64 = if v < 0 {
            (-(v as i128)) as u64
        } else {
            v as u64
        };
        push_decimal(out, magnitude);
        push_char(out, unit);
    }
    proof {
        assert(final(out)@ =~= old(out)@ + unit_part(v as int, unit));
    }
}

/// Appends the digits of a fraction without its trailing zeros.
fn push_fraction_digits(out: &mut String, f: u64, width: u64)
    requires
        1 <= width <= 9,
        f < 1_000_000_000,
    ensures
        final(out)@ == old(out)@ + fraction_digits(f as nat, width as nat),
    decreases width,
{
    if width > 1 && f % 10 == 0 {
        push_fraction_digits(out, f / 10, width - 1);
    } else {
        push_zero_padded(out, f as i64, width as i64, false);
    }
}

/// Appends a number of microseconds written as seconds with a decimal fraction.
fn push_seconds_with_fraction(out: &mut String, micros: i64)
    ensures
        final(out)@ == old(out)@ + seconds_with_fraction(micros as int),
{
    let a: u64 = if micros < 0 {
        (-(micros as i128)) as u64
    } else {
        micros as u64
    };
    if micros < 0 {
        push_char(out, '-');
    }
    let ghost mid = out@;
    push_decimal(out, a / 1_000_000);
    if a % 1_000_000 != 0 {
        push_char(out, '.');
        push_fraction_digits(out, a % 1_000_000, 6);
    }
    proof {
        assert(final(out)@ =~= old(out)@ + seconds_with_fraction(micros as int));
    }
}

impl ToIsoFormat for Interval {
    /// The precision is not used for intervals.
    fn to_iso_format_with_precision(&self, precision: IsoFormatPrecision) -> (r: String)
        ensures
            r@ == iso_interval(self.written()),
    {
        self.to_iso_format()
    }

    /// Converts to an ISO-8601 format string such as `PnYnMnDTnHnMnS` where `Y`, `M`, `D`,`H`
    /// and `S` represent units. Unlike the ISO-8601 format, this outputs negative values if the
    /// corresponding unit is negative, and each unit as it was given.
    fn to_iso_format(&self) -> (r: String)
        ensures
            r@ == iso_interval(self.written()),
    {
        let mut out = String::new();
        let (years, months, days, hours, minutes, micros) = self.units();
        if self.total_months() == 0 && days == 0 && self.total_microseconds() == 0 {
            push_char(&mut out, 'P');
            push_char(&mut out, 'T');
            push_char(&mut out, '0');
            push_char(&mut out, 'S');
            proof {
                assert(out@ =~= iso_interval(self.written()));
            }
            return out;
        }
        push_char(&mut out, 'P');
        push_unit_part(&mut out, years as i64, 'Y');
        push_unit_part(&mut out, months as i64, 'M');
        push_unit_part(&mut out, days as i64, 'D');
        if hours != 0 || minutes != 0 || micros != 0 {
            push_char(&mut out, 'T');
        }
        push_unit_part(&mut out, hours, 'H');
        push_unit_part(&mut out, minutes, 'M');
        if micros != 0 {
            push_seconds_with_fraction(&mut out, micros);
            push_char(&mut out, 'S');
        }
        proof {
            assert(out@ =~= iso_interval(self.written()));
        }
        out
    }
}

/// Whole seconds followed by a fraction of nanoseconds without its trailing zeros,
/// with no point when the fraction is zero.
pub open spec fn seconds_with_nanos(secs: nat, nanos: nat) -> Seq<char> {
    decimal(secs) + if nanos == 0 {
        Seq::empty()
    } else {
        seq!['.'] + fraction_digits(nanos, 9)
    }
}

/// The ISO 8601 form `PTnHnMnS` of a duration of whole seconds and nanoseconds. Below a
/// minute only the seconds are written; otherwise each unit that is zero is left out.
pub open spec fn iso_duration(secs: nat, nanos: nat) -> Seq<char> {
    if secs < 60 {
        seq!['P', 'T'] + seconds_with_nanos(secs, nanos) + seq!['S']
    } else {
        let hours = secs / 3600;
        let minutes = secs % 3600 / 60;
        let seconds = secs % 60;
        seq!['P', 'T'] + (if hours > 0 {
            decimal(hours).push('H')
        } else {
            Seq::empty()
        }) + (if minutes > 0 {
            decimal(minutes).push('M')
        } else {
            Seq::empty()
        }) + if seconds > 0 || nanos > 0 {
            seconds_with_nanos(seconds, nanos).push('S')
        } else {
            Seq::empty()
        }
    }
}

/// Appends whole seconds followed by a fraction of nanoseconds.
fn push_seconds_with_nanos(out: &mut String, secs: u64, nanos: u32)
    requires
        nanos < 1_000_000_000,
    ensures
        final(out)@ == old(out)@ + seconds_with_nanos(secs as nat, nanos as nat),
{
    push_decimal(out, secs);
    if nanos != 0 {
        push_char(out, '.');
        push_fraction_digits(out, nanos as u64, 9);
    }
    proof {
        assert(final(out)@ =~= old(out)@ + seconds_with_nanos(secs as nat, nanos as nat));
    }
}

/// Converts a duration of whole seconds and nanoseconds to the ISO 8601 form `PTnHnMnS`.
pub fn duration_to_iso_format(secs: u64, nanos: u32) -> (r: String)
    requires
        nanos < 1_000_000_000,
    ensures
        r@ == iso_duration(secs as nat, nanos as nat),
{
    let mut out = String::new();
    push_char(&mut out, 'P');
    push_char(&mut out, 'T');
    if secs < 60 {
        push_seconds_with_nanos(&mut out, secs, nanos);
        push_char(&mut out, 'S');
    } else {
        let hours = secs / 3600;
        let minutes = secs % 3600 / 60;
        let seconds = secs % 60;
        if hours > 0 {
            push_decimal(&mut out, hours);
            push_char(&mut out, 'H');
        }
        if minutes > 0 {
            push_decimal(&mut out, minutes);
            push_char(&mut out, 'M');
        }
        if seconds > 0 || nanos > 0 {
            push_seconds_with_nanos(&mut out, seconds, nanos);
            push_char(&mut out, 'S');
        }
    }
    proof {
        assert(out@ =~= iso_duration(secs as nat, nanos as nat));
    }
    out
}

/// The whole seconds of a duration, as `Duration::as_secs` returns them.
pub uninterp spec fn duration_secs(d: core::time::Duration) -> u64;

/// The nanoseconds past the whole seconds of a duration, as `Duration::subsec_nanos`
/// returns them.
pub uninterp spec fn duration_subsec_nanos(d: core::time::Duration) -> u32;

/// Returns the whole seconds of a duration with `Duration::as_secs`.
///
/// The contract names the result; nothing more of it is stated.
#[verifier::external_body]
pub(crate) fn duration_as_secs(d: &core::time::Duration) -> (r: u64)
    ensures
        r == duration_secs(*d),
{
    d.as_secs()
}

/// Returns the nanoseconds past the whole seconds of a duration with
/// `Duration::subsec_nanos`, which the documentation bounds below one second.
#[verifier::external_body]
pub(crate) fn duration_nanos(d: &core::time::Duration) -> (r: u32)
    ensures
        r == duration_subsec_nanos(*d),
        r < 1_000_000_000,
{
    d.subsec_nanos()
}

/// Creates a duration with `Duration::new`, which does not panic when the nanoseconds
/// stay below a second. The documentation promises that the new duration has the
/// given whole seconds and nanoseconds.
#[verifier::external_body]
pub(crate) fn duration_new(secs: u64, nanos: u32) -> (r: core::time::Duration)
    requires
        nanos < 1_000_000_000,
    ensures
        duration_secs(r) == secs,
        duration_subsec_nanos(r) == nanos,
{
    core::time::Duration::new(secs, nanos)
}

impl ToIsoFormat for core::time::Duration {
    /// The precision is not used for durations.
    fn to_iso_format_with_precision(&self, precision: IsoFormatPrecision) -> (r: String)
        ensures
            r@ == iso_duration(duration_secs(*self) as nat, duration_subsec_nanos(*self) as nat),
    {
        self.to_iso_format()
    }

    /// Converts to the ISO 8601 form `PTnHnMnS`.
    fn to_iso_format(&self) -> (r: String)
        ensures
            r@ == iso_duration(duration_secs(*self) as nat, duration_subsec_nanos(*self) as nat),
    {
        duration_to_iso_format(duration_as_secs(self), duration_nanos(self))
    }
}

impl crate::isoformat::FromIsoFormat for core::time::Duration {
    /// Parses an ISO-8601 formatted string `PTnHnMn.nS` to a duration; see
    /// [`crate::isoformat::duration_from_iso_format`].
    fn from_iso_format(s: &str) -> (r: Result<core::time::Duration, crate::fmt::ParseError>)
        ensures
            match crate::isoformat::spec_duration_iso(s.spec_bytes()) {
                Ok(v) => r matches Ok(d) && duration_secs(d) == v.0 && duration_subsec_nanos(d) == v.1,
                Err(e) => r == Err::<core::time::Duration, crate::fmt::ParseError>(e),
            },
    {
        let (secs, nanos) = crate::isoformat::duration_from_iso_format(s)?;
        Ok(duration_new(secs, nanos))
    }
}

impl TryFrom<core::time::Duration> for crate::interval::Interval {
    type Error = crate::error::Error;

    /// Attempts to convert a duration into an interval of days and microseconds.
    ///
    /// An interval cannot assume that a month is a set number of days, so the duration
    /// only fills its days and microseconds. If the days do not fit then
    /// [`crate::error::Error::OutOfRange`] is returned.
    fn try_from(value: core::time::Duration) -> (r: Result<crate::interval::Interval, crate::error::Error>) {
        let secs = duration_as_secs(&value);
        let nanos = duration_nanos(&value);
        let r = crate::interval::Interval::try_from_duration(secs, nanos / 1000);
        proof {
            if let Ok(i) = r {
                let w = crate::interval::normalized_units(0, (secs / 86400) as int, (secs % 86400) * 1_000_000 + nanos / 1000);
                crate::interval::lemma_normalized_units(0, (secs / 86400) as int, (secs % 86400) * 1_000_000 + nanos / 1000);
                crate::interval::lemma_interval_of_units(w);
                crate::interval::lemma_interval_view_eq(i, crate::interval::interval_of_units(w));
            }
        }
        r
    }
}

impl vstd::std_specs::convert::TryFromSpecImpl<core::time::Duration> for crate::interval::Interval {
    open spec fn obeys_try_from_spec() -> bool {
        true
    }

    open spec fn try_from_spec(v: core::time::Duration) -> Result<crate::interval::Interval, crate::error::Error> {
        let secs = duration_secs(v);
        let micros = duration_subsec_nanos(v) / 1000;
        if secs / 86400 <= i32::MAX {
            Ok(
                crate::interval::interval_of_units(
                    crate::interval::normalized_units(0, (secs / 86400) as int, (secs % 86400) * 1_000_000 + micros),
                ),
            )
        } else {
            Err(crate::error::Error::OutOfRange)
        }
    }
}

/// A number below a hundred, padded with zeros to two digits, is its two digits.
pub proof fn lemma_zero_padded_2(v: int)
    requires
        0 <= v <= 99,
    ensures
        zero_padded(v, 2, false) == seq![digit_char(v / 10), digit_char(v % 10)],
{
    reveal_with_fuel(decimal, 3);
    if v < 10 {
        assert(zero_padded(v, 2, false) =~= seq![digit_char(0), digit_char(v)]);
    } else {
        assert(decimal(v as nat) =~= seq![digit_char(v / 10), digit_char(v % 10)]);
        assert(zero_padded(v, 2, false) =~= seq![digit_char(v / 10), digit_char(v % 10)]);
    }
}

/// A number between -99 and 99, padded with zeros to three characters with its sign
/// always written, is its sign and two digits.
pub proof fn lemma_signed_zero_padded_3(v: int)
    requires
        -99 <= v <= 99,
    ensures
        zero_padded(v, 3, true) == seq![
            if v < 0 { '-' } else { '+' },
            digit_char(abs(v) as int / 10),
            digit_char(abs(v) as int % 10),
        ],
{
    reveal_with_fuel(decimal, 3);
    let a = abs(v) as int;
    let expected = seq![if v < 0 { '-' } else { '+' }, digit_char(a / 10), digit_char(a % 10)];
    if a < 10 {
        assert(zero_padded(v, 3, true) =~= expected);
    } else {
        assert(decimal(a as nat) =~= seq![digit_char(a / 10), digit_char(a % 10)]);
        assert(zero_padded(v, 3, true) =~= expected);
    }
}

/// A number below ten thousand, padded with zeros to four digits, is its four digits.
pub proof fn lemma_zero_padded_4(v: int)
    requires
        0 <= v <= 9999,
    ensures
        zero_padded(v, 4, false) == seq![
            digit_char(v / 1000),
            digit_char(v / 100 % 10),
            digit_char(v / 10 % 10),
            digit_char(v % 10),
        ],
{
    reveal_with_fuel(decimal, 5);
    let expected = seq![
        digit_char(v / 1000),
        digit_char(v / 100 % 10),
        digit_char(v / 10 % 10),
        digit_char(v % 10),
    ];
    if v < 10 {
        assert(zero_padded(v, 4, false) =~= expected);
    } else if v < 100 {
        assert(decimal(v as nat) =~= seq![digit_char(v / 10), digit_char(v % 10)]);
        assert(zero_padded(v, 4, false) =~= expected);
    } else if v < 1000 {
        assert(decimal((v / 10) as nat) =~= seq![digit_char(v / 100), digit_char(v / 10 % 10)]);
        assert(decimal(v as nat) =~= seq![digit_char(v / 100), digit_char(v / 10 % 10), digit_char(v % 10)]);
        assert(zero_padded(v, 4, false) =~= expected);
    } else {
        assert(decimal((v / 100) as nat) =~= seq![digit_char(v / 1000), digit_char(v / 100 % 10)]);
        assert(decimal((v / 10) as nat) =~= seq![
            digit_char(v / 1000),
            digit_char(v / 100 % 10),
            digit_char(v / 10 % 10),
        ]);
        assert(decimal(v as nat) =~= expected);
        assert(zero_padded(v, 4, false) =~= expected);
    }
}

/// A number of five digits is written with its five digits.
pub proof fn lemma_decimal_5(v: int)
    requires
        10000 <= v <= 99999,
    ensures
        decimal(v as nat) == seq![
            digit_char(v / 10000),
            digit_char(v / 1000 % 10),
            digit_char(v / 100 % 10),
            digit_char(v / 10 % 10),
            digit_char(v % 10),
        ],
{
    reveal_with_fuel(decimal, 6);
    assert(decimal((v / 1000) as nat) =~= seq![digit_char(v / 10000), digit_char(v / 1000 % 10)]);
    assert(decimal((v / 100) as nat) =~= seq![
        digit_char(v / 10000),
        digit_char(v / 1000 % 10),
        digit_char(v / 100 % 10),
    ]);
    assert(decimal((v / 10) as nat) =~= seq![
        digit_char(v / 10000),
        digit_char(v / 1000 % 10),
        digit_char(v / 100 % 10),
        digit_char(v / 10 % 10),
    ]);
    assert(decimal(v as nat) =~= seq![
        digit_char(v / 10000),
        digit_char(v / 1000 % 10),
        digit_char(v / 100 % 10),
        digit_char(v / 10 % 10),
        digit_char(v % 10),
    ]);
}

/// A number below a million, padded with zeros to six digits, is its six digits.
pub proof fn lemma_zero_padded_6(v: int)
    requires
        0 <= v <= 999_999,
    ensures
        zero_padded(v, 6, false) == seq![
            digit_char(v / 100000),
            digit_char(v / 10000 % 10),
            digit_char(v / 1000 % 10),
            digit_char(v / 100 % 10),
            digit_char(v / 10 % 10),
            digit_char(v % 10),
        ],
{
    let expected = seq![
        digit_char(v / 100000),
        digit_char(v / 10000 % 10),
        digit_char(v / 1000 % 10),
        digit_char(v / 100 % 10),
        digit_char(v / 10 % 10),
        digit_char(v % 10),
    ];
    if v < 10000 {
        lemma_zero_padded_4(v);
        assert(decimal(v as nat).len() <= 4) by {
            assert(crate::fmt::pow10(4) == 10000) by {
                reveal_with_fuel(crate::fmt::pow10, 5);
            }
            lemma_decimal_len_upto(v as nat, 4);
        }
        lemma_decimal_len(v as nat);
        assert(zero_padded(v, 4, false) == repeat('0', 4 - decimal(v as nat).len()) + decimal(v as nat));
        assert(zero_padded(v, 6, false) =~= seq!['0', '0'] + zero_padded(v, 4, false));
        assert(zero_padded(v, 6, false) =~= expected);
    } else if v < 100000 {
        lemma_decimal_5(v);
        assert(zero_padded(v, 6, false) =~= expected);
    } else {
        lemma_decimal_5(v / 10);
        reveal_with_fuel(decimal, 2);
        assert(decimal(v as nat) == decimal((v / 10) as nat).push(digit_char(v % 10)));
        assert(decimal(v as nat) =~= expected);
        assert(zero_padded(v, 6, false) =~= expected);
    }
}

} // verus!
