//! Formatting of dates and times with format specifications.
use vstd::prelude::*;
use vstd::string::StringExecFns;

use crate::date::{spec_iso_week_of, weekday_from_sunday_index, Date, Weekday};
use crate::datetime::DateTime;
use crate::display::{
    abs, decimal, digit_char, iso_date, iso_offset, push_char, push_iso_date, push_iso_offset, push_space_padded, push_zero_padded, space_padded, zero_padded,
};
use crate::fmt::{FormatSpec, FormatSpecKind, FormatSpecPadding};
use crate::gregorian::{spec_days_before_month, spec_weekday_from_days};
use crate::time::Time;
use crate::timezone::UtcOffset;

verus! {

/// The abbreviated English name of a weekday.
pub open spec fn abbreviated_weekday_name(w: Weekday) -> Seq<char> {
    match w {
        Weekday::Monday => seq!['M', 'o', 'n'],
        Weekday::Tuesday => seq!['T', 'u', 'e'],
        Weekday::Wednesday => seq!['W', 'e', 'd'],
        Weekday::Thursday => seq!['T', 'h', 'u'],
        Weekday::Friday => seq!['F', 'r', 'i'],
        Weekday::Saturday => seq!['S', 'a', 't'],
        Weekday::Sunday => seq!['S', 'u', 'n'],
    }
}

/// The full English name of a weekday.
pub open spec fn full_weekday_name(w: Weekday) -> Seq<char> {
    match w {
        Weekday::Monday => seq!['M', 'o', 'n', 'd', 'a', 'y'],
        Weekday::Tuesday => seq!['T', 'u', 'e', 's', 'd', 'a', 'y'],
        Weekday::Wednesday => seq!['W', 'e', 'd', 'n', 'e', 's', 'd', 'a', 'y'],
        Weekday::Thursday => seq!['T', 'h', 'u', 'r', 's', 'd', 'a', 'y'],
        Weekday::Friday => seq!['F', 'r', 'i', 'd', 'a', 'y'],
        Weekday::Saturday => seq!['S', 'a', 't', 'u', 'r', 'd', 'a', 'y'],
        Weekday::Sunday => seq!['S', 'u', 'n', 'd', 'a', 'y'],
    }
}

/// The abbreviated English name of a month.
pub open spec fn abbreviated_month_name(m: int) -> Seq<char> {
    if m == 1 {
        seq!['J', 'a', 'n']
    }     else if m == 2 {
        seq!['F', 'e', 'b']
    }     else if m == 3 {
        seq!['M', 'a', 'r']
    }     else if m == 4 {
        seq!['A', 'p', 'r']
    }     else if m == 5 {
        seq!['M', 'a', 'y']
    }     else if m == 6 {
        seq!['J', 'u', 'n']
    }     else if m == 7 {
        seq!['J', 'u', 'l']
    }     else if m == 8 {
        seq!['A', 'u', 'g']
    }     else if m == 9 {
        seq!['S', 'e', 'p']
    }     else if m == 10 {
        seq!['O', 'c', 't']
    }     else if m == 11 {
        seq!['N', 'o', 'v']
    }     else if m == 12 {
        seq!['D', 'e', 'c']
    } else {
        Seq::empty()
    }
}

/// The full English name of a month.
pub open spec fn full_month_name(m: int) -> Seq<char> {
    if m == 1 {
        seq!['J', 'a', 'n', 'u', 'a', 'r', 'y']
    }     else if m == 2 {
        seq!['F', 'e', 'b', 'r', 'u', 'a', 'r', 'y']
    }     else if m == 3 {
        seq!['M', 'a', 'r', 'c', 'h']
    }     else if m == 4 {
        seq!['A', 'p', 'r', 'i', 'l']
    }     else if m == 5 {
        seq!['M', 'a', 'y']
    }     else if m == 6 {
        seq!['J', 'u', 'n', 'e']
    }     else if m == 7 {
        seq!['J', 'u', 'l', 'y']
    }     else if m == 8 {
        seq!['A', 'u', 'g', 'u', 's', 't']
    }     else if m == 9 {
        seq!['S', 'e', 'p', 't', 'e', 'm', 'b', 'e', 'r']
    }     else if m == 10 {
        seq!['O', 'c', 't', 'o', 'b', 'e', 'r']
    }     else if m == 11 {
        seq!['N', 'o', 'v', 'e', 'm', 'b', 'e', 'r']
    }     else if m == 12 {
        seq!['D', 'e', 'c', 'e', 'm', 'b', 'e', 'r']
    } else {
        Seq::empty()
    }
}

/// Appends the abbreviated English name of a weekday.
fn push_abbreviated_weekday(out: &mut String, w: Weekday)
    ensures
        final(out)@ == old(out)@ + abbreviated_weekday_name(w),
{
    match w {
        Weekday::Monday => {
            out.append("Mon");
            proof {
                reveal_strlit("Mon");
                assert("Mon"@ =~= seq!['M', 'o', 'n']);
            }
        },
        Weekday::Tuesday => {
            out.append("Tue");
            proof {
                reveal_strlit("Tue");
                assert("Tue"@ =~= seq!['T', 'u', 'e']);
            }
        },
        Weekday::Wednesday => {
            out.append("Wed");
            proof {
                reveal_strlit("Wed");
                assert("Wed"@ =~= seq!['W', 'e', 'd']);
            }
        },
        Weekday::Thursday => {
            out.append("Thu");
            proof {
                reveal_strlit("Thu");
                assert("Thu"@ =~= seq!['T', 'h', 'u']);
            }
        },
        Weekday::Friday => {
            out.append("Fri");
            proof {
                reveal_strlit("Fri");
                assert("Fri"@ =~= seq!['F', 'r', 'i']);
            }
        },
        Weekday::Saturday => {
            out.append("Sat");
            proof {
                reveal_strlit("Sat");
                assert("Sat"@ =~= seq!['S', 'a', 't']);
            }
        },
        Weekday::Sunday => {
            out.append("Sun");
            proof {
                reveal_strlit("Sun");
                assert("Sun"@ =~= seq!['S', 'u', 'n']);
            }
        },
    }
}

/// Appends the full English name of a weekday.
fn push_full_weekday(out: &mut String, w: Weekday)
    ensures
        final(out)@ == old(out)@ + full_weekday_name(w),
{
    match w {
        Weekday::Monday => {
            out.append("Monday");
            proof {
                reveal_strlit("Monday");
                assert("Monday"@ =~= seq!['M', 'o', 'n', 'd', 'a', 'y']);
            }
        },
        Weekday::Tuesday => {
            out.append("Tuesday");
            proof {
                reveal_strlit("Tuesday");
                assert("Tuesday"@ =~= seq!['T', 'u', 'e', 's', 'd', 'a', 'y']);
            }
        },
        Weekday::Wednesday => {
            out.append("Wednesday");
            proof {
                reveal_strlit("Wednesday");
                assert("Wednesday"@ =~= seq!['W', 'e', 'd', 'n', 'e', 's', 'd', 'a', 'y']);
            }
        },
        Weekday::Thursday => {
            out.append("Thursday");
            proof {
                reveal_strlit("Thursday");
                assert("Thursday"@ =~= seq!['T', 'h', 'u', 'r', 's', 'd', 'a', 'y']);
            }
        },
        Weekday::Friday => {
            out.append("Friday");
            proof {
                reveal_strlit("Friday");
                assert("Friday"@ =~= seq!['F', 'r', 'i', 'd', 'a', 'y']);
            }
        },
        Weekday::Saturday => {
            out.append("Saturday");
            proof {
                reveal_strlit("Saturday");
                assert("Saturday"@ =~= seq!['S', 'a', 't', 'u', 'r', 'd', 'a', 'y']);
            }
        },
        Weekday::Sunday => {
            out.append("Sunday");
            proof {
                reveal_strlit("Sunday");
                assert("Sunday"@ =~= seq!['S', 'u', 'n', 'd', 'a', 'y']);
            }
        },
    }
}

/// Appends the abbreviated English name of a month.
fn push_abbreviated_month(out: &mut String, m: u8)
    requires
        1 <= m <= 12,
    ensures
        final(out)@ == old(out)@ + abbreviated_month_name(m as int),
{
    if m == 1 {
        out.append("Jan");
        proof {
            reveal_strlit("Jan");
            assert("Jan"@ =~= seq!['J', 'a', 'n']);
        }
    } else if m == 2 {
        out.append("Feb");
        proof {
            reveal_strlit("Feb");
            assert("Feb"@ =~= seq!['F', 'e', 'b']);
        }
    } else if m == 3 {
        out.append("Mar");
        proof {
            reveal_strlit("Mar");
            assert("Mar"@ =~= seq!['M', 'a', 'r']);
        }
    } else if m == 4 {
        out.append("Apr");
        proof {
            reveal_strlit("Apr");
            assert("Apr"@ =~= seq!['A', 'p', 'r']);
        }
    } else if m == 5 {
        out.append("May");
        proof {
            reveal_strlit("May");
            assert("May"@ =~= seq!['M', 'a', 'y']);
        }
    } else if m == 6 {
        out.append("Jun");
        proof {
            reveal_strlit("Jun");
            assert("Jun"@ =~= seq!['J', 'u', 'n']);
        }
    } else if m == 7 {
        out.append("Jul");
        proof {
            reveal_strlit("Jul");
            assert("Jul"@ =~= seq!['J', 'u', 'l']);
        }
    } else if m == 8 {
        out.append("Aug");
        proof {
            reveal_strlit("Aug");
            assert("Aug"@ =~= seq!['A', 'u', 'g']);
        }
    } else if m == 9 {
        out.append("Sep");
        proof {
            reveal_strlit("Sep");
            assert("Sep"@ =~= seq!['S', 'e', 'p']);
        }
    } else if m == 10 {
        out.append("Oct");
        proof {
            reveal_strlit("Oct");
            assert("Oct"@ =~= seq!['O', 'c', 't']);
        }
    } else if m == 11 {
        out.append("Nov");
        proof {
            reveal_strlit("Nov");
            assert("Nov"@ =~= seq!['N', 'o', 'v']);
        }
    } else if m == 12 {
        out.append("Dec");
        proof {
            reveal_strlit("Dec");
            assert("Dec"@ =~= seq!['D', 'e', 'c']);
        }
    }
}

/// Appends the full English name of a month.
fn push_full_month(out: &mut String, m: u8)
    requires
        1 <= m <= 12,
    ensures
        final(out)@ == old(out)@ + full_month_name(m as int),
{
    if m == 1 {
        out.append("January");
        proof {
            reveal_strlit("January");
            assert("January"@ =~= seq!['J', 'a', 'n', 'u', 'a', 'r', 'y']);
        }
    } else if m == 2 {
        out.append("February");
        proof {
            reveal_strlit("February");
            assert("February"@ =~= seq!['F', 'e', 'b', 'r', 'u', 'a', 'r', 'y']);
        }
    } else if m == 3 {
        out.append("March");
        proof {
            reveal_strlit("March");
            assert("March"@ =~= seq!['M', 'a', 'r', 'c', 'h']);
        }
    } else if m == 4 {
        out.append("April");
        proof {
            reveal_strlit("April");
            assert("April"@ =~= seq!['A', 'p', 'r', 'i', 'l']);
        }
    } else if m == 5 {
        out.append("May");
        proof {
            reveal_strlit("May");
            assert("May"@ =~= seq!['M', 'a', 'y']);
        }
    } else if m == 6 {
        out.append("June");
        proof {
            reveal_strlit("June");
            assert("June"@ =~= seq!['J', 'u', 'n', 'e']);
        }
    } else if m == 7 {
        out.append("July");
        proof {
            reveal_strlit("July");
            assert("July"@ =~= seq!['J', 'u', 'l', 'y']);
        }
    } else if m == 8 {
        out.append("August");
        proof {
            reveal_strlit("August");
            assert("August"@ =~= seq!['A', 'u', 'g', 'u', 's', 't']);
        }
    } else if m == 9 {
        out.append("September");
        proof {
            reveal_strlit("September");
            assert("September"@ =~= seq!['S', 'e', 'p', 't', 'e', 'm', 'b', 'e', 'r']);
        }
    } else if m == 10 {
        out.append("October");
        proof {
            reveal_strlit("October");
            assert("October"@ =~= seq!['O', 'c', 't', 'o', 'b', 'e', 'r']);
        }
    } else if m == 11 {
        out.append("November");
        proof {
            reveal_strlit("November");
            assert("November"@ =~= seq!['N', 'o', 'v', 'e', 'm', 'b', 'e', 'r']);
        }
    } else if m == 12 {
        out.append("December");
        proof {
            reveal_strlit("December");
            assert("December"@ =~= seq!['D', 'e', 'c', 'e', 'm', 'b', 'e', 'r']);
        }
    }
}
/// A number written with a padding to a width, as format specifications pad numbers.
pub open spec fn pad_number(v: int, padding: FormatSpecPadding, width: int) -> Seq<char> {
    match padding {
        FormatSpecPadding::Zero => zero_padded(v, width, false),
        FormatSpecPadding::Empty => zero_padded(v, 0, false),
        FormatSpecPadding::Space => space_padded(v, width, false),
    }
}

/// The digits a year is padded to: five beyond four digits, four otherwise.
pub open spec fn year_width(y: int) -> int {
    if y < -9999 || y > 9999 {
        5
    } else {
        4
    }
}

/// A year written with an explicit sign and a padding.
pub open spec fn signed_year(y: int, padding: FormatSpecPadding) -> Seq<char> {
    match padding {
        FormatSpecPadding::Zero => zero_padded(y, year_width(y) + 1, true),
        FormatSpecPadding::Empty => zero_padded(y, 0, true),
        FormatSpecPadding::Space => space_padded(y, year_width(y) + 1, true),
    }
}

/// The weekday of a date.
pub open spec fn weekday_of_date(date: Date) -> Weekday {
    weekday_from_sunday_index(spec_weekday_from_days(date.spec_days_since_epoch()))
}

/// The text of a fragment that does not depend on the value: raw text and `%%`.
pub open spec fn common_piece(f: FormatSpec) -> Option<Seq<char>> {
    match f@.0 {
        FormatSpecKind::Raw(t) => Some(t@),
        FormatSpecKind::Escape => Some(seq!['%']),
        _ => None,
    }
}

/// The text of a date directive, or `None` for a directive that is not about dates.
pub open spec fn date_piece(date: Date, f: FormatSpec) -> Option<Seq<char>> {
    let y = date@.0;
    let m = date@.1;
    let d = date@.2;
    let w = weekday_of_date(date);
    match f@.0 {
        FormatSpecKind::AbbreviatedWeekday => Some(abbreviated_weekday_name(w)),
        FormatSpecKind::FullWeekday => Some(full_weekday_name(w)),
        FormatSpecKind::Weekday => Some(decimal(w.spec_days_from_sunday() as nat)),
        FormatSpecKind::IsoWeekday => Some(decimal(w.spec_number_from_monday() as nat)),
        FormatSpecKind::Day => Some(pad_number(d, f@.1, 2)),
        FormatSpecKind::Ordinal => Some(pad_number(spec_days_before_month(y, m) + d, f@.1, 3)),
        FormatSpecKind::AbbreviatedMonth => Some(abbreviated_month_name(m)),
        FormatSpecKind::FullMonth => Some(full_month_name(m)),
        FormatSpecKind::Month => Some(pad_number(m, f@.1, 2)),
        FormatSpecKind::Year => Some(pad_number(y, f@.1, year_width(y))),
        FormatSpecKind::SignedYear => Some(signed_year(y, f@.1)),
        FormatSpecKind::IsoWeekYear => Some(pad_number(spec_iso_week_of(date@).0, f@.1, 4)),
        FormatSpecKind::IsoWeek => Some(pad_number(spec_iso_week_of(date@).1, f@.1, 2)),
        _ => None,
    }
}

/// The text of a time directive, or `None` for a directive that is not about times.
///
/// A leap second is written as second 60 with the fraction past it.
pub open spec fn time_piece(time: Time, f: FormatSpec) -> Option<Seq<char>> {
    let (h, m, s, ns) = time@;
    match f@.0 {
        FormatSpecKind::Hour => Some(pad_number(h, f@.1, 2)),
        FormatSpecKind::Hour12 => Some(pad_number(if h == 0 { 12 } else if h <= 12 { h } else { h - 12 }, f@.1, 2)),
        FormatSpecKind::Meridiem => Some(if h >= 12 { seq!['P', 'M'] } else { seq!['A', 'M'] }),
        FormatSpecKind::Minute => Some(pad_number(m, f@.1, 2)),
        FormatSpecKind::Second => Some(pad_number(if ns >= 1_000_000_000 { s + 1 } else { s }, f@.1, 2)),
        FormatSpecKind::Nanosecond => Some(
            pad_number(if ns >= 1_000_000_000 { ns - 1_000_000_000 } else { ns }, f@.1, 7),
        ),
        _ => None,
    }
}

/// The text of an offset directive, or `None` for a directive that is not about offsets.
///
/// The name of the zone is `UTC` at the zero offset, and empty at any other.
pub open spec fn offset_piece(offset: UtcOffset, f: FormatSpec) -> Option<Seq<char>> {
    let (h, m, s) = offset@;
    match f@.0 {
        FormatSpecKind::UtcOffset => Some(iso_offset(offset@)),
        FormatSpecKind::UtcOffsetBrief => Some(
            zero_padded(h, 3, true) + zero_padded(abs(m) as int, 2, false) + if abs(s) > 0 {
                zero_padded(abs(s) as int, 2, false)
            } else {
                Seq::empty()
            },
        ),
        FormatSpecKind::ZoneName => Some(if offset@ == (0int, 0int, 0int) { seq!['U', 'T', 'C'] } else { Seq::empty() }),
        _ => None,
    }
}

/// The text of the first of the pieces that applies, or nothing.
pub open spec fn first_piece(a: Option<Seq<char>>, b: Option<Seq<char>>, c: Option<Seq<char>>, d: Option<Seq<char>>) -> Seq<char> {
    if a is Some {
        a->0
    } else if b is Some {
        b->0
    } else if c is Some {
        c->0
    } else if d is Some {
        d->0
    } else {
        Seq::empty()
    }
}

/// A date formatted with format specifications; directives not about dates write nothing.
pub open spec fn format_date_items(date: Date, specs: Seq<FormatSpec>) -> Seq<char>
    decreases specs.len(),
{
    if specs.len() == 0 {
        Seq::empty()
    } else {
        let f = specs.last();
        format_date_items(date, specs.drop_last()) + first_piece(common_piece(f), date_piece(date, f), None, None)
    }
}

/// A time formatted with format specifications; directives not about times write nothing.
pub open spec fn format_time_items(time: Time, specs: Seq<FormatSpec>) -> Seq<char>
    decreases specs.len(),
{
    if specs.len() == 0 {
        Seq::empty()
    } else {
        let f = specs.last();
        format_time_items(time, specs.drop_last()) + first_piece(common_piece(f), time_piece(time, f), None, None)
    }
}

/// A date and time at an offset formatted with format specifications.
pub open spec fn format_datetime_items(date: Date, time: Time, offset: UtcOffset, specs: Seq<FormatSpec>) -> Seq<char>
    decreases specs.len(),
{
    if specs.len() == 0 {
        Seq::empty()
    } else {
        let f = specs.last();
        format_datetime_items(date, time, offset, specs.drop_last()) + first_piece(
            common_piece(f),
            date_piece(date, f),
            time_piece(time, f),
            offset_piece(offset, f),
        )
    }
}

/// Whether format specifications ask for the ISO week calendar.
pub open spec fn needs_iso_week(specs: Seq<FormatSpec>) -> bool {
    exists|i: int| 0 <= i < specs.len() && (specs[i]@.0 is IsoWeekYear || specs[i]@.0 is IsoWeek)
}

/// Appends a number written with a padding to a width.
fn push_number(out: &mut String, v: i64, padding: FormatSpecPadding, width: i64)
    requires
        v > i64::MIN,
        0 <= width <= 100,
    ensures
        final(out)@ == old(out)@ + pad_number(v as int, padding, width as int),
{
    match padding {
        FormatSpecPadding::Zero => push_zero_padded(out, v, width, false),
        FormatSpecPadding::Empty => push_zero_padded(out, v, 0, false),
        FormatSpecPadding::Space => push_space_padded(out, v, width, false),
    }
}

/// Appends the text of raw text and `%%`, returning whether the fragment was one of them.
fn push_common_piece(out: &mut String, f: &FormatSpec) -> (handled: bool)
    ensures
        handled == common_piece(*f) is Some,
        handled ==> final(out)@ == old(out)@ + common_piece(*f)->0,
        !handled ==> final(out)@ == old(out)@,
{
    match f.kind() {
        FormatSpecKind::Raw(t) => {
            out.append(t);
            true
        },
        FormatSpecKind::Escape => {
            push_char(out, '%');
            true
        },
        _ => false,
    }
}

/// Appends the text of a date directive, returning whether the fragment was one.
fn push_date_piece(out: &mut String, date: &Date, f: &FormatSpec) -> (handled: bool)
    requires
        (f@.0 is IsoWeekYear || f@.0 is IsoWeek) ==> i16::MIN < date@.0 < i16::MAX,
    ensures
        handled == date_piece(*date, *f) is Some,
        handled ==> final(out)@ == old(out)@ + date_piece(*date, *f)->0,
        !handled ==> final(out)@ == old(out)@,
{
    date.in_range();
    let padding = f.padding();
    match f.kind() {
        FormatSpecKind::AbbreviatedWeekday => {
            push_abbreviated_weekday(out, date.weekday());
            true
        },
        FormatSpecKind::FullWeekday => {
            push_full_weekday(out, date.weekday());
            true
        },
        FormatSpecKind::Weekday => {
            crate::display::push_decimal(out, date.weekday().days_from_sunday() as u64);
            true
        },
        FormatSpecKind::IsoWeekday => {
            crate::display::push_decimal(out, date.weekday().number_from_monday() as u64);
            true
        },
        FormatSpecKind::Day => {
            push_number(out, date.day() as i64, padding, 2);
            true
        },
        FormatSpecKind::Ordinal => {
            push_number(out, date.ordinal() as i64, padding, 3);
            true
        },
        FormatSpecKind::AbbreviatedMonth => {
            push_abbreviated_month(out, date.month());
            true
        },
        FormatSpecKind::FullMonth => {
            push_full_month(out, date.month());
            true
        },
        FormatSpecKind::Month => {
            push_number(out, date.month() as i64, padding, 2);
            true
        },
        FormatSpecKind::Year => {
            let year = date.year();
            let width: i64 = if year < -9999 || year > 9999 {
                5
            } else {
                4
            };
            push_number(out, year as i64, padding, width);
            true
        },
        FormatSpecKind::SignedYear => {
            let year = date.year();
            let width: i64 = if year < -9999 || year > 9999 {
                6
            } else {
                5
            };
            match padding {
                FormatSpecPadding::Zero => push_zero_padded(out, year as i64, width, true),
                FormatSpecPadding::Empty => push_zero_padded(out, year as i64, 0, true),
                FormatSpecPadding::Space => push_space_padded(out, year as i64, width, true),
            }
            true
        },
        FormatSpecKind::IsoWeekYear => {
            push_number(out, date.iso_week().year() as i64, padding, 4);
            true
        },
        FormatSpecKind::IsoWeek => {
            push_number(out, date.iso_week().week() as i64, padding, 2);
            true
        },
        _ => false,
    }
}

/// Appends the text of a time directive, returning whether the fragment was one.
fn push_time_piece(out: &mut String, time: &Time, f: &FormatSpec) -> (handled: bool)
    ensures
        handled == time_piece(*time, *f) is Some,
        handled ==> final(out)@ == old(out)@ + time_piece(*time, *f)->0,
        !handled ==> final(out)@ == old(out)@,
{
    let padding = f.padding();
    let h = time.hour();
    match f.kind() {
        FormatSpecKind::Hour => {
            push_number(out, h as i64, padding, 2);
            true
        },
        FormatSpecKind::Hour12 => {
            let h12: i64 = if h == 0 {
                12
            } else if h <= 12 {
                h as i64
            } else {
                h as i64 - 12
            };
            push_number(out, h12, padding, 2);
            true
        },
        FormatSpecKind::Meridiem => {
            if h >= 12 {
                push_char(out, 'P');
            } else {
                push_char(out, 'A');
            }
            push_char(out, 'M');
            proof {
                assert(final(out)@ =~= old(out)@ + time_piece(*time, *f)->0);
            }
            true
        },
        FormatSpecKind::Minute => {
            push_number(out, time.minute() as i64, padding, 2);
            true
        },
        FormatSpecKind::Second => {
            let second: i64 = if time.nanosecond() >= 1_000_000_000 {
                time.second() as i64 + 1
            } else {
                time.second() as i64
            };
            push_number(out, second, padding, 2);
            true
        },
        FormatSpecKind::Nanosecond => {
            let ns = time.nanosecond();
            let ns: i64 = if ns >= 1_000_000_000 {
                ns as i64 - 1_000_000_000
            } else {
                ns as i64
            };
            push_number(out, ns, padding, 7);
            true
        },
        _ => false,
    }
}

/// Appends the text of an offset directive, returning whether the fragment was one.
fn push_offset_piece(out: &mut String, offset: &UtcOffset, f: &FormatSpec) -> (handled: bool)
    ensures
        handled == offset_piece(*offset, *f) is Some,
        handled ==> final(out)@ == old(out)@ + offset_piece(*offset, *f)->0,
        !handled ==> final(out)@ == old(out)@,
{
    match f.kind() {
        FormatSpecKind::UtcOffset => {
            push_iso_offset(out, offset);
            true
        },
        FormatSpecKind::UtcOffsetBrief => {
            let (h, m, s) = offset.into_hms();
            let m: i64 = if m < 0 {
                -(m as i64)
            } else {
                m as i64
            };
            let s: i64 = if s < 0 {
                -(s as i64)
            } else {
                s as i64
            };
            push_zero_padded(out, h as i64, 3, true);
            push_zero_padded(out, m, 2, false);
            if s > 0 {
                push_zero_padded(out, s, 2, false);
            }
            proof {
                assert(final(out)@ =~= old(out)@ + offset_piece(*offset, *f)->0);
            }
            true
        },
        FormatSpecKind::ZoneName => {
            if offset.is_utc() {
                push_char(out, 'U');
                push_char(out, 'T');
                push_char(out, 'C');
            }
            proof {
                assert(final(out)@ =~= old(out)@ + offset_piece(*offset, *f)->0);
            }
            true
        },
        _ => false,
    }
}

/// A wrapper type that formats [`Date`] instances with the given format spec.
pub struct DateFormatter<'a, 'b> {
    date: &'a Date,
    spec: &'a [FormatSpec<'b>],
}

impl<'a, 'b> View for DateFormatter<'a, 'b> {
    type V = (Date, Seq<FormatSpec<'b>>);

    /// The date and the format specifications.
    closed spec fn view(&self) -> (Date, Seq<FormatSpec<'b>>) {
        (*self.date, self.spec@)
    }
}

impl<'a, 'b> DateFormatter<'a, 'b> {
    /// Returns the formatted text.
    pub fn to_string(&self) -> (r: String)
        requires
            needs_iso_week(self@.1) ==> i16::MIN < self@.0@.0 < i16::MAX,
        ensures
            r@ == format_date_items(self@.0, self@.1),
    {
        let mut out = String::new();
        let mut i: usize = 0;
        while i < self.spec.len()
            invariant
                i <= self.spec@.len(),
                needs_iso_week(self.spec@) ==> i16::MIN < self.date@.0 < i16::MAX,
                out@ == format_date_items(*self.date, self.spec@.subrange(0, i as int)),
            decreases self.spec@.len() - i,
        {
            let f = &self.spec[i];
            let ghost before = out@;
            if !push_common_piece(&mut out, f) {
                push_date_piece(&mut out, self.date, f);
            }
            proof {
                assert(self.spec@.subrange(0, i + 1).drop_last() =~= self.spec@.subrange(0, i as int));
                assert(out@ =~= before + first_piece(common_piece(*f), date_piece(*self.date, *f), None, None));
            }
            i = i + 1;
        }
        proof {
            assert(self.spec@.subrange(0, i as int) =~= self.spec@);
        }
        out
    }
}

/// A wrapper type that formats [`Time`] instances with the given format spec.
pub struct TimeFormatter<'a, 'b> {
    time: &'a Time,
    spec: &'a [FormatSpec<'b>],
}

impl<'a, 'b> View for TimeFormatter<'a, 'b> {
    type V = (Time, Seq<FormatSpec<'b>>);

    /// The time and the format specifications.
    closed spec fn view(&self) -> (Time, Seq<FormatSpec<'b>>) {
        (*self.time, self.spec@)
    }
}

impl<'a, 'b> TimeFormatter<'a, 'b> {
    /// Returns the formatted text.
    pub fn to_string(&self) -> (r: String)
        ensures
            r@ == format_time_items(self@.0, self@.1),
    {
        let mut out = String::new();
        let mut i: usize = 0;
        while i < self.spec.len()
            invariant
                i <= self.spec@.len(),
                out@ == format_time_items(*self.time, self.spec@.subrange(0, i as int)),
            decreases self.spec@.len() - i,
        {
            let f = &self.spec[i];
            let ghost before = out@;
            if !push_common_piece(&mut out, f) {
                push_time_piece(&mut out, self.time, f);
            }
            proof {
                assert(self.spec@.subrange(0, i + 1).drop_last() =~= self.spec@.subrange(0, i as int));
                assert(out@ =~= before + first_piece(common_piece(*f), time_piece(*self.time, *f), None, None));
            }
            i = i + 1;
        }
        proof {
            assert(self.spec@.subrange(0, i as int) =~= self.spec@);
        }
        out
    }
}

/// A wrapper type that formats [`DateTime`] instances with the given format spec.
pub struct DateTimeFormatter<'a, 'b> {
    dt: &'a DateTime,
    spec: &'a [FormatSpec<'b>],
}

impl<'a, 'b> View for DateTimeFormatter<'a, 'b> {
    type V = (DateTime, Seq<FormatSpec<'b>>);

    /// The date time and the format specifications.
    closed spec fn view(&self) -> (DateTime, Seq<FormatSpec<'b>>) {
        (*self.dt, self.spec@)
    }
}

impl<'a, 'b> DateTimeFormatter<'a, 'b> {
    /// Returns the formatted text.
    pub fn to_string(&self) -> (r: String)
        requires
            needs_iso_week(self@.1) ==> i16::MIN < self@.0@.0@.0 < i16::MAX,
        ensures
            r@ == format_datetime_items(self@.0@.0, self@.0@.1, self@.0@.2, self@.1),
    {
        let mut out = String::new();
        let mut i: usize = 0;
        let date = self.dt.date();
        let time = self.dt.time();
        let offset = *self.dt.timezone();
        while i < self.spec.len()
            invariant
                i <= self.spec@.len(),
                *date == self.dt@.0,
                *time == self.dt@.1,
                offset == self.dt@.2,
                needs_iso_week(self.spec@) ==> i16::MIN < self.dt@.0@.0 < i16::MAX,
                out@ == format_datetime_items(*date, *time, offset, self.spec@.subrange(0, i as int)),
            decreases self.spec@.len() - i,
        {
            let f = &self.spec[i];
            let ghost before = out@;
            if !push_common_piece(&mut out, f) {
                if !push_date_piece(&mut out, date, f) {
                    if !push_time_piece(&mut out, time, f) {
                        push_offset_piece(&mut out, &offset, f);
                    }
                }
            }
            proof {
                assert(self.spec@.subrange(0, i + 1).drop_last() =~= self.spec@.subrange(0, i as int));
                assert(out@ =~= before + first_piece(
                    common_piece(*f),
                    date_piece(*date, *f),
                    time_piece(*time, *f),
                    offset_piece(offset, *f),
                ));
            }
            i = i + 1;
        }
        proof {
            assert(self.spec@.subrange(0, i as int) =~= self.spec@);
        }
        out
    }
}

impl Date {
    /// Formats this date with a given slice of [`FormatSpec`].
    pub fn format<'a, 'b>(&'a self, spec: &'a [FormatSpec<'b>]) -> (r: DateFormatter<'a, 'b>)
        ensures
            r@ == (*self, spec@),
    {
        DateFormatter { date: self, spec }
    }
}

impl Time {
    /// Formats this time with a given slice of [`FormatSpec`].
    pub fn format<'a, 'b>(&'a self, spec: &'a [FormatSpec<'b>]) -> (r: TimeFormatter<'a, 'b>)
        ensures
            r@ == (*self, spec@),
    {
        TimeFormatter { time: self, spec }
    }
}

impl DateTime {
    /// Formats this date time with a given slice of [`FormatSpec`].
    pub fn format<'a, 'b>(&'a self, spec: &'a [FormatSpec<'b>]) -> (r: DateTimeFormatter<'a, 'b>)
        ensures
            r@ == (*self, spec@),
    {
        DateTimeFormatter { dt: self, spec }
    }

    /// Returns a formatter of this date time in the RFC 3339 form
    /// `YYYY-MM-DD HH:MM:SS[.ffffff]±HH:MM`.
    pub fn to_rfc3339(&self) -> (r: Rfc3339Formatter<'_>)
        ensures
            r@ == *self,
    {
        Rfc3339Formatter { dt: self }
    }
}

/// The RFC 3339 form of a date time: the date, a space, the time to the second with
/// six digits of microseconds when there are any, and the offset in hours and minutes.
pub open spec fn rfc3339(dt: DateTime) -> Seq<char> {
    let (h, m, s, ns) = dt@.1@;
    let us = ns / 1000;
    let (s2, us2) = if us >= 1_000_000 {
        (s + 1, us - 1_000_000)
    } else {
        (s, us)
    };
    iso_date(dt@.0@) + seq![' '] + zero_padded(h, 2, false) + seq![':'] + zero_padded(m, 2, false) + seq![':']
        + zero_padded(s2, 2, false) + (if us2 != 0 {
        seq!['.'] + zero_padded(us2, 6, false)
    } else {
        Seq::empty()
    }) + zero_padded(dt@.2@.0, 3, true) + seq![':'] + zero_padded(abs(dt@.2@.1) as int, 2, false)
}

/// Formats a [`DateTime`] into RFC 3339 format.
pub struct Rfc3339Formatter<'a> {
    dt: &'a DateTime,
}

impl<'a> View for Rfc3339Formatter<'a> {
    type V = DateTime;

    /// The date time.
    closed spec fn view(&self) -> DateTime {
        *self.dt
    }
}

impl<'a> Rfc3339Formatter<'a> {
    /// Returns the formatted text.
    #[verifier::rlimit(60)]
    pub fn to_string(&self) -> (r: String)
        ensures
            r@ == rfc3339(self@),
    {
        let mut out = String::new();
        let time = self.dt.time();
        let (h, m, _) = self.dt.timezone().into_hms();
        let m: i64 = if m < 0 {
            -(m as i64)
        } else {
            m as i64
        };
        let mut us = time.microsecond();
        let mut s = time.second();
        if us >= 1_000_000 {
            s = s + 1;
            us = us - 1_000_000;
        }
        push_iso_date(&mut out, self.dt.date());
        push_char(&mut out, ' ');
        push_zero_padded(&mut out, time.hour() as i64, 2, false);
        push_char(&mut out, ':');
        push_zero_padded(&mut out, time.minute() as i64, 2, false);
        push_char(&mut out, ':');
        push_zero_padded(&mut out, s as i64, 2, false);
        if us != 0 {
            push_char(&mut out, '.');
            push_zero_padded(&mut out, us as i64, 6, false);
        }
        push_zero_padded(&mut out, h as i64, 3, true);
        push_char(&mut out, ':');
        push_zero_padded(&mut out, m, 2, false);
        proof {
            assert(out@ =~= rfc3339(self@));
        }
        out
    }
}

/// `%j` writes the ordinal of the date: one more than the number of days from January
/// 1st of its year to it, so January 1st is day 1 and March 1st of a leap year day 61.
pub proof fn lemma_ordinal_piece(date: Date, f: FormatSpec)
    requires
        f@.0 == FormatSpecKind::Ordinal,
    ensures
        date_piece(date, f) == Some(
            pad_number(
                crate::gregorian::spec_epoch_days(date@.0, date@.1, date@.2) - crate::gregorian::spec_epoch_days(
                    date@.0,
                    1,
                    1,
                ) + 1,
                f@.1,
                3,
            ),
        ),
{
}

/// `%z` writes the offset as its sign, the hours as exactly two digits and the minutes as
/// two digits, then two digits of seconds when there are any: five or seven characters,
/// such as `-0500` or `+102340`. The sign is that of the hours.
pub proof fn lemma_brief_offset_piece(offset: UtcOffset, f: FormatSpec)
    requires
        offset.inv(),
        f@.0 == FormatSpecKind::UtcOffsetBrief,
    ensures
        ({
            let (h, m, s) = offset@;
            let t = offset_piece(offset, f)->0;
            &&& offset_piece(offset, f) is Some
            &&& t.len() == if s != 0 { 7int } else { 5int }
            &&& t[0] == if h < 0 { '-' } else { '+' }
            &&& t[1] == digit_char(abs(h) as int / 10)
            &&& t[2] == digit_char(abs(h) as int % 10)
            &&& t[3] == digit_char(abs(m) as int / 10)
            &&& t[4] == digit_char(abs(m) as int % 10)
            &&& s != 0 ==> t[5] == digit_char(abs(s) as int / 10) && t[6] == digit_char(abs(s) as int % 10)
        }),
{
    let (h, m, s) = offset@;
    crate::timezone::lemma_offset_minutes(offset);
    assert(-24 <= h <= 24) by {
        crate::timezone::lemma_offset_components_roundtrip(offset.spec_total_seconds());
    }
    crate::display::lemma_zero_padded_2(abs(m) as int);
    crate::display::lemma_zero_padded_2(abs(s) as int);
    crate::display::lemma_signed_zero_padded_3(h);
}

} // verus!
