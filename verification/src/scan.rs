//! Parsing strings with format specifications into a [`Builder`].
use vstd::prelude::*;

use crate::builder::{Builder, BuilderView};
use crate::date::{weekday_from_sunday_index, Weekday};
use crate::fmt::{
    byte_at, spec_digits, spec_expect, spec_expect_str, spec_fixed_digits,
    spec_fraction, spec_required_sign, spec_sign, FormatSpec, FormatSpecKind, ParseError, Parser,
};
use crate::timezone::{spec_normalized_hms, spec_offset_components, UtcOffset};
use vstd::string::StringSliceAdditionalSpecFns;

verus! {

/// The number of names of a kind: weekdays (abbreviated, then full) or months
/// (abbreviated, then full).
pub open spec fn name_count(kind: int) -> int {
    if kind <= 1 {
        7
    } else {
        12
    }
}

/// The bytes of the English names the parser reads: abbreviated (`kind` 0) and full
/// (`kind` 1) weekday names from Monday on, and abbreviated (`kind` 2) and full
/// (`kind` 3) month names from January on.
pub open spec fn name_bytes(kind: int, i: int) -> Seq<u8> {
    if kind == 0 && i == 0 {
        seq![77u8, 111u8, 110u8]
    } else if kind == 0 && i == 1 {
        seq![84u8, 117u8, 101u8]
    } else if kind == 0 && i == 2 {
        seq![87u8, 101u8, 100u8]
    } else if kind == 0 && i == 3 {
        seq![84u8, 104u8, 117u8]
    } else if kind == 0 && i == 4 {
        seq![70u8, 114u8, 105u8]
    } else if kind == 0 && i == 5 {
        seq![83u8, 97u8, 116u8]
    } else if kind == 0 && i == 6 {
        seq![83u8, 117u8, 110u8]
    } else if kind == 1 && i == 0 {
        seq![77u8, 111u8, 110u8, 100u8, 97u8, 121u8]
    } else if kind == 1 && i == 1 {
        seq![84u8, 117u8, 101u8, 115u8, 100u8, 97u8, 121u8]
    } else if kind == 1 && i == 2 {
        seq![87u8, 101u8, 100u8, 110u8, 101u8, 115u8, 100u8, 97u8, 121u8]
    } else if kind == 1 && i == 3 {
        seq![84u8, 104u8, 117u8, 114u8, 115u8, 100u8, 97u8, 121u8]
    } else if kind == 1 && i == 4 {
        seq![70u8, 114u8, 105u8, 100u8, 97u8, 121u8]
    } else if kind == 1 && i == 5 {
        seq![83u8, 97u8, 116u8, 117u8, 114u8, 100u8, 97u8, 121u8]
    } else if kind == 1 && i == 6 {
        seq![83u8, 117u8, 110u8, 100u8, 97u8, 121u8]
    } else if kind == 2 && i == 0 {
        seq![74u8, 97u8, 110u8]
    } else if kind == 2 && i == 1 {
        seq![70u8, 101u8, 98u8]
    } else if kind == 2 && i == 2 {
        seq![77u8, 97u8, 114u8]
    } else if kind == 2 && i == 3 {
        seq![65u8, 112u8, 114u8]
    } else if kind == 2 && i == 4 {
        seq![77u8, 97u8, 121u8]
    } else if kind == 2 && i == 5 {
        seq![74u8, 117u8, 110u8]
    } else if kind == 2 && i == 6 {
        seq![74u8, 117u8, 108u8]
    } else if kind == 2 && i == 7 {
        seq![65u8, 117u8, 103u8]
    } else if kind == 2 && i == 8 {
        seq![83u8, 101u8, 112u8]
    } else if kind == 2 && i == 9 {
        seq![79u8, 99u8, 116u8]
    } else if kind == 2 && i == 10 {
        seq![78u8, 111u8, 118u8]
    } else if kind == 2 && i == 11 {
        seq![68u8, 101u8, 99u8]
    } else if kind == 3 && i == 0 {
        seq![74u8, 97u8, 110u8, 117u8, 97u8, 114u8, 121u8]
    } else if kind == 3 && i == 1 {
        seq![70u8, 101u8, 98u8, 114u8, 117u8, 97u8, 114u8, 121u8]
    } else if kind == 3 && i == 2 {
        seq![77u8, 97u8, 114u8, 99u8, 104u8]
    } else if kind == 3 && i == 3 {
        seq![65u8, 112u8, 114u8, 105u8, 108u8]
    } else if kind == 3 && i == 4 {
        seq![77u8, 97u8, 121u8]
    } else if kind == 3 && i == 5 {
        seq![74u8, 117u8, 110u8, 101u8]
    } else if kind == 3 && i == 6 {
        seq![74u8, 117u8, 108u8, 121u8]
    } else if kind == 3 && i == 7 {
        seq![65u8, 117u8, 103u8, 117u8, 115u8, 116u8]
    } else if kind == 3 && i == 8 {
        seq![83u8, 101u8, 112u8, 116u8, 101u8, 109u8, 98u8, 101u8, 114u8]
    } else if kind == 3 && i == 9 {
        seq![79u8, 99u8, 116u8, 111u8, 98u8, 101u8, 114u8]
    } else if kind == 3 && i == 10 {
        seq![78u8, 111u8, 118u8, 101u8, 109u8, 98u8, 101u8, 114u8]
    } else if kind == 3 && i == 11 {
        seq![68u8, 101u8, 99u8, 101u8, 109u8, 98u8, 101u8, 114u8]
    } else {
        Seq::empty()
    }
}

/// Returns the bytes of a name.
fn name_slice(kind: usize, i: usize) -> (r: &'static [u8])
    ensures
        r@ == name_bytes(kind as int, i as int),
{
    if kind == 0 && i == 0 {
        let r: &'static [u8] = &[77, 111, 110];
        proof {
            assert(r@ =~= seq![77u8, 111u8, 110u8]);
        }
        r
    } else if kind == 0 && i == 1 {
        let r: &'static [u8] = &[84, 117, 101];
        proof {
            assert(r@ =~= seq![84u8, 117u8, 101u8]);
        }
        r
    } else if kind == 0 && i == 2 {
        let r: &'static [u8] = &[87, 101, 100];
        proof {
            assert(r@ =~= seq![87u8, 101u8, 100u8]);
        }
        r
    } else if kind == 0 && i == 3 {
        let r: &'static [u8] = &[84, 104, 117];
        proof {
            assert(r@ =~= seq![84u8, 104u8, 117u8]);
        }
        r
    } else if kind == 0 && i == 4 {
        let r: &'static [u8] = &[70, 114, 105];
        proof {
            assert(r@ =~= seq![70u8, 114u8, 105u8]);
        }
        r
    } else if kind == 0 && i == 5 {
        let r: &'static [u8] = &[83, 97, 116];
        proof {
            assert(r@ =~= seq![83u8, 97u8, 116u8]);
        }
        r
    } else if kind == 0 && i == 6 {
        let r: &'static [u8] = &[83, 117, 110];
        proof {
            assert(r@ =~= seq![83u8, 117u8, 110u8]);
        }
        r
    } else if kind == 1 && i == 0 {
        let r: &'static [u8] = &[77, 111, 110, 100, 97, 121];
        proof {
            assert(r@ =~= seq![77u8, 111u8, 110u8, 100u8, 97u8, 121u8]);
        }
        r
    } else if kind == 1 && i == 1 {
        let r: &'static [u8] = &[84, 117, 101, 115, 100, 97, 121];
        proof {
            assert(r@ =~= seq![84u8, 117u8, 101u8, 115u8, 100u8, 97u8, 121u8]);
        }
        r
    } else if kind == 1 && i == 2 {
        let r: &'static [u8] = &[87, 101, 100, 110, 101, 115, 100, 97, 121];
        proof {
            assert(r@ =~= seq![87u8, 101u8, 100u8, 110u8, 101u8, 115u8, 100u8, 97u8, 121u8]);
        }
        r
    } else if kind == 1 && i == 3 {
        let r: &'static [u8] = &[84, 104, 117, 114, 115, 100, 97, 121];
        proof {
            assert(r@ =~= seq![84u8, 104u8, 117u8, 114u8, 115u8, 100u8, 97u8, 121u8]);
        }
        r
    } else if kind == 1 && i == 4 {
        let r: &'static [u8] = &[70, 114, 105, 100, 97, 121];
        proof {
            assert(r@ =~= seq![70u8, 114u8, 105u8, 100u8, 97u8, 121u8]);
        }
        r
    } else if kind == 1 && i == 5 {
        let r: &'static [u8] = &[83, 97, 116, 117, 114, 100, 97, 121];
        proof {
            assert(r@ =~= seq![83u8, 97u8, 116u8, 117u8, 114u8, 100u8, 97u8, 121u8]);
        }
        r
    } else if kind == 1 && i == 6 {
        let r: &'static [u8] = &[83, 117, 110, 100, 97, 121];
        proof {
            assert(r@ =~= seq![83u8, 117u8, 110u8, 100u8, 97u8, 121u8]);
        }
        r
    } else if kind == 2 && i == 0 {
        let r: &'static [u8] = &[74, 97, 110];
        proof {
            assert(r@ =~= seq![74u8, 97u8, 110u8]);
        }
        r
    } else if kind == 2 && i == 1 {
        let r: &'static [u8] = &[70, 101, 98];
        proof {
            assert(r@ =~= seq![70u8, 101u8, 98u8]);
        }
        r
    } else if kind == 2 && i == 2 {
        let r: &'static [u8] = &[77, 97, 114];
        proof {
            assert(r@ =~= seq![77u8, 97u8, 114u8]);
        }
        r
    } else if kind == 2 && i == 3 {
        let r: &'static [u8] = &[65, 112, 114];
        proof {
            assert(r@ =~= seq![65u8, 112u8, 114u8]);
        }
        r
    } else if kind == 2 && i == 4 {
        let r: &'static [u8] = &[77, 97, 121];
        proof {
            assert(r@ =~= seq![77u8, 97u8, 121u8]);
        }
        r
    } else if kind == 2 && i == 5 {
        let r: &'static [u8] = &[74, 117, 110];
        proof {
            assert(r@ =~= seq![74u8, 117u8, 110u8]);
        }
        r
    } else if kind == 2 && i == 6 {
        let r: &'static [u8] = &[74, 117, 108];
        proof {
            assert(r@ =~= seq![74u8, 117u8, 108u8]);
        }
        r
    } else if kind == 2 && i == 7 {
        let r: &'static [u8] = &[65, 117, 103];
        proof {
            assert(r@ =~= seq![65u8, 117u8, 103u8]);
        }
        r
    } else if kind == 2 && i == 8 {
        let r: &'static [u8] = &[83, 101, 112];
        proof {
            assert(r@ =~= seq![83u8, 101u8, 112u8]);
        }
        r
    } else if kind == 2 && i == 9 {
        let r: &'static [u8] = &[79, 99, 116];
        proof {
            assert(r@ =~= seq![79u8, 99u8, 116u8]);
        }
        r
    } else if kind == 2 && i == 10 {
        let r: &'static [u8] = &[78, 111, 118];
        proof {
            assert(r@ =~= seq![78u8, 111u8, 118u8]);
        }
        r
    } else if kind == 2 && i == 11 {
        let r: &'static [u8] = &[68, 101, 99];
        proof {
            assert(r@ =~= seq![68u8, 101u8, 99u8]);
        }
        r
    } else if kind == 3 && i == 0 {
        let r: &'static [u8] = &[74, 97, 110, 117, 97, 114, 121];
        proof {
            assert(r@ =~= seq![74u8, 97u8, 110u8, 117u8, 97u8, 114u8, 121u8]);
        }
        r
    } else if kind == 3 && i == 1 {
        let r: &'static [u8] = &[70, 101, 98, 114, 117, 97, 114, 121];
        proof {
            assert(r@ =~= seq![70u8, 101u8, 98u8, 114u8, 117u8, 97u8, 114u8, 121u8]);
        }
        r
    } else if kind == 3 && i == 2 {
        let r: &'static [u8] = &[77, 97, 114, 99, 104];
        proof {
            assert(r@ =~= seq![77u8, 97u8, 114u8, 99u8, 104u8]);
        }
        r
    } else if kind == 3 && i == 3 {
        let r: &'static [u8] = &[65, 112, 114, 105, 108];
        proof {
            assert(r@ =~= seq![65u8, 112u8, 114u8, 105u8, 108u8]);
        }
        r
    } else if kind == 3 && i == 4 {
        let r: &'static [u8] = &[77, 97, 121];
        proof {
            assert(r@ =~= seq![77u8, 97u8, 121u8]);
        }
        r
    } else if kind == 3 && i == 5 {
        let r: &'static [u8] = &[74, 117, 110, 101];
        proof {
            assert(r@ =~= seq![74u8, 117u8, 110u8, 101u8]);
        }
        r
    } else if kind == 3 && i == 6 {
        let r: &'static [u8] = &[74, 117, 108, 121];
        proof {
            assert(r@ =~= seq![74u8, 117u8, 108u8, 121u8]);
        }
        r
    } else if kind == 3 && i == 7 {
        let r: &'static [u8] = &[65, 117, 103, 117, 115, 116];
        proof {
            assert(r@ =~= seq![65u8, 117u8, 103u8, 117u8, 115u8, 116u8]);
        }
        r
    } else if kind == 3 && i == 8 {
        let r: &'static [u8] = &[83, 101, 112, 116, 101, 109, 98, 101, 114];
        proof {
            assert(r@ =~= seq![83u8, 101u8, 112u8, 116u8, 101u8, 109u8, 98u8, 101u8, 114u8]);
        }
        r
    } else if kind == 3 && i == 9 {
        let r: &'static [u8] = &[79, 99, 116, 111, 98, 101, 114];
        proof {
            assert(r@ =~= seq![79u8, 99u8, 116u8, 111u8, 98u8, 101u8, 114u8]);
        }
        r
    } else if kind == 3 && i == 10 {
        let r: &'static [u8] = &[78, 111, 118, 101, 109, 98, 101, 114];
        proof {
            assert(r@ =~= seq![78u8, 111u8, 118u8, 101u8, 109u8, 98u8, 101u8, 114u8]);
        }
        r
    } else if kind == 3 && i == 11 {
        let r: &'static [u8] = &[68, 101, 99, 101, 109, 98, 101, 114];
        proof {
            assert(r@ =~= seq![68u8, 101u8, 99u8, 101u8, 109u8, 98u8, 101u8, 114u8]);
        }
        r
    } else {
        let r: &'static [u8] = &[];
        proof {
            assert(r@ =~= Seq::<u8>::empty());
        }
        r
    }
}

/// The first of the first `n` names of a kind that the input continues with.
pub open spec fn first_full_name(s: Seq<u8>, p: int, kind: int, n: nat) -> Option<int>
    decreases n,
{
    if n == 0 {
        None
    } else {
        match first_full_name(s, p, kind, (n - 1) as nat) {
            Some(i) => Some(i),
            None => if crate::fmt::prefix_len(s, p, name_bytes(kind, n - 1)) == name_bytes(kind, n - 1).len() {
                Some(n - 1)
            } else {
                None
            },
        }
    }
}

/// The most bytes that the input continues with of any of the first `n` names of a kind.
pub open spec fn longest_prefix(s: Seq<u8>, p: int, kind: int, n: nat) -> int
    decreases n,
{
    if n == 0 {
        0
    } else {
        let a = longest_prefix(s, p, kind, (n - 1) as nat);
        let b = crate::fmt::prefix_len(s, p, name_bytes(kind, n - 1));
        if a >= b {
            a
        } else {
            b
        }
    }
}

/// The outcome of reading one of the names of a kind: its index, or the error at the
/// first byte that continues none of the names (or the end of the input there).
pub open spec fn spec_match_name(s: Seq<u8>, p: int, kind: int) -> (Result<int, ParseError>, int) {
    let n = name_count(kind) as nat;
    match first_full_name(s, p, kind, n) {
        Some(i) => (Ok(i), p + name_bytes(kind, i).len()),
        None => {
            let k = longest_prefix(s, p, kind, n);
            if p + k >= s.len() {
                (Err(ParseError::UnexpectedEnd), p)
            } else {
                (Err(ParseError::UnexpectedChar(s[p + k] as char)), p)
            }
        },
    }
}

/// The weekday with the given number of days after Monday.
pub open spec fn weekday_from_monday_index(i: int) -> Weekday {
    weekday_from_sunday_index((i + 1) % 7)
}

/// Returns the weekday with the given number of days after Monday.
fn weekday_after_monday(i: usize) -> (r: Weekday)
    requires
        i < 7,
    ensures
        r == weekday_from_monday_index(i as int),
{
    match i {
        0 => Weekday::Monday,
        1 => Weekday::Tuesday,
        2 => Weekday::Wednesday,
        3 => Weekday::Thursday,
        4 => Weekday::Friday,
        5 => Weekday::Saturday,
        _ => Weekday::Sunday,
    }
}

impl<'a> Parser<'a> {
    /// Reads one of the names of a kind, returning its index.
    fn match_name(&mut self, kind: usize) -> (r: Result<usize, ParseError>)
        requires
            kind <= 3,
        ensures
            final(self)@.0 == old(self)@.0,
            match spec_match_name(old(self)@.0, old(self)@.1, kind as int) {
                (Ok(i), q) => r == Ok::<usize, ParseError>(i as usize) && final(self)@.1 == q,
                (Err(e), _) => r == Err::<usize, ParseError>(e),
            },
            r matches Ok(i) ==> i < name_count(kind as int),
            spec_match_name(old(self)@.0, old(self)@.1, kind as int).0 matches Ok(i) ==> 0 <= i < name_count(
                kind as int,
            ),
    {
        proof {
            lemma_first_full_range(self@.0, self@.1, kind as int, name_count(kind as int) as nat);
        }
        let _ = self.position();
        let ghost s = self@.0;
        let ghost p = self@.1;
        let n: usize = if kind <= 1 {
            7
        } else {
            12
        };
        let mut best: usize = 0;
        let mut i: usize = 0;
        while i < n
            invariant
                self@ == (s, p),
                s == old(self)@.0,
                p == old(self)@.1,
                n == name_count(kind as int),
                i <= n,
                first_full_name(s, p, kind as int, i as nat) is None,
                best == longest_prefix(s, p, kind as int, i as nat),
                p + best <= s.len(),
            decreases n - i,
        {
            let name = name_slice(kind, i);
            let k = self.matched_prefix(name);
            if k == name.len() {
                proof {
                    assert(first_full_name(s, p, kind as int, (i + 1) as nat) == Some(i as int));
                    lemma_first_full_stays(s, p, kind as int, (i + 1) as nat, n as nat);
                }
                let _ = self.advance_by(k);
                return Ok(i);
            }
            if k > best {
                best = k;
            }
            i = i + 1;
        }
        let pos = self.position();
        let len = self.len();
        if pos + best >= len {
            Err(ParseError::UnexpectedEnd)
        } else {
            let b = self.byte(pos + best);
            Err(ParseError::UnexpectedChar(b as char))
        }
    }
}

/// The first full match among the first `n` names is one of them.
proof fn lemma_first_full_range(s: Seq<u8>, p: int, kind: int, n: nat)
    ensures
        first_full_name(s, p, kind, n) matches Some(i) ==> 0 <= i < n,
    decreases n,
{
    if n > 0 {
        lemma_first_full_range(s, p, kind, (n - 1) as nat);
    }
}

/// Once a name of a kind fully matches, it stays the first one that does.
proof fn lemma_first_full_stays(s: Seq<u8>, p: int, kind: int, m: nat, n: nat)
    requires
        m <= n,
        first_full_name(s, p, kind, m) is Some,
    ensures
        first_full_name(s, p, kind, n) == first_full_name(s, p, kind, m),
    decreases n - m,
{
    if m < n {
        lemma_first_full_stays(s, p, kind, m, (n - 1) as nat);
    }
}

/// The builder with a component replaced.
pub open spec fn set_year(b: BuilderView, v: int) -> BuilderView {
    (Some(v), b.1, b.2, b.3, b.4, b.5, b.6, b.7, b.8, b.9, b.10, b.11)
}

/// The builder with a component replaced.
pub open spec fn set_month(b: BuilderView, v: int) -> BuilderView {
    (b.0, v, b.2, b.3, b.4, b.5, b.6, b.7, b.8, b.9, b.10, b.11)
}

/// The builder with a component replaced.
pub open spec fn set_day(b: BuilderView, v: int) -> BuilderView {
    (b.0, b.1, v, b.3, b.4, b.5, b.6, b.7, b.8, b.9, b.10, b.11)
}

/// The builder with a component replaced.
pub open spec fn set_ordinal(b: BuilderView, v: int) -> BuilderView {
    (b.0, b.1, b.2, Some(v), b.4, b.5, b.6, b.7, b.8, b.9, b.10, b.11)
}

/// The builder with a component replaced.
pub open spec fn set_iso_week(b: BuilderView, v: int) -> BuilderView {
    (b.0, b.1, b.2, b.3, Some(v), b.5, b.6, b.7, b.8, b.9, b.10, b.11)
}

/// The builder with a component replaced.
pub open spec fn set_weekday(b: BuilderView, v: Weekday) -> BuilderView {
    (b.0, b.1, b.2, b.3, b.4, Some(v), b.6, b.7, b.8, b.9, b.10, b.11)
}

/// The builder with a component replaced.
pub open spec fn set_pm(b: BuilderView, v: bool) -> BuilderView {
    (b.0, b.1, b.2, b.3, b.4, b.5, Some(v), b.7, b.8, b.9, b.10, b.11)
}

/// The builder with a component replaced.
pub open spec fn set_hour(b: BuilderView, v: int) -> BuilderView {
    (b.0, b.1, b.2, b.3, b.4, b.5, b.6, v, b.8, b.9, b.10, b.11)
}

/// The builder with a component replaced.
pub open spec fn set_minute(b: BuilderView, v: int) -> BuilderView {
    (b.0, b.1, b.2, b.3, b.4, b.5, b.6, b.7, v, b.9, b.10, b.11)
}

/// The builder with a component replaced.
pub open spec fn set_second(b: BuilderView, v: int) -> BuilderView {
    (b.0, b.1, b.2, b.3, b.4, b.5, b.6, b.7, b.8, v, b.10, b.11)
}

/// The builder with a component replaced.
pub open spec fn set_nanosecond(b: BuilderView, v: int) -> BuilderView {
    (b.0, b.1, b.2, b.3, b.4, b.5, b.6, b.7, b.8, b.9, v, b.11)
}

/// The builder with a component replaced.
pub open spec fn set_offset(b: BuilderView, v: (int, int, int)) -> BuilderView {
    (b.0, b.1, b.2, b.3, b.4, b.5, b.6, b.7, b.8, b.9, b.10, v)
}

/// The builder after reading a number of up to `max` digits into a component with `set`.
pub open spec fn read_number(
    s: Seq<u8>,
    p: int,
    max: int,
    b: BuilderView,
    set: spec_fn(BuilderView, int) -> BuilderView,
) -> (Result<BuilderView, ParseError>, int) {
    let (r, q) = spec_digits(s, p, max);
    match r {
        Ok(v) => (Ok(set(b, v)), q),
        Err(e) => (Err(e), q),
    }
}

/// The offset that hours, minutes and seconds read after a sign give, negated under
/// a `-`, or `None` when they are out of range.
pub open spec fn offset_of(negative: bool, h: int, m: int, s: int) -> Option<(int, int, int)> {
    let n = spec_normalized_hms(h, m, s);
    let total = n.0 * 3600 + n.1 * 60 + n.2;
    if -24 <= h <= 24 && -59 <= m <= 59 && -59 <= s <= 59 && -86400 <= total <= 86400 {
        let c = spec_offset_components(total);
        Some(if negative { (-c.0, -c.1, -c.2) } else { c })
    } else {
        None
    }
}

/// The outcome of reading an offset `±HH:MM[:SS]`, or `±HHMM[SS]` when `brief`.
pub open spec fn spec_offset(s: Seq<u8>, p: int, brief: bool) -> (Result<(int, int, int), ParseError>, int) {
    let (rs, p1) = spec_required_sign(s, p);
    match rs {
        Err(e) => (Err(e), p1),
        Ok(negative) => {
            let (rh, p2) = spec_fixed_digits(s, p1, 2);
            match rh {
                Err(e) => (Err(e), p2),
                Ok(h) => {
                    let (rc, p3) = if brief {
                        (Ok(58int), p2)
                    } else {
                        spec_expect(s, p2, 58u8)
                    };
                    match rc {
                        Err(e) => (Err(e), p3),
                        Ok(_) => {
                            let (rm, p4) = spec_fixed_digits(s, p3, 2);
                            match rm {
                                Err(e) => (Err(e), p4),
                                Ok(m) => {
                                    let has_seconds = if brief {
                                        byte_at(s, p4) matches Some(c) && crate::fmt::is_digit(c)
                                    } else {
                                        byte_at(s, p4) == Some(58u8)
                                    };
                                    let (rsec, p5) = if !has_seconds {
                                        (Ok(0int), p4)
                                    } else if brief {
                                        spec_fixed_digits(s, p4, 2)
                                    } else {
                                        spec_fixed_digits(s, p4 + 1, 2)
                                    };
                                    match rsec {
                                        Err(e) => (Err(e), p5),
                                        Ok(sec) => match offset_of(negative, h, m, sec) {
                                            Some(o) => (Ok(o), p5),
                                            None => (Err(ParseError::OutOfBounds), p5),
                                        },
                                    }
                                },
                            }
                        },
                    }
                },
            }
        },
    }
}

/// The outcome of reading the text of a fragment of a format specification into the
/// components of a builder: the new components and the position after the text.
pub open spec fn spec_parse_into(f: FormatSpec, b: BuilderView, s: Seq<u8>, p: int) -> (
    Result<BuilderView, ParseError>,
    int,
) {
    match f@.0 {
        FormatSpecKind::Raw(x) => match spec_expect_str(s, p, x.spec_bytes()) {
            Ok(_) => (Ok(b), p + x.spec_bytes().len()),
            Err(e) => (Err(e), p),
        },
        FormatSpecKind::AbbreviatedWeekday => match spec_match_name(s, p, 0) {
            (Ok(i), q) => (Ok(set_weekday(b, weekday_from_monday_index(i))), q),
            (Err(e), q) => (Err(e), q),
        },
        FormatSpecKind::FullWeekday => match spec_match_name(s, p, 1) {
            (Ok(i), q) => (Ok(set_weekday(b, weekday_from_monday_index(i))), q),
            (Err(e), q) => (Err(e), q),
        },
        FormatSpecKind::Weekday => match spec_fixed_digits(s, p, 1) {
            (Ok(d), q) => if d <= 6 {
                (Ok(set_weekday(b, weekday_from_sunday_index(d))), q)
            } else {
                (Err(ParseError::OutOfBounds), q)
            },
            (Err(e), q) => (Err(e), q),
        },
        FormatSpecKind::IsoWeekday => match spec_fixed_digits(s, p, 1) {
            (Ok(d), q) => if 1 <= d <= 7 {
                (Ok(set_weekday(b, weekday_from_monday_index(d - 1))), q)
            } else {
                (Err(ParseError::OutOfBounds), q)
            },
            (Err(e), q) => (Err(e), q),
        },
        FormatSpecKind::Day => read_number(s, p, 2, b, |b: BuilderView, v: int| set_day(b, v)),
        FormatSpecKind::Ordinal => read_number(s, p, 3, b, |b: BuilderView, v: int| set_ordinal(b, v)),
        FormatSpecKind::AbbreviatedMonth => match spec_match_name(s, p, 2) {
            (Ok(i), q) => (Ok(set_month(b, i + 1)), q),
            (Err(e), q) => (Err(e), q),
        },
        FormatSpecKind::FullMonth => match spec_match_name(s, p, 3) {
            (Ok(i), q) => (Ok(set_month(b, i + 1)), q),
            (Err(e), q) => (Err(e), q),
        },
        FormatSpecKind::Month => read_number(s, p, 2, b, |b: BuilderView, v: int| set_month(b, v)),
        FormatSpecKind::IsoWeek => read_number(s, p, 2, b, |b: BuilderView, v: int| set_iso_week(b, v)),
        FormatSpecKind::Hour => read_number(s, p, 2, b, |b: BuilderView, v: int| set_hour(b, v)),
        FormatSpecKind::Hour12 => read_number(s, p, 2, b, |b: BuilderView, v: int| set_hour(b, v)),
        FormatSpecKind::Minute => read_number(s, p, 2, b, |b: BuilderView, v: int| set_minute(b, v)),
        FormatSpecKind::Second => read_number(s, p, 2, b, |b: BuilderView, v: int| set_second(b, v)),
        FormatSpecKind::Nanosecond => match spec_fraction(s, p, 9) {
            (Ok(v), q) => (Ok(set_nanosecond(b, v)), q),
            (Err(e), q) => (Err(e), q),
        },
        FormatSpecKind::Meridiem => {
            let c1 = byte_at(s, p);
            let c2 = byte_at(s, p + 1);
            if c1 == Some(97u8) || c1 == Some(65u8) || c1 == Some(112u8) || c1 == Some(80u8) {
                if c2 == Some(109u8) || c2 == Some(77u8) {
                    (Ok(set_pm(b, c1 == Some(112u8) || c1 == Some(80u8))), p + 2)
                } else if c2 is Some {
                    (Err(ParseError::UnexpectedChar(c2->0 as char)), p + 2)
                } else {
                    (Err(ParseError::UnexpectedEnd), p + 1)
                }
            } else if c1 is Some {
                (Err(ParseError::UnexpectedChar(c1->0 as char)), p + 1)
            } else {
                (Err(ParseError::UnexpectedEnd), p)
            }
        },
        FormatSpecKind::UtcOffset => match spec_offset(s, p, false) {
            (Ok(o), q) => (Ok(set_offset(b, o)), q),
            (Err(e), q) => (Err(e), q),
        },
        FormatSpecKind::UtcOffsetBrief => match spec_offset(s, p, true) {
            (Ok(o), q) => (Ok(set_offset(b, o)), q),
            (Err(e), q) => (Err(e), q),
        },
        FormatSpecKind::ZoneName => (Err(ParseError::UnsupportedSpecifier), p),
        FormatSpecKind::Escape => match spec_expect(s, p, 37u8) {
            (Ok(_), q) => (Ok(b), q),
            (Err(e), q) => (Err(e), q),
        },
        _ => {
            let (negative, p1) = spec_sign(s, p);
            let (r, q) = spec_digits(s, p1, 5);
            match r {
                Err(e) => (Err(e), q),
                Ok(v) => if v > 32767 {
                    (Err(ParseError::OutOfBounds), q)
                } else {
                    (Ok(set_year(b, if negative { -v } else { v })), q)
                },
            }
        },
    }
}

impl<'a> FormatSpec<'a> {
    /// Reads the text of this fragment of a format specification from a parser into
    /// the components of a builder.
    ///
    /// Numbers need no zero padding; the modifiers are ignored. Names are matched
    /// exactly, with their case. On an error the builder is left as it was.
    pub fn parse_into(&self, builder: &mut Builder, parser: &mut Parser) -> (r: Result<(), ParseError>)
        ensures
            final(parser)@.0 == old(parser)@.0,
            match spec_parse_into(*self, old(builder)@, old(parser)@.0, old(parser)@.1) {
                (Ok(b), q) => r is Ok && final(builder)@ == b && final(parser)@.1 == q,
                (Err(e), _) => r == Err::<(), ParseError>(e) && final(builder)@ == old(builder)@,
            },
    {
        match self.kind() {
            FormatSpecKind::Raw(x) => {
                parser.expect_str(x.as_bytes())?;
                Ok(())
            },
            FormatSpecKind::AbbreviatedWeekday | FormatSpecKind::FullWeekday | FormatSpecKind::Weekday
            | FormatSpecKind::IsoWeekday => self.parse_weekday_into(builder, parser),
            FormatSpecKind::AbbreviatedMonth | FormatSpecKind::FullMonth => self.parse_month_name_into(
                builder,
                parser,
            ),
            FormatSpecKind::Day | FormatSpecKind::Ordinal | FormatSpecKind::Month | FormatSpecKind::IsoWeek
            | FormatSpecKind::Hour | FormatSpecKind::Hour12 | FormatSpecKind::Minute | FormatSpecKind::Second
            | FormatSpecKind::Nanosecond => self.parse_number_into(builder, parser),
            FormatSpecKind::Meridiem => self.parse_meridiem_into(builder, parser),
            FormatSpecKind::UtcOffset => {
                let offset = parse_offset(parser, false)?;
                builder.set_offset(offset);
                Ok(())
            },
            FormatSpecKind::UtcOffsetBrief => {
                let offset = parse_offset(parser, true)?;
                builder.set_offset(offset);
                Ok(())
            },
            FormatSpecKind::ZoneName => Err(ParseError::UnsupportedSpecifier),
            FormatSpecKind::Escape => {
                parser.expect(37u8)?;
                Ok(())
            },
            _ => {
                let negative = parser.parse_sign();
                let year = parser.parse_up_to(5)?;
                if year > 32767 {
                    return Err(ParseError::OutOfBounds);
                }
                let year = year as i16;
                builder.year(if negative { -year } else { year });
                Ok(())
            },
        }
    }

    /// Reads a weekday name or number.
    fn parse_weekday_into(&self, builder: &mut Builder, parser: &mut Parser) -> (r: Result<(), ParseError>)
        requires
            self@.0 is AbbreviatedWeekday || self@.0 is FullWeekday || self@.0 is Weekday || self@.0 is IsoWeekday,
        ensures
            final(parser)@.0 == old(parser)@.0,
            match spec_parse_into(*self, old(builder)@, old(parser)@.0, old(parser)@.1) {
                (Ok(b), q) => r is Ok && final(builder)@ == b && final(parser)@.1 == q,
                (Err(e), _) => r == Err::<(), ParseError>(e) && final(builder)@ == old(builder)@,
            },
    {
        let weekday = match self.kind() {
            FormatSpecKind::AbbreviatedWeekday => weekday_after_monday(parser.match_name(0)?),
            FormatSpecKind::FullWeekday => weekday_after_monday(parser.match_name(1)?),
            FormatSpecKind::Weekday => match parser.parse_digit()? {
                0 => Weekday::Sunday,
                1 => Weekday::Monday,
                2 => Weekday::Tuesday,
                3 => Weekday::Wednesday,
                4 => Weekday::Thursday,
                5 => Weekday::Friday,
                6 => Weekday::Saturday,
                _ => {
                    return Err(ParseError::OutOfBounds);
                },
            },
            _ => {
                let digit = parser.parse_digit()?;
                if digit < 1 || digit > 7 {
                    return Err(ParseError::OutOfBounds);
                }
                weekday_after_monday((digit - 1) as usize)
            },
        };
        builder.weekday(weekday);
        Ok(())
    }

    /// Reads a month name.
    fn parse_month_name_into(&self, builder: &mut Builder, parser: &mut Parser) -> (r: Result<(), ParseError>)
        requires
            self@.0 is AbbreviatedMonth || self@.0 is FullMonth,
        ensures
            final(parser)@.0 == old(parser)@.0,
            match spec_parse_into(*self, old(builder)@, old(parser)@.0, old(parser)@.1) {
                (Ok(b), q) => r is Ok && final(builder)@ == b && final(parser)@.1 == q,
                (Err(e), _) => r == Err::<(), ParseError>(e) && final(builder)@ == old(builder)@,
            },
    {
        let i = if let FormatSpecKind::AbbreviatedMonth = self.kind() {
            parser.match_name(2)?
        } else {
            parser.match_name(3)?
        };
        builder.month((i + 1) as u8);
        Ok(())
    }

    /// Reads a number into a day, ordinal, month, ISO week, hour, minute, second or nanosecond.
    fn parse_number_into(&self, builder: &mut Builder, parser: &mut Parser) -> (r: Result<(), ParseError>)
        requires
            self@.0 is Day || self@.0 is Ordinal || self@.0 is Month || self@.0 is IsoWeek || self@.0 is Hour
                || self@.0 is Hour12 || self@.0 is Minute || self@.0 is Second || self@.0 is Nanosecond,
        ensures
            final(parser)@.0 == old(parser)@.0,
            match spec_parse_into(*self, old(builder)@, old(parser)@.0, old(parser)@.1) {
                (Ok(b), q) => r is Ok && final(builder)@ == b && final(parser)@.1 == q,
                (Err(e), _) => r == Err::<(), ParseError>(e) && final(builder)@ == old(builder)@,
            },
    {
        proof {
            reveal_with_fuel(crate::fmt::pow10, 4);
        }
        match self.kind() {
            FormatSpecKind::Ordinal => {
                let ordinal = parser.parse_u16(3)?;
                builder.ordinal(ordinal);
            },
            FormatSpecKind::Nanosecond => {
                let nanos = parser.parse_nanoseconds()?;
                builder.nanosecond(nanos);
            },
            kind => {
                let v = parser.parse_u16(2)? as u8;
                match kind {
                    FormatSpecKind::Day => {
                        builder.day(v);
                    },
                    FormatSpecKind::Month => {
                        builder.month(v);
                    },
                    FormatSpecKind::IsoWeek => {
                        builder.iso_week(v);
                    },
                    FormatSpecKind::Minute => {
                        builder.minute(v);
                    },
                    FormatSpecKind::Second => {
                        builder.second(v);
                    },
                    _ => {
                        builder.hour(v);
                    },
                }
            },
        }
        Ok(())
    }

    /// Reads a meridiem `AM` or `PM`, in either case.
    fn parse_meridiem_into(&self, builder: &mut Builder, parser: &mut Parser) -> (r: Result<(), ParseError>)
        requires
            self@.0 is Meridiem,
        ensures
            final(parser)@.0 == old(parser)@.0,
            match spec_parse_into(*self, old(builder)@, old(parser)@.0, old(parser)@.1) {
                (Ok(b), q) => r is Ok && final(builder)@ == b && final(parser)@.1 == q,
                (Err(e), _) => r == Err::<(), ParseError>(e) && final(builder)@ == old(builder)@,
            },
    {
        match parser.advance() {
            Some(c) => if c == 97u8 || c == 65u8 || c == 112u8 || c == 80u8 {
                match parser.advance() {
                    Some(c2) => if c2 == 109u8 || c2 == 77u8 {
                        if c == 112u8 || c == 80u8 {
                            builder.pm();
                        } else {
                            builder.am();
                        }
                        Ok(())
                    } else {
                        Err(ParseError::UnexpectedChar(c2 as char))
                    },
                    None => Err(ParseError::UnexpectedEnd),
                }
            } else {
                Err(ParseError::UnexpectedChar(c as char))
            },
            None => Err(ParseError::UnexpectedEnd),
        }
    }
}

/// Reads an offset `±HH:MM[:SS]`, or `±HHMM[SS]` when `brief`.
fn parse_offset(parser: &mut Parser, brief: bool) -> (r: Result<UtcOffset, ParseError>)
    ensures
        final(parser)@.0 == old(parser)@.0,
        match spec_offset(old(parser)@.0, old(parser)@.1, brief) {
            (Ok(o), q) => r matches Ok(x) && x@ == o && final(parser)@.1 == q,
            (Err(e), _) => r == Err::<UtcOffset, ParseError>(e),
        },
{
    let negative = parser.parse_required_sign()?;
    let hour = parser.parse_two_digits()?;
    if !brief {
        parser.expect(58u8)?;
    }
    let minute = parser.parse_two_digits()?;
    let has_seconds = if brief {
        match parser.peek() {
            Some(c) => c >= 48u8 && c <= 57u8,
            None => false,
        }
    } else {
        parser.advance_if_equal(58u8).is_some()
    };
    let second = if has_seconds {
        parser.parse_two_digits()?
    } else {
        0
    };
    match UtcOffset::from_hms(hour as i8, minute as i8, second as i8) {
        Some(offset) => if negative {
            Ok(offset.neg())
        } else {
            Ok(offset)
        },
        None => Err(ParseError::OutOfBounds),
    }
}

} // verus!
