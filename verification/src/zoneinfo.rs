//! Time zones of the IANA database, read from TZif data (RFC 8536, versions 1 to 3).
//!
//! A TZif file holds a header, the transition times and the local time types they
//! switch to, and, from version 2 on, a second copy of all of it with 64-bit times
//! followed by a POSIX rule string for the times after the last transition.
use vstd::prelude::*;
use vstd::string::StringSliceAdditionalSpecFns;

use crate::date::Date;
use crate::datetime::{spec_compare_instants, DateTime};
use crate::posix::{
    spec_local_seconds, spec_name_at, spec_offset_at, spec_partial_resolution, spec_posix, utc_year,
    DstTransitionRule, NaiveTimestamp, PosixTimeZone,
};
use crate::time::Time;
use crate::timestamp::Timestamp;
use crate::timezone::{DateTimeResolution, DateTimeResolutionKind};
use crate::timezone::UtcOffset;
use crate::tzerror::ParseError;

verus! {

// ---------------------------------------------------------------------------
// Big-endian integers
// ---------------------------------------------------------------------------

/// The unsigned value of the `n` bytes at position `p`, most significant first.
pub open spec fn be_unsigned(s: Seq<u8>, p: int, n: nat) -> int
    decreases n,
{
    if n == 0 {
        0
    } else {
        be_unsigned(s, p, (n - 1) as nat) * 256 + s[p + n - 1]
    }
}

/// `256` to the power `n`.
pub open spec fn pow256(n: nat) -> int
    decreases n,
{
    if n == 0 {
        1
    } else {
        pow256((n - 1) as nat) * 256
    }
}

/// The two's complement value of 4 or 8 bytes at position `p`, most significant first.
pub open spec fn be_signed(s: Seq<u8>, p: int, n: nat) -> int {
    let u = be_unsigned(s, p, n);
    if u * 2 >= pow256(n) {
        u - pow256(n)
    } else {
        u
    }
}

/// The unsigned value of `n` bytes lies below `256^n`.
proof fn lemma_be_unsigned_bound(s: Seq<u8>, p: int, n: nat)
    requires
        0 <= p,
        p + n <= s.len(),
    ensures
        0 <= be_unsigned(s, p, n) < pow256(n),
    decreases n,
{
    if n > 0 {
        lemma_be_unsigned_bound(s, p, (n - 1) as nat);
        let prev = be_unsigned(s, p, (n - 1) as nat);
        let b = s[p + n - 1] as int;
        let q = pow256((n - 1) as nat);
        assert(0 <= prev * 256 + b < q * 256) by (nonlinear_arith)
            requires
                0 <= prev < q,
                0 <= b < 256,
        ;
    }
}

/// The powers of 256 that bound 4 and 8 bytes.
proof fn lemma_pow256_values()
    ensures
        pow256(4) == 0x1_0000_0000,
        pow256(8) == 0x1_0000_0000_0000_0000,
        forall|i: nat| i <= 7 ==> #[trigger] pow256(i) <= 0x100_0000_0000_0000,
{
    reveal_with_fuel(pow256, 9);
    assert forall|i: nat| i <= 7 implies #[trigger] pow256(i) <= 0x100_0000_0000_0000 by {
        reveal_with_fuel(pow256, 9);
    }
}

/// Reads `n` bytes at position `p` as an unsigned big-endian number.
fn read_be_unsigned(data: &[u8], p: usize, n: usize) -> (r: u64)
    requires
        n <= 8,
        p + n <= data@.len(),
    ensures
        r == be_unsigned(data@, p as int, n as nat),
{
    let mut acc: u64 = 0;
    let mut i: usize = 0;
    let len = data.len();
    while i < n
        invariant
            len == data@.len(),
            i <= n <= 8,
            p + n <= data@.len(),
            acc == be_unsigned(data@, p as int, i as nat),
        decreases n - i,
    {
        proof {
            lemma_be_unsigned_bound(data@, p as int, i as nat);
            lemma_pow256_values();
            assert(pow256(i as nat) <= 0x100_0000_0000_0000);
        }
        acc = acc * 256 + data[p + i] as u64;
        i = i + 1;
    }
    acc
}

/// Reads a big-endian `u32` at position `p`.
fn read_u32(data: &[u8], p: usize) -> (r: u32)
    requires
        p + 4 <= data@.len(),
    ensures
        r == be_unsigned(data@, p as int, 4),
{
    proof {
        lemma_be_unsigned_bound(data@, p as int, 4);
        lemma_pow256_values();
    }
    read_be_unsigned(data, p, 4) as u32
}

/// Reads a big-endian `i32` at position `p`.
fn read_i32(data: &[u8], p: usize) -> (r: i32)
    requires
        p + 4 <= data@.len(),
    ensures
        r == be_signed(data@, p as int, 4),
{
    proof {
        lemma_be_unsigned_bound(data@, p as int, 4);
        lemma_pow256_values();
    }
    let u = read_be_unsigned(data, p, 4);
    if u >= 0x8000_0000 {
        (u as i64 - 0x1_0000_0000) as i32
    } else {
        u as i32
    }
}

/// Reads a big-endian `i64` at position `p`.
fn read_i64(data: &[u8], p: usize) -> (r: i64)
    requires
        p + 8 <= data@.len(),
    ensures
        r == be_signed(data@, p as int, 8),
{
    proof {
        lemma_be_unsigned_bound(data@, p as int, 8);
        lemma_pow256_values();
    }
    let u = read_be_unsigned(data, p, 8);
    if u >= 0x8000_0000_0000_0000 {
        ((u - 0x8000_0000_0000_0000) as i64) - 0x4000_0000_0000_0000 - 0x4000_0000_0000_0000
    } else {
        u as i64
    }
}

// ---------------------------------------------------------------------------
// UTF-8 text
// ---------------------------------------------------------------------------

/// Calls `std::str::from_utf8`, which returns the bytes as a string slice when they
/// are well-formed UTF-8 (no overlong encodings, no surrogates) and fails otherwise;
/// the string it returns has exactly the given bytes.
#[verifier::external_body]
fn str_from_utf8(bytes: &[u8]) -> (r: Option<&str>)
    ensures
        r is Some <==> vstd::utf8::valid_utf8(bytes@),
        r matches Some(s) ==> s.spec_bytes() == bytes@,
{
    std::str::from_utf8(bytes).ok()
}

// ---------------------------------------------------------------------------
// The header
// ---------------------------------------------------------------------------

/// The header of a TZif data block: its version and the counts of what follows.
#[derive(Debug, Clone, Copy, PartialEq, Eq, Structural, PartialOrd, Ord, Hash)]
pub struct Header {
    /// The version of the TZif data, `1` to `3`.
    pub version: u8,
    /// The number of UTC/local indicators (`isutcnt`).
    pub utc_locals_count: u32,
    /// The number of standard/wall indicators (`isstdcnt`).
    pub std_count: u32,
    /// The number of leap second records (`leapcnt`).
    pub leaps: u32,
    /// The number of transitions (`timecnt`).
    pub transitions: u32,
    /// The number of local time types (`typecnt`).
    pub types: u32,
    /// The number of bytes of abbreviations (`charcnt`).
    pub abbr_size: u32,
}

/// The header at position `p`: the magic `TZif`, a version byte (`0`, `2` or `3`),
/// fifteen unused bytes and six big-endian counts.
pub open spec fn spec_header(s: Seq<u8>, p: int) -> Result<Header, ParseError> {
    if p < 0 || p + 44 > s.len() {
        Err(ParseError::UnexpectedEnd)
    } else if !(s[p] == 84u8 && s[p + 1] == 90u8 && s[p + 2] == 105u8 && s[p + 3] == 102u8) {
        Err(ParseError::InvalidMagic)
    } else if !(s[p + 4] == 0u8 || s[p + 4] == 50u8 || s[p + 4] == 51u8) {
        Err(ParseError::UnsupportedVersion)
    } else {
        Ok(
            Header {
                version: if s[p + 4] == 0u8 {
                    1u8
                } else if s[p + 4] == 50u8 {
                    2u8
                } else {
                    3u8
                },
                utc_locals_count: be_unsigned(s, p + 20, 4) as u32,
                std_count: be_unsigned(s, p + 24, 4) as u32,
                leaps: be_unsigned(s, p + 28, 4) as u32,
                transitions: be_unsigned(s, p + 32, 4) as u32,
                types: be_unsigned(s, p + 36, 4) as u32,
                abbr_size: be_unsigned(s, p + 40, 4) as u32,
            },
        )
    }
}

impl Header {
    /// The number of bytes of the data block with 32-bit times that follows a header.
    pub open spec fn spec_version_one_length(self) -> int {
        self.transitions * 5 + self.types * 6 + self.abbr_size + self.leaps * 8 + self.std_count
            + self.utc_locals_count
    }

    /// The width in bytes of a transition time: 4 in version 1 and 8 after it.
    pub open spec fn time_width(self) -> int {
        if self.version == 1 {
            4
        } else {
            8
        }
    }

    /// Reads a header at position `p`.
    pub fn from_bytes(data: &[u8], p: usize) -> (r: Result<Header, ParseError>)
        ensures
            r == spec_header(data@, p as int),
    {
        if p > data.len() || data.len() - p < 44 {
            return Err(ParseError::UnexpectedEnd);
        }
        if !(data[p] == 84u8 && data[p + 1] == 90u8 && data[p + 2] == 105u8 && data[p + 3] == 102u8) {
            return Err(ParseError::InvalidMagic);
        }
        let version: u8 = if data[p + 4] == 0u8 {
            1
        } else if data[p + 4] == 50u8 {
            2
        } else if data[p + 4] == 51u8 {
            3
        } else {
            return Err(ParseError::UnsupportedVersion);
        };
        Ok(
            Header {
                version,
                utc_locals_count: read_u32(data, p + 20),
                std_count: read_u32(data, p + 24),
                leaps: read_u32(data, p + 28),
                transitions: read_u32(data, p + 32),
                types: read_u32(data, p + 36),
                abbr_size: read_u32(data, p + 40),
            },
        )
    }

    /// Returns the number of bytes of the data block with 32-bit times.
    pub fn version_one_length(&self) -> (r: i64)
        ensures
            r == self.spec_version_one_length(),
    {
        self.transitions as i64 * 5 + self.types as i64 * 6 + self.abbr_size as i64 + self.leaps as i64 * 8
            + self.std_count as i64 + self.utc_locals_count as i64
    }
}

// ---------------------------------------------------------------------------
// The data block
// ---------------------------------------------------------------------------

/// Where the transition times of a block at `p` end.
pub open spec fn times_end(p: int, h: Header) -> int {
    p + h.time_width() * h.transitions
}

/// Where the transition type indexes of a block at `p` end.
pub open spec fn indexes_end(p: int, h: Header) -> int {
    times_end(p, h) + h.transitions
}

/// Where the local time types and abbreviations of a block at `p` end; nothing is
/// read for them when there are none.
pub open spec fn types_end(p: int, h: Header) -> int {
    if h.types == 0 {
        indexes_end(p, h)
    } else {
        indexes_end(p, h) + 6 * h.types + h.abbr_size
    }
}

/// Where a block at `p` ends, after its leap second records and indicators.
pub open spec fn block_end(p: int, h: Header) -> int {
    types_end(p, h) + 12 * h.leaps + h.std_count + h.utc_locals_count
}

/// The abbreviation bytes of a block at `p`.
pub open spec fn abbreviations(s: Seq<u8>, p: int, h: Header) -> Seq<u8> {
    s.subrange(indexes_end(p, h) + 6 * h.types, types_end(p, h))
}

/// The first position at or after `i` that holds a zero byte, or the length.
pub open spec fn first_zero(s: Seq<u8>, i: int) -> int
    decreases s.len() - i,
{
    if i < 0 || i >= s.len() {
        s.len() as int
    } else if s[i] == 0 {
        i
    } else {
        first_zero(s, i + 1)
    }
}

/// The bytes of the abbreviation at index `i` of the abbreviation bytes: up to the next
/// zero byte, and none when no zero byte follows.
pub open spec fn abbr_bytes(strings: Seq<u8>, i: int) -> Seq<u8> {
    let z = first_zero(strings, i);
    if z < strings.len() {
        strings.subrange(i, z)
    } else {
        Seq::empty()
    }
}

/// The abbreviation at index `i` is acceptable: either no zero byte follows it, or it
/// is UTF-8.
pub open spec fn abbr_ok(strings: Seq<u8>, i: int) -> bool {
    first_zero(strings, i) < strings.len() ==> vstd::utf8::valid_utf8(abbr_bytes(strings, i))
}

/// The abbreviation index of the `j`th local time type record starting at `q`.
pub open spec fn abbr_index(s: Seq<u8>, q: int, j: int) -> int {
    s[q + 6 * j + 5] as int
}

/// The position of the `i`th local time type record of a block at `p`.
pub open spec fn type_pos(p: int, h: Header, i: int) -> int {
    indexes_end(p, h) + 6 * i
}

/// What reading a block at `p` fails with, if it does.
pub open spec fn block_error(s: Seq<u8>, p: int, h: Header) -> Option<ParseError> {
    if indexes_end(p, h) > s.len() || types_end(p, h) > s.len() {
        Some(ParseError::UnexpectedEnd)
    } else if exists|i: int|
        0 <= i < h.types && !#[trigger] abbr_ok(abbreviations(s, p, h), s[type_pos(p, h, i) + 5] as int) {
        Some(ParseError::InvalidAbbreviation)
    } else {
        None
    }
}

/// The `i`th transition time of a block at `p`.
pub open spec fn block_time(s: Seq<u8>, p: int, h: Header, i: int) -> int {
    be_signed(s, p + h.time_width() * i, h.time_width() as nat)
}

/// The `i`th local time type of a block at `p`: its offset, whether it is DST and its
/// abbreviation bytes.
pub open spec fn block_type(s: Seq<u8>, p: int, h: Header, i: int) -> (int, bool, Seq<u8>) {
    let q = type_pos(p, h, i);
    (be_signed(s, q, 4), s[q + 4] == 1u8, abbr_bytes(abbreviations(s, p, h), s[q + 5] as int))
}

/// A local time type of a TZif file.
#[derive(Debug, PartialEq, Eq, Hash)]
pub struct TransitionType {
    /// The offset from UTC in seconds.
    pub offset: i32,
    /// Whether the local time is daylight saving time.
    pub is_dst: bool,
    /// The abbreviation of the local time.
    pub abbr: String,
}

/// A local time type as plain values: its offset, whether it is DST, and the UTF-8
/// bytes of its abbreviation.
pub open spec fn ttype_view(t: TransitionType) -> (int, bool, Seq<u8>) {
    (t.offset as int, t.is_dst, vstd::utf8::encode_utf8(t.abbr@))
}

impl Header {
    /// Reads the transition times of a block at `p`, 64 bits each.
    pub fn read_transitions(&self, data: &[u8], p: usize) -> (r: Result<Vec<i64>, ParseError>)
        requires
            self.version != 1,
            p <= data@.len(),
        ensures
            r is Err <==> times_end(p as int, *self) > data@.len(),
            r matches Err(e) ==> e == ParseError::UnexpectedEnd,
            r matches Ok(v) ==> v@.len() == self.transitions && forall|i: int|
                0 <= i < self.transitions ==> v@[i] == #[trigger] block_time(data@, p as int, *self, i),
    {
        self.read_times(data, p, 8)
    }

    /// Reads the transition times of a block at `p`, 32 bits each.
    pub fn read_transitions_32(&self, data: &[u8], p: usize) -> (r: Result<Vec<i64>, ParseError>)
        requires
            self.version == 1,
            p <= data@.len(),
        ensures
            r is Err <==> times_end(p as int, *self) > data@.len(),
            r matches Err(e) ==> e == ParseError::UnexpectedEnd,
            r matches Ok(v) ==> v@.len() == self.transitions && forall|i: int|
                0 <= i < self.transitions ==> v@[i] == #[trigger] block_time(data@, p as int, *self, i),
    {
        self.read_times(data, p, 4)
    }

    /// Reads the transition times of a block at `p`, each `width` bytes wide.
    fn read_times(&self, data: &[u8], p: usize, width: usize) -> (r: Result<Vec<i64>, ParseError>)
        requires
            width == self.time_width(),
            p <= data@.len(),
        ensures
            r is Err <==> times_end(p as int, *self) > data@.len(),
            r matches Err(e) ==> e == ParseError::UnexpectedEnd,
            r matches Ok(v) ==> v@.len() == self.transitions && forall|i: int|
                0 <= i < self.transitions ==> v@[i] == #[trigger] block_time(data@, p as int, *self, i),
    {
        let n = self.transitions as u64;
        if (data.len() - p) as u64 / (width as u64) < n {
            proof {
                assert(((data@.len() - p) as int) / (width as int) < n ==> times_end(p as int, *self)
                    > data@.len()) by (nonlinear_arith)
                    requires
                        width == 4 || width == 8,
                        times_end(p as int, *self) == p + width * n,
                        data@.len() - p >= 0,
                ;
            }
            return Err(ParseError::UnexpectedEnd);
        }
        proof {
            assert(p + width * n <= data@.len()) by (nonlinear_arith)
                requires
                    width == 4 || width == 8,
                    ((data@.len() - p) as int) / (width as int) >= n,
                    data@.len() - p >= 0,
            ;
        }
        let mut v: Vec<i64> = Vec::new();
        let mut i: usize = 0;
        let len = data.len();
        while (i as u64) < n
            invariant
                len == data@.len(),
                width == self.time_width(),
                n == self.transitions,
                p + width * n <= data@.len(),
                i <= n,
                v@.len() == i,
                forall|j: int| 0 <= j < i ==> v@[j] == #[trigger] block_time(data@, p as int, *self, j),
            decreases n - i,
        {
            proof {
                assert(p + width * i + width <= p + width * n) by (nonlinear_arith)
                    requires
                        i < n,
                        width >= 0,
                ;
            }
            let q = p + width * i;
            let t = if width == 8 {
                read_i64(data, q)
            } else {
                read_i32(data, q) as i64
            };
            v.push(t);
            i = i + 1;
        }
        Ok(v)
    }

    /// Reads the transition type indexes of a block at `p`.
    pub fn read_transition_indexes(&self, data: &[u8], q: usize) -> (r: Result<Vec<u8>, ParseError>)
        requires
            q <= data@.len(),
        ensures
            r is Err <==> q + self.transitions > data@.len(),
            r matches Err(e) ==> e == ParseError::UnexpectedEnd,
            r matches Ok(v) ==> v@ == data@.subrange(q as int, q + self.transitions),
    {
        let n = self.transitions as usize;
        if data.len() - q < n {
            return Err(ParseError::UnexpectedEnd);
        }
        let mut v: Vec<u8> = Vec::new();
        let mut i: usize = 0;
        let len = data.len();
        while i < n
            invariant
                len == data@.len(),
                n == self.transitions,
                q + n <= data@.len(),
                i <= n,
                v@ == data@.subrange(q as int, q + i),
            decreases n - i,
        {
            v.push(data[q + i]);
            proof {
                assert(data@.subrange(q as int, q + i + 1) =~= data@.subrange(q as int, q + i).push(
                    data@[q + i],
                ));
            }
            i = i + 1;
        }
        Ok(v)
    }

    /// Reads the local time types and their abbreviations of a block whose type records
    /// start at `q`. Nothing is read when there are no types.
    pub fn read_transition_types(&self, data: &[u8], q: usize) -> (r: Result<Vec<TransitionType>, ParseError>)
        requires
            q <= data@.len(),
        ensures
            self.types > 0 && q + 6 * self.types + self.abbr_size > data@.len() ==> r == Err::<
                Vec<TransitionType>,
                ParseError,
            >(ParseError::UnexpectedEnd),
            self.types == 0 ==> (r matches Ok(v) && v@.len() == 0),
            self.types > 0 && q + 6 * self.types + self.abbr_size <= data@.len() ==> {
                let strings = data@.subrange(q + 6 * self.types, q + 6 * self.types + self.abbr_size);
                &&& r is Err <==> exists|i: int|
                    0 <= i < self.types && !abbr_ok(strings, #[trigger] abbr_index(data@, q as int, i))
                &&& r matches Err(e) ==> e == ParseError::InvalidAbbreviation
                &&& r matches Ok(v) ==> v@.len() == self.types && forall|i: int|
                    0 <= i < self.types ==> #[trigger] ttype_view(v@[i]) == (
                        be_signed(data@, q + 6 * i, 4),
                        data@[q + 6 * i + 4] == 1u8,
                        abbr_bytes(strings, data@[q + 6 * i + 5] as int),
                    )
            },
    {
        if self.types == 0 {
            return Ok(Vec::new());
        }
        let t = self.types as u64;
        let a = self.abbr_size as u64;
        if ((data.len() - q) as u64) < 6 * t + a {
            return Err(ParseError::UnexpectedEnd);
        }
        let start = q + 6 * (t as usize);
        let strings: &[u8] = &data[start..start + a as usize];
        let mut types: Vec<TransitionType> = Vec::new();
        let mut i: usize = 0;
        let len = data.len();
        while i < t as usize
            invariant
                len == data@.len(),
                t == self.types,
                a == self.abbr_size,
                start == q + 6 * t,
                start + a <= data@.len(),
                strings@ == data@.subrange(start as int, start + a),
                i <= t,
                types@.len() == i,
                forall|j: int| 0 <= j < i ==> abbr_ok(strings@, #[trigger] abbr_index(data@, q as int, j)),
                forall|j: int|
                    0 <= j < i ==> #[trigger] ttype_view(types@[j]) == (
                        be_signed(data@, q + 6 * j, 4),
                        data@[q + 6 * j + 4] == 1u8,
                        abbr_bytes(strings@, data@[q + 6 * j + 5] as int),
                    ),
            decreases t - i,
        {
            let rec = q + 6 * i;
            let offset = read_i32(data, rec);
            let is_dst = data[rec + 4] == 1u8;
            let idx = data[rec + 5] as usize;
            let mut z = idx;
            while z < strings.len() && strings[z] != 0u8
                invariant
                    idx <= z,
                    first_zero(strings@, z as int) == first_zero(strings@, idx as int),
                decreases strings@.len() - z,
            {
                z = z + 1;
            }
            let abbr = if z < strings.len() {
                match str_from_utf8(&strings[idx..z]) {
                    Some(text) => {
                        proof {
                            vstd::utf8::encode_utf8_decode_utf8(text@);
                        }
                        text.to_owned()
                    },
                    None => {
                        proof {
                            assert(!abbr_ok(strings@, abbr_index(data@, q as int, i as int)));
                        }
                        return Err(ParseError::InvalidAbbreviation);
                    },
                }
            } else {
                String::new()
            };
            types.push(TransitionType { offset, is_dst, abbr });
            i = i + 1;
        }
        Ok(types)
    }
}

/// A transition to a local time type, with its bounds in local and UTC time.
#[derive(Debug, Clone, Copy, PartialEq, Eq)]
pub struct Transition {
    /// The index of the local time type the transition switches to.
    pub name_idx: usize,
    /// The local time at which the transition takes place, read at the offset before it.
    pub start: NaiveTimestamp,
    /// The UTC time at which the transition takes place.
    pub utc_start: NaiveTimestamp,
    /// The local time at which the transition takes place, read at the offset after it.
    pub end: NaiveTimestamp,
    /// The offset from UTC after the transition.
    pub offset: UtcOffset,
}

/// A transition as plain values: type index, local start, UTC start, local end, and
/// the offset in seconds.
pub open spec fn transition_view(t: Transition) -> (int, int, int, int, int) {
    (t.name_idx as int, t.start.0 as int, t.utc_start.0 as int, t.end.0 as int, t.offset.spec_total_seconds())
}

/// A sum saturated into the range of `i64`.
pub open spec fn saturating_i64(v: int) -> int {
    if v > i64::MAX {
        i64::MAX as int
    } else if v < i64::MIN {
        i64::MIN as int
    } else {
        v
    }
}

/// The transition at UTC time `trans` to a type of `offset` seconds at index `idx`,
/// after a transition to `previous` seconds if there is one: its local start reads
/// `trans` at the previous offset (at its own offset for the first transition), and its
/// local end reads it at its own offset.
pub open spec fn spec_transition(trans: int, offset: int, idx: int, previous: Option<int>) -> Result<
    (int, int, int, int, int),
    ParseError,
> {
    let (local, fix) = match previous {
        Some(o) => (saturating_i64(trans + o), offset - o),
        None => (saturating_i64(trans + offset), 0),
    };
    if -86400 <= offset <= 86400 {
        Ok((idx, local, trans, saturating_i64(local + fix), offset))
    } else {
        Err(ParseError::InvalidOffset)
    }
}

/// Adds two numbers, saturating at the bounds of `i64`.
fn saturating_add_i64(a: i64, b: i64) -> (r: i64)
    ensures
        r == saturating_i64(a + b),
{
    if b > 0 && a > i64::MAX - b {
        i64::MAX
    } else if b < 0 && a < i64::MIN - b {
        i64::MIN
    } else {
        a + b
    }
}

impl Transition {
    /// Creates the transition at UTC time `trans` to the given local time type.
    pub fn new(trans: i64, ttype: &TransitionType, ttype_idx: usize, previous: Option<&Transition>) -> (r: Result<
        Transition,
        ParseError,
    >)
        ensures
            match spec_transition(
                trans as int,
                ttype.offset as int,
                ttype_idx as int,
                match previous {
                    Some(t) => Some(t.offset.spec_total_seconds()),
                    None => None,
                },
            ) {
                Ok(v) => r matches Ok(t) && transition_view(t) == v,
                Err(e) => r == Err::<Transition, ParseError>(e),
            },
    {
        let (local, fix) = match previous {
            Some(t) => {
                let prev_offset = t.offset.total_seconds() as i64;
                (saturating_add_i64(trans, prev_offset), ttype.offset as i64 - prev_offset)
            },
            None => (saturating_add_i64(trans, ttype.offset as i64), 0),
        };
        let offset = match UtcOffset::from_seconds(ttype.offset) {
            Some(o) => o,
            None => return Err(ParseError::InvalidOffset),
        };
        Ok(
            Transition {
                name_idx: ttype_idx,
                start: NaiveTimestamp::from_seconds(local),
                utc_start: NaiveTimestamp::from_seconds(trans),
                end: NaiveTimestamp::from_seconds(saturating_add_i64(local, fix)),
                offset,
            },
        )
    }

    /// Whether a local time falls twice around this transition: at or after its end
    /// and before its start, as when the clocks go back.
    pub fn is_ambiguous(&self, ts: NaiveTimestamp) -> (r: bool)
        ensures
            r == (self.end.0 <= ts.0 < self.start.0),
    {
        self.end.0 <= ts.0 && ts.0 < self.start.0
    }

    /// Whether a local time is skipped by this transition: at or after its start and
    /// before its end, as when the clocks go forward.
    pub fn is_missing(&self, ts: NaiveTimestamp) -> (r: bool)
        ensures
            r == (self.start.0 <= ts.0 < self.end.0),
    {
        self.start.0 <= ts.0 && ts.0 < self.end.0
    }
}

/// The transitions built from the first `n` transition times and type indexes, in
/// order, each after the one before it.
pub open spec fn spec_build(times: Seq<int>, idxs: Seq<u8>, offsets: Seq<int>, n: nat) -> Result<
    Seq<(int, int, int, int, int)>,
    ParseError,
>
    decreases n,
{
    if n == 0 {
        Ok(Seq::empty())
    } else {
        match spec_build(times, idxs, offsets, (n - 1) as nat) {
            Err(e) => Err(e),
            Ok(prev) => {
                let k = idxs[n - 1] as int;
                if k >= offsets.len() {
                    Err(ParseError::InvalidTypeIndex)
                } else {
                    let before = if prev.len() > 0 {
                        Some(prev.last().4)
                    } else {
                        None
                    };
                    match spec_transition(times[n - 1], offsets[k], k, before) {
                        Err(e) => Err(e),
                        Ok(t) => Ok(prev.push(t)),
                    }
                }
            },
        }
    }
}

/// The offsets of a sequence of local time types.
pub open spec fn type_offsets(types: Seq<TransitionType>) -> Seq<int> {
    types.map_values(|t: TransitionType| t.offset as int)
}

/// Builds the transitions of the given times and type indexes.
fn build_transitions(times: &Vec<i64>, idxs: &Vec<u8>, ttypes: &Vec<TransitionType>) -> (r: Result<
    Vec<Transition>,
    ParseError,
>)
    requires
        times@.len() == idxs@.len(),
    ensures
        match spec_build(times@.map_values(|t: i64| t as int), idxs@, type_offsets(ttypes@), times@.len()) {
            Ok(v) => r matches Ok(ts) && ts@.map_values(|t: Transition| transition_view(t)) == v,
            Err(e) => r == Err::<Vec<Transition>, ParseError>(e),
        },
{
    let ghost tv = times@.map_values(|t: i64| t as int);
    let ghost offs = type_offsets(ttypes@);
    let mut transitions: Vec<Transition> = Vec::new();
    let mut i: usize = 0;
    proof {
        assert(transitions@.map_values(|t: Transition| transition_view(t)) =~= Seq::empty());
    }
    while i < times.len()
        invariant
            times@.len() == idxs@.len(),
            tv == times@.map_values(|t: i64| t as int),
            offs == type_offsets(ttypes@),
            i <= times@.len(),
            spec_build(tv, idxs@, offs, i as nat) == Ok::<Seq<(int, int, int, int, int)>, ParseError>(
                transitions@.map_values(|t: Transition| transition_view(t)),
            ),
            transitions@.len() == i,
        decreases times@.len() - i,
    {
        let idx = idxs[i] as usize;
        if idx >= ttypes.len() {
            proof {
                assert(spec_build(tv, idxs@, offs, (i + 1) as nat) == Err::<Seq<(int, int, int, int, int)>, ParseError>(
                    ParseError::InvalidTypeIndex,
                ));
                lemma_build_err_stays(tv, idxs@, offs, (i + 1) as nat, times@.len());
            }
            return Err(ParseError::InvalidTypeIndex);
        }
        let previous = if transitions.len() > 0 {
            Some(&transitions[transitions.len() - 1])
        } else {
            None
        };
        let ghost before = if transitions@.len() > 0 {
            Some(transitions@.last().offset.spec_total_seconds())
        } else {
            None::<int>
        };
        proof {
            if transitions@.len() > 0 {
                assert(transitions@.map_values(|t: Transition| transition_view(t)).last().4 == before->Some_0);
            }
        }
        match Transition::new(times[i], &ttypes[idx], idx, previous) {
            Ok(t) => {
                proof {
                    assert(transitions@.push(t).map_values(|t: Transition| transition_view(t)) =~= transitions@.map_values(
                        |t: Transition| transition_view(t),
                    ).push(transition_view(t)));
                }
                transitions.push(t);
            },
            Err(e) => {
                proof {
                    lemma_build_err_stays(tv, idxs@, offs, (i + 1) as nat, times@.len());
                }
                return Err(e);
            },
        }
        i = i + 1;
    }
    Ok(transitions)
}

/// Once building fails, building more fails the same way.
proof fn lemma_build_err_stays(times: Seq<int>, idxs: Seq<u8>, offsets: Seq<int>, m: nat, n: nat)
    requires
        m <= n,
        spec_build(times, idxs, offsets, m) is Err,
    ensures
        spec_build(times, idxs, offsets, n) == spec_build(times, idxs, offsets, m),
    decreases n - m,
{
    if m < n {
        lemma_build_err_stays(times, idxs, offsets, m, (n - 1) as nat);
    }
}

/// The POSIX rule that follows a version 2 or 3 block ending at `q`: the rest of the
/// data must be a rule string between two newlines.
#[verifier::opaque]
pub open spec fn spec_footer(s: Seq<u8>, q: int) -> Result<
    Option<(Seq<char>, int, Option<(Seq<char>, int, DstTransitionRule, DstTransitionRule, int)>)>,
    ParseError,
> {
    let f = if q < s.len() {
        s.subrange(q, s.len() as int)
    } else {
        Seq::empty()
    };
    if f.len() >= 2 && f[0] == 10u8 && f.last() == 10u8 {
        let inner = f.subrange(1, f.len() - 1);
        if !vstd::utf8::valid_utf8(inner) {
            Err(ParseError::InvalidPosixTz)
        } else {
            match spec_posix(vstd::utf8::decode_utf8(inner)) {
                Ok(v) => Ok(Some(v)),
                Err(e) => Err(e),
            }
        }
    } else {
        Err(ParseError::InvalidPosixTz)
    }
}

/// The transition times of a block at `p`.
pub open spec fn block_times(s: Seq<u8>, p: int, h: Header) -> Seq<int> {
    Seq::new(h.transitions as nat, |i: int| block_time(s, p, h, i))
}

/// The local time types of a block at `p`.
pub open spec fn block_types(s: Seq<u8>, p: int, h: Header) -> Seq<(int, bool, Seq<u8>)> {
    Seq::new(h.types as nat, |i: int| block_type(s, p, h, i))
}

/// The transition times of a block, led by one at the start of time when the block
/// has local time types: before the first transition the first local time type is
/// in effect.
pub open spec fn with_initial_time(times: Seq<int>, has_types: bool) -> Seq<int> {
    if has_types {
        seq![i64::MIN as int] + times
    } else {
        times
    }
}

/// The type indexes of a block, led by the index of the first local time type when
/// the block has local time types.
pub open spec fn with_initial_index(idxs: Seq<u8>, has_types: bool) -> Seq<u8> {
    if has_types {
        seq![0u8] + idxs
    } else {
        idxs
    }
}

/// The transitions, local time types and POSIX rule of a block at `p` with header `h`.
/// Before its first transition time, the first local time type is in effect, so the
/// transitions start with one at the start of time to it.
pub open spec fn spec_block(s: Seq<u8>, p: int, h: Header) -> Result<
    (
        Seq<(int, int, int, int, int)>,
        Seq<(int, bool, Seq<u8>)>,
        Option<(Seq<char>, int, Option<(Seq<char>, int, DstTransitionRule, DstTransitionRule, int)>)>,
    ),
    ParseError,
> {
    match block_error(s, p, h) {
        Some(e) => Err(e),
        None => {
            let footer = if h.version >= 2 {
                spec_footer(s, block_end(p, h))
            } else {
                Ok(None)
            };
            match footer {
                Err(e) => Err(e),
                Ok(posix) => {
                    let types = block_types(s, p, h);
                    let times = with_initial_time(block_times(s, p, h), h.types > 0);
                    match spec_build(
                        times,
                        with_initial_index(s.subrange(times_end(p, h), indexes_end(p, h)), h.types > 0),
                        types.map_values(|t: (int, bool, Seq<u8>)| t.0),
                        times.len(),
                    ) {
                        Err(e) => Err(e),
                        Ok(transitions) => Ok((transitions, types, posix)),
                    }
                },
            }
        },
    }
}

/// The transitions, local time types and POSIX rule of TZif data. From version 2 on,
/// the block with 32-bit times is skipped for the second header and its block.
pub open spec fn spec_tzif(s: Seq<u8>) -> Result<
    (
        Seq<(int, int, int, int, int)>,
        Seq<(int, bool, Seq<u8>)>,
        Option<(Seq<char>, int, Option<(Seq<char>, int, DstTransitionRule, DstTransitionRule, int)>)>,
    ),
    ParseError,
> {
    match spec_header(s, 0) {
        Err(e) => Err(e),
        Ok(h) => if h.version == 1 {
            spec_block(s, 44, h)
        } else {
            let p = 44 + h.spec_version_one_length();
            match spec_header(s, p) {
                Err(e) => Err(e),
                Ok(h2) => spec_block(s, p + 44, h2),
            }
        },
    }
}

/// The transitions, local time types and POSIX rule of a parse as plain values.
pub open spec fn tzif_view(r: (Vec<Transition>, Vec<TransitionType>, Option<PosixTimeZone>)) -> (
    Seq<(int, int, int, int, int)>,
    Seq<(int, bool, Seq<u8>)>,
    Option<(Seq<char>, int, Option<(Seq<char>, int, DstTransitionRule, DstTransitionRule, int)>)>,
) {
    (
        r.0@.map_values(|t: Transition| transition_view(t)),
        r.1@.map_values(|t: TransitionType| ttype_view(t)),
        match r.2 {
            Some(z) => Some(z@),
            None => None,
        },
    )
}

/// Reads the POSIX rule that follows a block ending at `end`.
fn read_footer(data: &[u8], end: u128) -> (r: Result<Option<PosixTimeZone>, ParseError>)
    ensures
        match spec_footer(data@, end as int) {
            Ok(Some(v)) => r matches Ok(Some(z)) && z@ == v,
            Ok(None) => false,
            Err(e) => r == Err::<Option<PosixTimeZone>, ParseError>(e),
        },
{
    reveal(spec_footer);
    let start: usize = if end < data.len() as u128 {
        end as usize
    } else {
        data.len()
    };
    let f: &[u8] = &data[start..data.len()];
    proof {
        if !(end < data@.len()) {
            assert(f@ =~= Seq::<u8>::empty());
        }
    }
    if f.len() >= 2 && f[0] == 10u8 && f[f.len() - 1] == 10u8 {
        let inner: &[u8] = &f[1..f.len() - 1];
        match str_from_utf8(inner) {
            None => Err(ParseError::InvalidPosixTz),
            Some(text) => {
                proof {
                    vstd::utf8::encode_utf8_decode_utf8(text@);
                }
                match PosixTimeZone::new(text) {
                    Ok(z) => Ok(Some(z)),
                    Err(e) => Err(e),
                }
            },
        }
    } else {
        Err(ParseError::InvalidPosixTz)
    }
}

/// The abbreviations of a block at `p` are the bytes after its type records.
proof fn lemma_abbreviations(s: Seq<u8>, p: int, h: Header, q2: int)
    requires
        q2 == indexes_end(p, h),
        h.types > 0,
    ensures
        abbreviations(s, p, h) == s.subrange(q2 + 6 * h.types, q2 + 6 * h.types + h.abbr_size),
        forall|i: int| #[trigger] type_pos(p, h, i) + 5 == q2 + 6 * i + 5,
{
}

/// An abbreviation that fails to read makes the block fail to read.
proof fn lemma_block_abbr_error(s: Seq<u8>, p: int, h: Header, q2: int)
    requires
        q2 == indexes_end(p, h),
        h.types > 0,
        types_end(p, h) <= s.len(),
        exists|i: int|
            0 <= i < h.types && !abbr_ok(
                s.subrange(q2 + 6 * h.types, q2 + 6 * h.types + h.abbr_size),
                #[trigger] abbr_index(s, q2, i),
            ),
    ensures
        block_error(s, p, h) == Some(ParseError::InvalidAbbreviation),
{
    lemma_abbreviations(s, p, h, q2);
    let i = choose|i: int|
        0 <= i < h.types && !abbr_ok(
            s.subrange(q2 + 6 * h.types, q2 + 6 * h.types + h.abbr_size),
            #[trigger] abbr_index(s, q2, i),
        );
    assert(abbr_index(s, q2, i) == s[type_pos(p, h, i) + 5] as int);
}

/// A block whose parts all read has no error.
proof fn lemma_block_ok(s: Seq<u8>, p: int, h: Header, q2: int)
    requires
        q2 == indexes_end(p, h),
        types_end(p, h) <= s.len(),
        h.types > 0 ==> forall|i: int|
            0 <= i < h.types ==> abbr_ok(
                s.subrange(q2 + 6 * h.types, q2 + 6 * h.types + h.abbr_size),
                #[trigger] abbr_index(s, q2, i),
            ),
    ensures
        block_error(s, p, h) is None,
{
    if h.types > 0 {
        lemma_abbreviations(s, p, h, q2);
        assert forall|i: int| 0 <= i < h.types implies #[trigger] abbr_ok(
            abbreviations(s, p, h),
            s[type_pos(p, h, i) + 5] as int,
        ) by {
            assert(abbr_index(s, q2, i) == s[type_pos(p, h, i) + 5] as int);
        }
    }
}

/// The local time types read from a block at `p` are those of the block.
proof fn lemma_block_types(s: Seq<u8>, p: int, h: Header, q2: int, ttypes: Seq<TransitionType>)
    requires
        q2 == indexes_end(p, h),
        types_end(p, h) <= s.len(),
        ttypes.len() == h.types,
        h.types > 0 ==> forall|i: int|
            0 <= i < h.types ==> #[trigger] ttype_view(ttypes[i]) == (
                be_signed(s, q2 + 6 * i, 4),
                s[q2 + 6 * i + 4] == 1u8,
                abbr_bytes(
                    s.subrange(q2 + 6 * h.types, q2 + 6 * h.types + h.abbr_size),
                    s[q2 + 6 * i + 5] as int,
                ),
            ),
    ensures
        ttypes.map_values(|t: TransitionType| ttype_view(t)) == block_types(s, p, h),
        type_offsets(ttypes) == block_types(s, p, h).map_values(|t: (int, bool, Seq<u8>)| t.0),
{
    let types = block_types(s, p, h);
    if h.types > 0 {
        lemma_abbreviations(s, p, h, q2);
    }
    assert(ttypes.map_values(|t: TransitionType| ttype_view(t)) =~= types) by {
        assert forall|i: int| 0 <= i < h.types implies ttypes.map_values(|t: TransitionType| ttype_view(t))[i]
            == types[i] by {
            assert(ttype_view(ttypes[i]) == block_type(s, p, h, i));
        }
    }
    assert(type_offsets(ttypes) =~= types.map_values(|t: (int, bool, Seq<u8>)| t.0)) by {
        assert forall|i: int| 0 <= i < h.types implies type_offsets(ttypes)[i] == types.map_values(
            |t: (int, bool, Seq<u8>)| t.0,
        )[i] by {
            assert(ttype_view(ttypes[i]) == block_type(s, p, h, i));
        }
    }
}

impl Header {
    /// Reads the transitions, local time types and POSIX rule of the block at `p` that
    /// follows this header.
    #[verifier::spinoff_prover]
    #[verifier::rlimit(60)]
    pub fn get_transitions(&self, data: &[u8], p: usize) -> (r: Result<
        (Vec<Transition>, Vec<TransitionType>, Option<PosixTimeZone>),
        ParseError,
    >)
        requires
            p <= data@.len(),
        ensures
            match spec_block(data@, p as int, *self) {
                Ok(v) => r matches Ok(t) && tzif_view(t) == v,
                Err(e) => r is Err && r->Err_0 == e,
            },
    {
        let len = data.len();
        let trans = if self.version == 1 {
            self.read_transitions_32(data, p)?
        } else {
            self.read_transitions(data, p)?
        };
        let width: usize = if self.version == 1 {
            4
        } else {
            8
        };
        assert(p + width * self.transitions <= len);
        let q1 = p + width * (self.transitions as usize);
        let idxs = self.read_transition_indexes(data, q1)?;
        let q2 = q1 + self.transitions as usize;
        let ttypes = match self.read_transition_types(data, q2) {
            Ok(t) => t,
            Err(e) => {
                proof {
                    if e == ParseError::InvalidAbbreviation {
                        lemma_block_abbr_error(data@, p as int, *self, q2 as int);
                    }
                }
                return Err(e);
            },
        };
        proof {
            lemma_block_ok(data@, p as int, *self, q2 as int);
            lemma_block_types(data@, p as int, *self, q2 as int, ttypes@);
        }
        let skip: u128 = 12 * self.leaps as u128 + self.std_count as u128 + self.utc_locals_count as u128;
        let end: u128 = if self.types == 0 {
            q2 as u128 + skip
        } else {
            q2 as u128 + 6 * self.types as u128 + self.abbr_size as u128 + skip
        };
        let posix = if self.version >= 2 {
            read_footer(data, end)?
        } else {
            None
        };
        proof {
            assert(trans@.map_values(|t: i64| t as int) =~= block_times(data@, p as int, *self));
            assert(idxs@ =~= data@.subrange(times_end(p as int, *self), indexes_end(p as int, *self)));
        }
        let ghost plain_times = trans@.map_values(|t: i64| t as int);
        let ghost plain_idxs = idxs@;
        let mut trans = trans;
        let mut idxs = idxs;
        if ttypes.len() > 0 {
            trans.insert(0, i64::MIN);
            idxs.insert(0, 0u8);
        }
        proof {
            assert(trans@.map_values(|t: i64| t as int) =~= with_initial_time(plain_times, ttypes@.len() > 0));
            assert(idxs@ =~= with_initial_index(plain_idxs, ttypes@.len() > 0));
        }
        let transitions = build_transitions(&trans, &idxs, &ttypes)?;
        Ok((transitions, ttypes, posix))
    }
}

/// Reads TZif data: its transitions, local time types and POSIX rule.
pub fn parse_tzif(data: &[u8]) -> (r: Result<(Vec<Transition>, Vec<TransitionType>, Option<PosixTimeZone>), ParseError>)
    ensures
        match spec_tzif(data@) {
            Ok(v) => r matches Ok(t) && tzif_view(t) == v,
            Err(e) => r is Err && r->Err_0 == e,
        },
{
    let header = Header::from_bytes(data, 0)?;
    if header.version == 1 {
        header.get_transitions(data, 44)
    } else {
        let p = 44 + header.version_one_length();
        if p as u64 > data.len() as u64 {
            return Err(ParseError::UnexpectedEnd);
        }
        let header = Header::from_bytes(data, p as usize)?;
        header.get_transitions(data, p as usize + 44)
    }
}

// ---------------------------------------------------------------------------
// Searching transitions
// ---------------------------------------------------------------------------

/// The number of keys among the first `n` that are below `ts`.
pub open spec fn count_below(keys: Seq<int>, ts: int, n: nat) -> int
    decreases n,
{
    if n == 0 {
        0
    } else {
        count_below(keys, ts, (n - 1) as nat) + if keys[n - 1] < ts {
            1int
        } else {
            0int
        }
    }
}

/// At most `n` of the first `n` keys are below any time.
proof fn lemma_count_below_bounds(keys: Seq<int>, ts: int, n: nat)
    ensures
        0 <= count_below(keys, ts, n) <= n,
    decreases n,
{
    if n > 0 {
        lemma_count_below_bounds(keys, ts, (n - 1) as nat);
    }
}

/// The keys never decrease.
pub open spec fn keys_sorted(keys: Seq<int>) -> bool {
    forall|i: int, j: int| 0 <= i <= j < keys.len() ==> keys[i] <= keys[j]
}

/// Where `ts` is among sorted keys: `Ok` with the first index that holds it, or `Err`
/// with the index it would be inserted at.
pub open spec fn spec_search(keys: Seq<int>, ts: int) -> Result<int, int> {
    let i = count_below(keys, ts, keys.len());
    if i < keys.len() && keys[i] == ts {
        Ok(i)
    } else {
        Err(i)
    }
}

/// When the keys below `ts` are exactly the first `lo` ones, `lo` of them are below it.
proof fn lemma_count_below(keys: Seq<int>, ts: int, lo: int, n: nat)
    requires
        n <= keys.len(),
        0 <= lo <= keys.len(),
        forall|j: int| 0 <= j < lo ==> keys[j] < ts,
        forall|j: int| lo <= j < keys.len() ==> keys[j] >= ts,
    ensures
        count_below(keys, ts, n) == if n <= lo {
            n as int
        } else {
            lo
        },
    decreases n,
{
    if n > 0 {
        lemma_count_below(keys, ts, lo, (n - 1) as nat);
    }
}

/// The local starts of transitions.
pub open spec fn starts_of(ts: Seq<(int, int, int, int, int)>) -> Seq<int> {
    ts.map_values(|t: (int, int, int, int, int)| t.1)
}

/// The UTC starts of transitions.
pub open spec fn utc_starts_of(ts: Seq<(int, int, int, int, int)>) -> Seq<int> {
    ts.map_values(|t: (int, int, int, int, int)| t.2)
}

/// Finds `ts` among the local starts (`by_utc` false) or UTC starts (`by_utc` true)
/// of transitions by binary search.
fn search_transitions(transitions: &Vec<Transition>, ts: i64, by_utc: bool) -> (r: Result<usize, usize>)
    ensures
        ({
            let keys = if by_utc {
                utc_starts_of(transitions@.map_values(|t: Transition| transition_view(t)))
            } else {
                starts_of(transitions@.map_values(|t: Transition| transition_view(t)))
            };
            &&& keys_sorted(keys) ==> (match spec_search(keys, ts as int) {
                Ok(i) => r == Ok::<usize, usize>(i as usize),
                Err(i) => r == Err::<usize, usize>(i as usize),
            })
            &&& r matches Ok(i) ==> i < transitions@.len()
            &&& r matches Err(i) ==> i <= transitions@.len()
        }),
{
    let ghost keys = if by_utc {
        utc_starts_of(transitions@.map_values(|t: Transition| transition_view(t)))
    } else {
        starts_of(transitions@.map_values(|t: Transition| transition_view(t)))
    };
    let mut lo: usize = 0;
    let mut hi: usize = transitions.len();
    while lo < hi
        invariant
            keys.len() == transitions@.len(),
            forall|j: int|
                0 <= j < transitions@.len() ==> #[trigger] keys[j] == if by_utc {
                    transitions@[j].utc_start.0 as int
                } else {
                    transitions@[j].start.0 as int
                },
            lo <= hi <= transitions@.len(),
            keys_sorted(keys) ==> forall|j: int| 0 <= j < lo ==> keys[j] < ts,
            keys_sorted(keys) ==> forall|j: int| hi <= j < keys.len() ==> keys[j] >= ts,
        decreases hi - lo,
    {
        let mid = lo + (hi - lo) / 2;
        let key = if by_utc {
            transitions[mid].utc_start.0
        } else {
            transitions[mid].start.0
        };
        proof {
            assert(keys[mid as int] == key);
        }
        if key < ts {
            lo = mid + 1;
        } else {
            hi = mid;
        }
    }
    proof {
        if keys_sorted(keys) {
            lemma_count_below(keys, ts as int, lo as int, keys.len());
        }
    }
    if lo < transitions.len() {
        let key = if by_utc {
            transitions[lo].utc_start.0
        } else {
            transitions[lo].start.0
        };
        proof {
            assert(keys[lo as int] == key);
        }
        if key == ts {
            return Ok(lo);
        }
    }
    Err(lo)
}

// ---------------------------------------------------------------------------
// The time zone
// ---------------------------------------------------------------------------

/// An IANA database backed time zone: its identifier, transitions, local time types
/// and the POSIX rule for the times after its last transition.
#[derive(Debug, PartialEq, Eq)]
pub struct TimeZone {
    id: String,
    transitions: Vec<Transition>,
    ttypes: Vec<TransitionType>,
    posix: Option<PosixTimeZone>,
    fixed: bool,
}

/// A POSIX time zone as plain values, as its view gives them.
pub open spec fn posix_view(p: Option<PosixTimeZone>) -> Option<
    (Seq<char>, int, Option<(Seq<char>, int, DstTransitionRule, DstTransitionRule, int)>),
> {
    match p {
        Some(z) => Some(z@),
        None => None,
    }
}

/// A time zone is fixed when it has at most one transition and its POSIX rule, if it
/// has one, has no DST.
pub open spec fn spec_fixed(
    transitions: Seq<(int, int, int, int, int)>,
    posix: Option<(Seq<char>, int, Option<(Seq<char>, int, DstTransitionRule, DstTransitionRule, int)>)>,
) -> bool {
    transitions.len() <= 1 && match posix {
        Some(p) => p.2 is None,
        None => true,
    }
}

/// The index of the transition in effect at UTC time `secs`, when the UTC starts are
/// sorted: the one starting at `secs`, or the one before it (the first transition
/// also covers the times before it), and none after the last transition.
pub open spec fn spec_transition_index(transitions: Seq<(int, int, int, int, int)>, secs: int) -> Option<int> {
    match spec_search(utc_starts_of(transitions), secs) {
        Ok(i) => Some(i),
        Err(i) => if i != transitions.len() {
            Some(if i == 0 { 0 } else { i - 1 })
        } else {
            None
        },
    }
}

/// How a local time at `ts` seconds in `year` resolves against transitions sorted by
/// their local starts, with the POSIX rule for the times after the last one: its kind,
/// and the offsets before and after the transition it falls in.
pub open spec fn spec_zone_resolution(
    transitions: Seq<(int, int, int, int, int)>,
    posix: Option<(Seq<char>, int, Option<(Seq<char>, int, DstTransitionRule, DstTransitionRule, int)>)>,
    year: int,
    ts: int,
) -> (DateTimeResolutionKind, int, int) {
    let n = transitions.len() as int;
    let found = spec_search(starts_of(transitions), ts);
    let (prev, cur, next): (Option<int>, int, Option<int>) = match found {
        Ok(i) => (if i >= 1 { Some(i - 1) } else { None }, i, if i + 1 < n { Some(i + 1) } else { None }),
        Err(i) => if i == 0 {
            (None, 0, if 1 < n { Some(1) } else { None })
        } else {
            (if i >= 2 { Some(i - 2) } else { None }, i - 1, Some(i))
        },
    };
    if found == Err::<int, int>(n) {
        if n >= 2 && transitions[n - 1].1 <= ts < transitions[n - 1].3 {
            (DateTimeResolutionKind::Missing, transitions[n - 2].4, transitions[n - 1].4)
        } else {
            match posix {
                Some(p) => spec_partial_resolution(p, year, ts),
                None => {
                    let o = if n > 0 { transitions[n - 1].4 } else { 0 };
                    (DateTimeResolutionKind::Unambiguous, o, o)
                },
            }
        }
    } else if next matches Some(k) && transitions[k].3 <= ts < transitions[k].1 {
        (DateTimeResolutionKind::Ambiguous, transitions[cur].4, transitions[next->Some_0].4)
    } else if prev matches Some(j) && transitions[cur].1 <= ts < transitions[cur].3 {
        (DateTimeResolutionKind::Missing, transitions[prev->Some_0].4, transitions[cur].4)
    } else {
        (DateTimeResolutionKind::Unambiguous, transitions[cur].4, transitions[cur].4)
    }
}

/// Whether the transitions are in ascending order, both by their UTC starts and by
/// their local starts.
fn transitions_in_order(transitions: &Vec<Transition>) -> (r: bool)
    ensures
        r == (keys_sorted(utc_starts_of(transitions@.map_values(|t: Transition| transition_view(t)))) && keys_sorted(
            starts_of(transitions@.map_values(|t: Transition| transition_view(t))),
        )),
{
    let ghost tv = transitions@.map_values(|t: Transition| transition_view(t));
    let ghost utc = utc_starts_of(tv);
    let ghost local = starts_of(tv);
    let n = transitions.len();
    if n == 0 {
        return true;
    }
    let mut k: usize = 1;
    while k < n
        invariant
            1 <= k <= n,
            n == transitions@.len(),
            tv == transitions@.map_values(|t: Transition| transition_view(t)),
            utc == utc_starts_of(tv),
            local == starts_of(tv),
            forall|i: int, j: int| 0 <= i <= j < k ==> utc[i] <= utc[j],
            forall|i: int, j: int| 0 <= i <= j < k ==> local[i] <= local[j],
        decreases n - k,
    {
        proof {
            assert(utc[k - 1] == transitions@[k - 1].utc_start.0);
            assert(utc[k as int] == transitions@[k as int].utc_start.0);
            assert(local[k - 1] == transitions@[k - 1].start.0);
            assert(local[k as int] == transitions@[k as int].start.0);
        }
        if transitions[k - 1].utc_start.0 > transitions[k].utc_start.0 || transitions[k - 1].start.0
            > transitions[k].start.0 {
            proof {
                if transitions@[k - 1].utc_start.0 > transitions@[k as int].utc_start.0 {
                    assert(!(utc[k - 1] <= utc[k as int]));
                } else {
                    assert(!(local[k - 1] <= local[k as int]));
                }
            }
            return false;
        }
        k = k + 1;
    }
    true
}

impl TimeZone {
    /// The transitions of a time zone are in ascending order, both by their UTC starts
    /// and by their local starts.
    #[verifier::type_invariant]
    spec fn in_order(self) -> bool {
        &&& keys_sorted(utc_starts_of(self.spec_transitions()))
        &&& keys_sorted(starts_of(self.spec_transitions()))
    }

    /// The identifier.
    pub closed spec fn spec_id(&self) -> Seq<char> {
        self.id@
    }

    /// The transitions as plain values.
    pub closed spec fn spec_transitions(&self) -> Seq<(int, int, int, int, int)> {
        self.transitions@.map_values(|t: Transition| transition_view(t))
    }

    /// The local time types as plain values.
    pub closed spec fn spec_types(&self) -> Seq<(int, bool, Seq<u8>)> {
        self.ttypes@.map_values(|t: TransitionType| ttype_view(t))
    }

    /// The POSIX rule as plain values.
    pub closed spec fn spec_posix_rule(&self) -> Option<
        (Seq<char>, int, Option<(Seq<char>, int, DstTransitionRule, DstTransitionRule, int)>),
    > {
        posix_view(self.posix)
    }

    /// Whether the time zone is fixed.
    pub closed spec fn spec_is_fixed(&self) -> bool {
        self.fixed
    }

    /// Loads a time zone from TZif data and its zone identifier, such as
    /// `America/New_York`.
    ///
    /// TZif data lists its transitions in ascending order; data whose transitions are
    /// out of order, by their UTC times or by their local times, is refused with
    /// [`ParseError::UnsortedTransitions`].
    pub fn load(data: &[u8], id: String) -> (r: Result<TimeZone, ParseError>)
        ensures
            match spec_tzif(data@) {
                Ok(v) => if keys_sorted(utc_starts_of(v.0)) && keys_sorted(starts_of(v.0)) {
                    r matches Ok(z) && z.spec_id() == id@ && z.spec_transitions() == v.0 && z.spec_types() == v.1
                        && z.spec_posix_rule() == v.2 && z.spec_is_fixed() == spec_fixed(v.0, v.2)
                } else {
                    r == Err::<TimeZone, ParseError>(ParseError::UnsortedTransitions)
                },
                Err(e) => r is Err && r->Err_0 == e,
            },
    {
        let (transitions, ttypes, posix) = parse_tzif(data)?;
        if !transitions_in_order(&transitions) {
            return Err(ParseError::UnsortedTransitions);
        }
        let fixed = transitions.len() <= 1 && match &posix {
            Some(p) => p.dst().is_none(),
            None => true,
        };
        Ok(TimeZone { id, transitions, ttypes, posix, fixed })
    }

    /// Returns the identifier.
    pub fn id(&self) -> (r: &str)
        ensures
            r@ == self.spec_id(),
    {
        self.id.as_str()
    }

    /// Returns the transition in effect at a UTC time, if the time is not after the
    /// last transition.
    pub fn get_transition(&self, secs: i64) -> (r: Option<&Transition>)
        ensures
            match spec_transition_index(
                self.spec_transitions(),
                secs as int,
            ) {
                Some(i) => r matches Some(t) && transition_view(*t) == self.spec_transitions()[i],
                None => r is None,
            },
            r matches Some(t) ==> exists|i: int|
                0 <= i < self.spec_transitions().len() && transition_view(*t) == #[trigger] self.spec_transitions()[i],
    {
        let ghost keys = utc_starts_of(self.spec_transitions());
        let n = self.transitions.len();
        proof {
            use_type_invariant(self);
            lemma_count_below_bounds(keys, secs as int, keys.len());
            assert(keys.len() == n);
            assert(keys == utc_starts_of(self.transitions@.map_values(|t: Transition| transition_view(t))));
        }
        let found = search_transitions(&self.transitions, secs, true);
        let idx = match found {
            Ok(idx) => idx,
            Err(idx) => {
                if idx != self.transitions.len() {
                    if idx == 0 {
                        0
                    } else {
                        idx - 1
                    }
                } else {
                    return None;
                }
            },
        };
        proof {
            assert(self.spec_transitions()[idx as int] == transition_view(self.transitions@[idx as int]));
            if keys_sorted(keys) {
                let c = count_below(keys, secs as int, keys.len());
                match spec_search(keys, secs as int) {
                    Ok(i) => {
                        assert(i == c);
                        assert(found == Ok::<usize, usize>(i as usize));
                    },
                    Err(i) => {
                        assert(i == c);
                        assert(found == Err::<usize, usize>(i as usize));
                    },
                }
            }
        }
        Some(&self.transitions[idx])
    }
}

/// The local time type index named by the transition in effect at UTC time `secs`,
/// when the UTC starts are sorted.
pub open spec fn spec_offset_of_zone(
    transitions: Seq<(int, int, int, int, int)>,
    posix: Option<(Seq<char>, int, Option<(Seq<char>, int, DstTransitionRule, DstTransitionRule, int)>)>,
    secs: int,
) -> int {
    match spec_transition_index(transitions, secs) {
        Some(i) => transitions[i].4,
        None => match posix {
            Some(p) => spec_offset_at(p, utc_year(secs), secs),
            None => if transitions.len() > 0 {
                transitions.last().4
            } else {
                0
            },
        },
    }
}

impl Clone for TransitionType {
    fn clone(&self) -> (r: TransitionType)
        ensures
            ttype_view(r) == ttype_view(*self),
    {
        TransitionType { offset: self.offset, is_dst: self.is_dst, abbr: self.abbr.clone() }
    }
}

impl Clone for TimeZone {
    fn clone(&self) -> (r: TimeZone)
        ensures
            r.spec_id() == self.spec_id(),
            r.spec_transitions() == self.spec_transitions(),
            r.spec_types() == self.spec_types(),
            r.spec_posix_rule() == self.spec_posix_rule(),
            r.spec_is_fixed() == self.spec_is_fixed(),
    {
        let mut transitions: Vec<Transition> = Vec::new();
        let mut i: usize = 0;
        while i < self.transitions.len()
            invariant
                i <= self.transitions@.len(),
                transitions@ == self.transitions@.subrange(0, i as int),
            decreases self.transitions@.len() - i,
        {
            transitions.push(self.transitions[i]);
            proof {
                assert(self.transitions@.subrange(0, i + 1) =~= self.transitions@.subrange(0, i as int).push(
                    self.transitions@[i as int],
                ));
            }
            i = i + 1;
        }
        let mut ttypes: Vec<TransitionType> = Vec::new();
        let mut j: usize = 0;
        while j < self.ttypes.len()
            invariant
                j <= self.ttypes@.len(),
                ttypes@.len() == j,
                forall|k: int| 0 <= k < j ==> #[trigger] ttype_view(ttypes@[k]) == ttype_view(self.ttypes@[k]),
            decreases self.ttypes@.len() - j,
        {
            ttypes.push(self.ttypes[j].clone());
            j = j + 1;
        }
        let posix = match &self.posix {
            Some(p) => Some(p.clone()),
            None => None,
        };
        proof {
            use_type_invariant(self);
            assert(transitions@ =~= self.transitions@);
            assert(ttypes@.map_values(|t: TransitionType| ttype_view(t)) =~= self.ttypes@.map_values(
                |t: TransitionType| ttype_view(t),
            ));
        }
        TimeZone { id: self.id.clone(), transitions, ttypes, posix, fixed: self.fixed }
    }
}

impl crate::timezone::TimeZone for TimeZone {
    fn name(&self, ts: Timestamp) -> (r: Option<&str>)
        ensures
            match spec_transition_index(
                self.spec_transitions(),
                ts@.0,
            ) {
                Some(i) => {
                    let k = self.spec_transitions()[i].0;
                    &&& 0 <= k < self.spec_types().len() ==> (r matches Some(n) && n.spec_bytes()
                        == self.spec_types()[k].2)
                    &&& !(0 <= k < self.spec_types().len()) ==> r is None
                },
                None => match self.spec_posix_rule() {
                    Some(p) => r matches Some(n) && n@ == spec_name_at(p, utc_year(ts@.0), ts@.0),
                    None => r is None,
                },
            },
    {
        match self.get_transition(ts.as_seconds()) {
            None => match &self.posix {
                None => None,
                Some(p) => p.name(ts),
            },
            Some(trans) => {
                if trans.name_idx < self.ttypes.len() {
                    let abbr = self.ttypes[trans.name_idx].abbr.as_str();
                    proof {
                        assert(self.spec_types()[trans.name_idx as int] == ttype_view(
                            self.ttypes@[trans.name_idx as int],
                        ));
                    }
                    Some(abbr)
                } else {
                    None
                }
            },
        }
    }

    fn offset(&self, ts: Timestamp) -> (r: UtcOffset)
        ensures
            r.spec_total_seconds() == spec_offset_of_zone(
                self.spec_transitions(),
                self.spec_posix_rule(),
                ts@.0,
            ),
    {
        match self.get_transition(ts.as_seconds()) {
            None => match &self.posix {
                None => {
                    if self.transitions.len() > 0 {
                        let last = self.transitions[self.transitions.len() - 1].offset;
                        proof {
                            assert(self.spec_transitions().last() == transition_view(self.transitions@.last()));
                        }
                        last
                    } else {
                        UtcOffset::utc()
                    }
                },
                Some(p) => p.offset(ts),
            },
            Some(trans) => trans.offset,
        }
    }

    /// The converted date time names the same instant, unless it is in a leap second.
    fn convert_utc(self, utc: DateTime) -> (r: DateTime)
        ensures
            utc@.1@.3 < 1_000_000_000 ==> spec_compare_instants(r, utc) == 0,
            match spec_transition_index(
                self.spec_transitions(),
                utc.spec_utc_seconds(),
            ) {
                Some(i) => r@.2.spec_total_seconds() == self.spec_transitions()[i].4,
                None => match self.spec_posix_rule() {
                    Some(p) => r@.2.spec_total_seconds() == spec_offset_at(
                        p,
                        utc@.0@.0,
                        spec_local_seconds(utc@.0, utc@.1),
                    ),
                    None => r@ == utc@,
                },
            },
    {
        let secs = utc.timestamp().as_seconds();
        let found = match self.get_transition(secs) {
            Some(trans) => Some(trans.offset),
            None => None,
        };
        match found {
            Some(offset) => {
                let time = utc.time();
                proof {
                    use_type_invariant(&offset);
                    use_type_invariant(time);
                    crate::timezone::lemma_shift_in_range(utc@.0, utc@.1, offset);
                    if utc@.1@.3 < 1_000_000_000 {
                        crate::datetime::lemma_shift_wall_clock_seconds(utc@.0, utc@.1, offset.spec_total_seconds());
                    }
                }
                let mut moved = utc;
                moved.shift(offset);
                moved.with_timezone(offset)
            },
            None => match self.posix {
                None => utc,
                Some(p) => p.convert_utc(utc),
            },
        }
    }

    fn resolve(self, date: Date, time: Time) -> (r: DateTimeResolution)
        ensures
            r@.0 == date,
            r@.1 == time,
            (r@.4, r@.2.spec_total_seconds(), r@.3.spec_total_seconds())
                == spec_zone_resolution(
                self.spec_transitions(),
                self.spec_posix_rule(),
                date@.0,
                spec_local_seconds(date, time),
            ),
    {
        let ts = NaiveTimestamp::new(&date, &time);
        let n = self.transitions.len();
        let ghost tv = self.spec_transitions();
        let ghost keys = starts_of(tv);
        proof {
            use_type_invariant(&self);
            lemma_count_below_bounds(keys, ts.0 as int, keys.len());
            assert(keys == starts_of(self.transitions@.map_values(|t: Transition| transition_view(t))));
            assert(forall|k: int| 0 <= k < n ==> #[trigger] tv[k] == transition_view(self.transitions@[k]));
        }
        let found = search_transitions(&self.transitions, ts.0, false);
        proof {
            if keys_sorted(keys) {
                let c = count_below(keys, ts.0 as int, keys.len());
                match spec_search(keys, ts.0 as int) {
                    Ok(i) => {
                        assert(i == c);
                        assert(found == Ok::<usize, usize>(i as usize));
                    },
                    Err(i) => {
                        assert(i == c);
                        assert(found == Err::<usize, usize>(i as usize));
                    },
                }
            }
        }
        let (prev, cur, next): (Option<usize>, usize, Option<usize>) = match found {
            Ok(i) => (if i >= 1 { Some(i - 1) } else { None }, i, if i + 1 < n { Some(i + 1) } else { None }),
            Err(i) => {
                if i == n {
                    if n >= 2 && self.transitions[n - 1].is_missing(ts) {
                        let earlier = self.transitions[n - 2].offset;
                        let later = self.transitions[n - 1].offset;
                        return DateTimeResolution::missing(date, time, earlier, later);
                    }
                    return match self.posix {
                        Some(posix) => posix.resolve(date, time),
                        None => {
                            let offset = if n > 0 {
                                self.transitions[n - 1].offset
                            } else {
                                UtcOffset::utc()
                            };
                            proof {
                                if n > 0 {
                                    assert(tv.last() == transition_view(self.transitions@.last()));
                                }
                            }
                            DateTimeResolution::unambiguous(date, time, offset)
                        },
                    };
                } else if i == 0 {
                    (None, 0, if 1 < n { Some(1) } else { None })
                } else {
                    (if i >= 2 { Some(i - 2) } else { None }, i - 1, Some(i))
                }
            },
        };
        if let Some(k) = next {
            if self.transitions[k].is_ambiguous(ts) {
                return DateTimeResolution::ambiguous(date, time, self.transitions[cur].offset, self.transitions[k].offset);
            }
        }
        if self.transitions[cur].is_missing(ts) {
            if let Some(j) = prev {
                return DateTimeResolution::missing(date, time, self.transitions[j].offset, self.transitions[cur].offset);
            }
        }
        DateTimeResolution::unambiguous(date, time, self.transitions[cur].offset)
    }

    /// The kind and offsets of a local time follow the transition it falls in, or the
    /// POSIX rule after the last one.
    open spec fn resolves_to(self, date: Date, time: Time, r: DateTimeResolution) -> bool {
        &&& r@.0 == date
        &&& r@.1 == time
        &&& (r@.4, r@.2.spec_total_seconds(), r@.3.spec_total_seconds())
            == spec_zone_resolution(
            self.spec_transitions(),
            self.spec_posix_rule(),
            date@.0,
            spec_local_seconds(date, time),
        )
    }

    fn is_fixed(&self) -> (r: bool)
        ensures
            r == self.spec_is_fixed(),
    {
        self.fixed
    }
}

} // verus!
