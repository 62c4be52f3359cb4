//! Lookup of time zone data by zone identifier.
use vstd::prelude::*;

use vstd::string::StringSliceAdditionalSpecFns;

verus! {

/// Represents an IANA tzdb zone entry.
pub struct ZoneEntry {
    /// The raw zone ID identifier. For example, `America/New_York` or `Europe/London`.
    pub zone: &'static str,
    /// The raw TZif data corresponding to that zone.
    pub data: &'static [u8],
}

/// Compares two byte strings in lexicographic order: `-1`, `0` or `1`.
pub open spec fn lex_order(a: Seq<u8>, b: Seq<u8>) -> int
    decreases a.len(),
{
    if a.len() == 0 && b.len() == 0 {
        0
    } else if a.len() == 0 {
        -1
    } else if b.len() == 0 {
        1
    } else if a[0] < b[0] {
        -1
    } else if a[0] > b[0] {
        1
    } else {
        lex_order(a.drop_first(), b.drop_first())
    }
}

/// The comparison gives `-1`, `0` or `1`, and `0` exactly when the byte strings are equal.
proof fn lemma_lex_order_eq(a: Seq<u8>, b: Seq<u8>)
    ensures
        -1 <= lex_order(a, b) <= 1,
        (lex_order(a, b) == 0) <==> (a =~= b),
    decreases a.len(),
{
    if a.len() == 0 && b.len() == 0 {
        assert(a =~= b);
    } else if a.len() == 0 || b.len() == 0 {
        assert(a.len() != b.len());
    } else if a[0] != b[0] {
        assert(!(a =~= b));
    } else {
        lemma_lex_order_eq(a.drop_first(), b.drop_first());
        if a.drop_first() =~= b.drop_first() {
            assert forall|k: int| 0 <= k < a.len() implies a[k] == b[k] by {
                if k > 0 {
                    assert(a[k] == a.drop_first()[k - 1]);
                    assert(b[k] == b.drop_first()[k - 1]);
                }
            }
            assert(a =~= b);
        } else if a =~= b {
            assert(a.drop_first() =~= b.drop_first());
        }
    }
}

/// Comparing two byte strings after a common prefix compares their rests.
proof fn lemma_lex_order_skip(a: Seq<u8>, b: Seq<u8>, i: int)
    requires
        0 <= i <= a.len(),
        i <= b.len(),
        a.subrange(0, i) == b.subrange(0, i),
    ensures
        lex_order(a, b) == lex_order(a.subrange(i, a.len() as int), b.subrange(i, b.len() as int)),
    decreases i,
{
    if i > 0 {
        assert(a[0] == a.subrange(0, i)[0]);
        assert(b[0] == b.subrange(0, i)[0]);
        assert(a.drop_first().subrange(0, i - 1) =~= a.subrange(0, i).drop_first());
        assert(b.drop_first().subrange(0, i - 1) =~= b.subrange(0, i).drop_first());
        lemma_lex_order_skip(a.drop_first(), b.drop_first(), i - 1);
        assert(a.drop_first().subrange(i - 1, a.len() - 1) =~= a.subrange(i, a.len() as int));
        assert(b.drop_first().subrange(i - 1, b.len() - 1) =~= b.subrange(i, b.len() as int));
    } else {
        assert(a.subrange(0, a.len() as int) =~= a);
        assert(b.subrange(0, b.len() as int) =~= b);
    }
}

/// Compares two strings by their bytes in lexicographic order: `-1`, `0` or `1`.
pub fn compare_strings(lhs: &str, rhs: &str) -> (r: i8)
    ensures
        r == lex_order(lhs.spec_bytes(), rhs.spec_bytes()),
{
    let a = lhs.as_bytes();
    let b = rhs.as_bytes();
    let min_len = if a.len() < b.len() {
        a.len()
    } else {
        b.len()
    };
    let mut i: usize = 0;
    while i < min_len
        invariant
            a@ == lhs.spec_bytes(),
            b@ == rhs.spec_bytes(),
            min_len <= a@.len(),
            min_len <= b@.len(),
            min_len == a@.len() || min_len == b@.len(),
            i <= min_len,
            a@.subrange(0, i as int) == b@.subrange(0, i as int),
        decreases min_len - i,
    {
        if a[i] < b[i] {
            proof {
                lemma_lex_order_skip(a@, b@, i as int);
                assert(a@.subrange(i as int, a@.len() as int)[0] == a@[i as int]);
                assert(b@.subrange(i as int, b@.len() as int)[0] == b@[i as int]);
            }
            return -1;
        }
        if b[i] < a[i] {
            proof {
                lemma_lex_order_skip(a@, b@, i as int);
                assert(a@.subrange(i as int, a@.len() as int)[0] == a@[i as int]);
                assert(b@.subrange(i as int, b@.len() as int)[0] == b@[i as int]);
            }
            return 1;
        }
        proof {
            assert(a@.subrange(0, i + 1) =~= a@.subrange(0, i as int).push(a@[i as int]));
            assert(b@.subrange(0, i + 1) =~= b@.subrange(0, i as int).push(b@[i as int]));
        }
        i = i + 1;
    }
    proof {
        lemma_lex_order_skip(a@, b@, i as int);
    }
    if a.len() == b.len() {
        0
    } else if a.len() < b.len() {
        -1
    } else {
        1
    }
}

/// The zone identifiers of the entries are in strictly increasing lexicographic order.
pub open spec fn sorted_by_zone(data: Seq<ZoneEntry>) -> bool {
    forall|i: int, j: int|
        0 <= i < j < data.len() ==> lex_order(data[i].zone.spec_bytes(), data[j].zone.spec_bytes()) == -1
}

/// Whether an entry has the given zone identifier.
pub open spec fn has_zone(data: Seq<ZoneEntry>, i: int, zone: Seq<u8>) -> bool {
    data[i].zone.spec_bytes() == zone
}

/// Finds the TZif data of the entry with the given zone identifier by binary search.
///
/// Whatever is found belongs to an entry with that identifier; when the entries are
/// sorted by zone identifier, nothing is found only if no entry has it.
pub fn binary_search_by_zone(data: &'static [ZoneEntry], zone: &str) -> (r: Option<&'static [u8]>)
    ensures
        r matches Some(d) ==> exists|i: int|
            0 <= i < data@.len() && #[trigger] has_zone(data@, i, zone.spec_bytes()) && d == data@[i].data,
        sorted_by_zone(data@) && r is None ==> forall|i: int|
            0 <= i < data@.len() ==> !#[trigger] has_zone(data@, i, zone.spec_bytes()),
{
    let mut left: usize = 0;
    let mut right: usize = data.len();
    while left < right
        invariant
            left <= right <= data@.len(),
            sorted_by_zone(data@) ==> forall|i: int|
                0 <= i < data@.len() && !(left <= i < right) ==> !#[trigger] has_zone(data@, i, zone.spec_bytes()),
        decreases right - left,
    {
        let middle = left + (right - left) / 2;
        let entry = &data[middle];
        let order = compare_strings(entry.zone, zone);
        proof {
            lemma_lex_order_eq(entry.zone.spec_bytes(), zone.spec_bytes());
        }
        if order == -1 {
            proof {
                assert forall|i: int| 0 <= i <= middle && sorted_by_zone(data@) implies !has_zone(data@, i, zone.spec_bytes()) by {
                    if i < middle {
                        lemma_lex_order_trans(data@[i].zone.spec_bytes(), entry.zone.spec_bytes(), zone.spec_bytes());
                        lemma_lex_order_eq(data@[i].zone.spec_bytes(), zone.spec_bytes());
                    }
                }
            }
            left = middle + 1;
        } else if order == 1 {
            proof {
                assert forall|i: int| middle <= i < data@.len() && sorted_by_zone(data@) implies !has_zone(data@, i, zone.spec_bytes()) by {
                    if i > middle {
                        lemma_lex_order_antisym(entry.zone.spec_bytes(), zone.spec_bytes());
                        lemma_lex_order_trans(zone.spec_bytes(), entry.zone.spec_bytes(), data@[i].zone.spec_bytes());
                        lemma_lex_order_eq(zone.spec_bytes(), data@[i].zone.spec_bytes());
                    }
                }
            }
            right = middle;
        } else {
            proof {
                assert(has_zone(data@, middle as int, zone.spec_bytes()));
            }
            return Some(entry.data);
        }
    }
    None
}

/// Lexicographic order is transitive for "less than".
proof fn lemma_lex_order_trans(a: Seq<u8>, b: Seq<u8>, c: Seq<u8>)
    requires
        lex_order(a, b) == -1,
        lex_order(b, c) == -1,
    ensures
        lex_order(a, c) == -1,
    decreases a.len(),
{
    if a.len() > 0 && b.len() > 0 && c.len() > 0 && a[0] == b[0] && b[0] == c[0] {
        lemma_lex_order_trans(a.drop_first(), b.drop_first(), c.drop_first());
    }
}

/// Swapping the arguments of the comparison negates it.
proof fn lemma_lex_order_antisym(a: Seq<u8>, b: Seq<u8>)
    ensures
        lex_order(b, a) == -lex_order(a, b),
    decreases a.len(),
{
    if a.len() > 0 && b.len() > 0 && a[0] == b[0] {
        lemma_lex_order_antisym(a.drop_first(), b.drop_first());
    }
}

} // verus!
