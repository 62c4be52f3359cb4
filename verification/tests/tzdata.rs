use eos::tzdata::{binary_search_by_zone, compare_strings, ZoneEntry};

static ENTRIES: [ZoneEntry; 3] = [
    ZoneEntry { zone: "America/New_York", data: b"new york" },
    ZoneEntry { zone: "Europe/London", data: b"london" },
    ZoneEntry { zone: "UTC", data: b"utc" },
];

#[test]
fn compares_strings_by_bytes() {
    assert_eq!(compare_strings("abc", "abd"), -1);
    assert_eq!(compare_strings("abd", "abc"), 1);
    assert_eq!(compare_strings("abc", "abc"), 0);
    assert_eq!(compare_strings("ab", "abc"), -1);
    assert_eq!(compare_strings("abc", "ab"), 1);
    assert_eq!(compare_strings("", ""), 0);
}

#[test]
fn finds_zones_by_identifier() {
    assert_eq!(binary_search_by_zone(&ENTRIES, "Europe/London"), Some(&b"london"[..]));
    assert_eq!(binary_search_by_zone(&ENTRIES, "UTC"), Some(&b"utc"[..]));
    assert_eq!(binary_search_by_zone(&ENTRIES, "America/New_York"), Some(&b"new york"[..]));
    assert_eq!(binary_search_by_zone(&ENTRIES, "nonsense"), None);
    assert_eq!(binary_search_by_zone(&ENTRIES, ""), None);
}
