use ore_stats::text::{chars_of, contains_chars, find_bytes_from, str_contains, str_equals};

#[test]
fn finding_bytes() {
    assert_eq!(find_bytes_from(b"abcabc", b"bc", 0), Some(1));
    assert_eq!(find_bytes_from(b"abcabc", b"bc", 2), Some(4));
    assert_eq!(find_bytes_from(b"abcabc", b"bd", 0), None);
    assert_eq!(find_bytes_from(b"ab", b"abc", 0), None);
    assert_eq!(find_bytes_from(b"abc", b"", 1), Some(1));
}

#[test]
fn text_helpers() {
    assert!(str_contains("helius-rpc.com", "helius"));
    assert!(!str_contains("quicknode", "helius"));
    assert!(str_equals("live", "live"));
    assert!(!str_equals("live", "liv"));
    assert_eq!(chars_of("aé"), vec!['a', 'é']);
    assert!(contains_chars(&vec!['x', 'y', 'z'], &vec!['y', 'z']));
}
