use named_lock::marker::{format_marker, parse_marker, trim_marker};

#[test]
fn format_exact_values() {
    assert_eq!(format_marker(0), "0");
    assert_eq!(format_marker(7), "7");
    assert_eq!(format_marker(30000), "30000");
    assert_eq!(format_marker(987_654_321), "987654321");
    assert_eq!(format_marker(u64::MAX), "18446744073709551615");
}

#[test]
fn parse_exact_values() {
    assert_eq!(parse_marker("0"), Some(0));
    assert_eq!(parse_marker("12345"), Some(12345));
    assert_eq!(parse_marker("007"), Some(7));
    assert_eq!(parse_marker("18446744073709551615"), Some(u64::MAX));
}

#[test]
fn parse_rejects_non_markers() {
    assert_eq!(parse_marker(""), None);
    assert_eq!(parse_marker("12a3"), None);
    assert_eq!(parse_marker("-5"), None);
    assert_eq!(parse_marker("+5"), None);
    assert_eq!(parse_marker(" 5"), None);
    assert_eq!(parse_marker("5\n"), None);
    assert_eq!(parse_marker("18446744073709551616"), None);
    assert_eq!(parse_marker("99999999999999999999999"), None);
}

#[test]
fn round_trip() {
    for t in [0u64, 1, 9, 10, 29_999, 30_000, 1_700_000_000_000, u64::MAX] {
        assert_eq!(parse_marker(&format_marker(t)), Some(t));
    }
}

#[test]
fn trim_strips_padding() {
    assert_eq!(trim_marker("12345\n"), "12345");
    assert_eq!(trim_marker(" \t12345 \r\n"), "12345");
    assert_eq!(trim_marker("12345"), "12345");
    assert_eq!(trim_marker(""), "");
    assert_eq!(trim_marker(" \n\t\r"), "");
    assert_eq!(trim_marker("a b"), "a b");
}

#[test]
fn trimmed_file_content_parses() {
    assert_eq!(parse_marker(trim_marker("30000\n")), Some(30000));
}
