use tspring::display::{byte_range, format_size, format_timestamp, highlight_ranges, truncate_str};

#[test]
fn format_size_units() {
    assert_eq!(format_size(0), "0 B");
    assert_eq!(format_size(1023), "1023 B");
    assert_eq!(format_size(1024), "1.0 KB");
    assert_eq!(format_size(1536), "1.5 KB");
    assert_eq!(format_size(1126), "1.1 KB");
    assert_eq!(format_size(1_048_576), "1.0 MB");
    assert_eq!(format_size(5 * 1_048_576 + 524_288), "5.5 MB");
    assert_eq!(format_size(1_073_741_824), "1.0 GB");
    assert_eq!(format_size(3 * 1_073_741_824), "3.0 GB");
}

#[test]
fn format_size_rounds_ties_to_even() {
    // 1280 bytes are exactly 1.25 KB.
    assert_eq!(format_size(1280), "1.2 KB");
    // 1331.2 would be 1.3; 1331 bytes are 1.2998 KB.
    assert_eq!(format_size(1331), "1.3 KB");
    assert_eq!(format_size(u64::MAX), "17179869184.0 GB");
}

#[test]
fn format_timestamp_cases() {
    assert_eq!(format_timestamp("20260312_143022"), "2026-03-12 14:30:22");
    assert_eq!(format_timestamp("2026"), "2026");
    assert_eq!(format_timestamp(""), "");
}

#[test]
fn truncate_str_cases() {
    assert_eq!(truncate_str("hello", 10), "hello");
    assert_eq!(truncate_str("hello", 5), "hello");
    assert_eq!(truncate_str("hello world", 5), "hell…");
    assert_eq!(truncate_str("héllo", 4), "hé…");
}

#[test]
fn byte_range_of_text() {
    assert_eq!(byte_range("héllo", 1, 3), "é");
    assert_eq!(byte_range("abc", 0, 0), "");
}

#[test]
fn highlight_marks_each_match_ignoring_case() {
    let r = highlight_ranges("Order-Service", "ser");
    assert_eq!(r, vec![(0, 6, false), (6, 9, true), (9, 13, false)]);
}

#[test]
fn highlight_with_empty_filter_is_plain() {
    assert_eq!(highlight_ranges("beans", ""), vec![(0, 5, false)]);
}

#[test]
fn highlight_matches_do_not_overlap() {
    assert_eq!(highlight_ranges("aaaa", "AA"), vec![(0, 2, true), (2, 4, true)]);
}

#[test]
fn highlight_without_match_is_plain() {
    assert_eq!(highlight_ranges("loggers", "xyz"), vec![(0, 7, false)]);
}

#[test]
fn highlight_of_empty_text() {
    assert_eq!(highlight_ranges("", "a"), vec![(0, 0, false)]);
}
