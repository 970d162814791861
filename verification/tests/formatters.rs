use yuyuko::utils::formatters::{format_duration, format_number, format_relative_time, truncate};

#[test]
fn test_format_number() {
    assert_eq!(format_number(1000), "1,000");
    assert_eq!(format_number(1000000), "1,000,000");
    assert_eq!(format_number(123), "123");
}

#[test]
fn test_format_duration() {
    assert_eq!(format_duration(30), "30m");
    assert_eq!(format_duration(90), "1h 30m");
    assert_eq!(format_duration(120), "2h");
}

#[test]
fn test_truncate() {
    assert_eq!(truncate("hello", 10), "hello");
    assert_eq!(truncate("hello world", 8), "hello...");
}

#[test]
fn format_number_groups_from_the_end() {
    assert_eq!(format_number(0), "0");
    assert_eq!(format_number(999), "999");
    assert_eq!(format_number(12345), "12,345");
    assert_eq!(format_number(i64::MAX), "9,223,372,036,854,775,807");
    assert_eq!(format_number(-1000), "-1,000");
    assert_eq!(format_number(-12), "-12");
}

#[test]
fn format_number_counts_the_sign_as_a_position() {
    assert_eq!(format_number(-100), "-,100");
    assert_eq!(format_number(-123456), "-,123,456");
}

#[test]
fn format_duration_edges() {
    assert_eq!(format_duration(0), "0m");
    assert_eq!(format_duration(59), "59m");
    assert_eq!(format_duration(60), "1h");
    assert_eq!(format_duration(61), "1h 1m");
    assert_eq!(format_duration(-5), "-5m");
    assert_eq!(format_duration(1439), "23h 59m");
}

#[test]
fn format_relative_time_steps() {
    assert_eq!(format_relative_time(0), "just now");
    assert_eq!(format_relative_time(59), "just now");
    assert_eq!(format_relative_time(60), "1 minute ago");
    assert_eq!(format_relative_time(119), "1 minute ago");
    assert_eq!(format_relative_time(120), "2 minutes ago");
    assert_eq!(format_relative_time(3600), "1 hour ago");
    assert_eq!(format_relative_time(7200), "2 hours ago");
    assert_eq!(format_relative_time(86400), "1 day ago");
    assert_eq!(format_relative_time(172800), "2 days ago");
    assert_eq!(format_relative_time(-10), "just now");
}

#[test]
fn truncate_edges() {
    assert_eq!(truncate("", 0), "");
    assert_eq!(truncate("abcd", 4), "abcd");
    assert_eq!(truncate("abcd", 3), "...");
    assert_eq!(truncate("abcd", 2), "...");
    assert_eq!(truncate("abcdefgh", 7), "abcd...");
    assert_eq!(truncate("日本語のテキスト", 9), "日本...");
    assert_eq!(truncate("日本語", 9), "日本語");
}
