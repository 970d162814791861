use yuyuko::api::youtube::{
    checked_iso8601_duration, extract_video_id, normalize_url, parse_iso8601_duration,
};

#[test]
fn test_parse_duration() {
    assert_eq!(parse_iso8601_duration("PT1H30M45S"), 5445);
    assert_eq!(parse_iso8601_duration("PT10M"), 600);
    assert_eq!(parse_iso8601_duration("PT45S"), 45);
}

#[test]
fn parse_duration_edges() {
    assert_eq!(parse_iso8601_duration(""), 0);
    assert_eq!(parse_iso8601_duration("PT"), 0);
    assert_eq!(parse_iso8601_duration("PT0S"), 0);
    assert_eq!(parse_iso8601_duration("45"), 0);
    assert_eq!(parse_iso8601_duration("P1DT2H"), 7200);
    assert_eq!(parse_iso8601_duration("PT007M"), 420);
    assert_eq!(parse_iso8601_duration("PT99999999999H5S"), 5);
    assert_eq!(parse_iso8601_duration("PT596523H"), 2147482800);
}

#[test]
fn normalize_url_prefixes_the_id() {
    assert_eq!(normalize_url("dQw4w9WgXcQ"), "https://youtube.com/watch?v=dQw4w9WgXcQ");
    assert_eq!(normalize_url(""), "https://youtube.com/watch?v=");
}

#[test]
fn test_extract_video_id() {
    assert_eq!(
        extract_video_id("dQw4w9WgXcQ"),
        Some("dQw4w9WgXcQ".to_string())
    );
    assert_eq!(
        extract_video_id("https://www.youtube.com/watch?v=dQw4w9WgXcQ"),
        Some("dQw4w9WgXcQ".to_string())
    );
    assert_eq!(
        extract_video_id("https://youtu.be/dQw4w9WgXcQ"),
        Some("dQw4w9WgXcQ".to_string())
    );
}

#[test]
fn extract_video_id_cuts_at_the_next_parameter() {
    assert_eq!(
        extract_video_id("https://www.youtube.com/watch?v=dQw4w9WgXcQ&t=42s"),
        Some("dQw4w9WgXcQ".to_string())
    );
    assert_eq!(
        extract_video_id("https://www.youtube.com/watch?list=PL1&v=dQw4w9WgXcQ"),
        Some("dQw4w9WgXcQ".to_string())
    );
    assert_eq!(
        extract_video_id("https://www.youtube.com/watch?v=dQw4w9WgXcQextra"),
        Some("dQw4w9WgXcQ".to_string())
    );
    assert_eq!(
        extract_video_id("https://youtu.be/dQw4w9WgXcQ?si=abc"),
        Some("dQw4w9WgXcQ".to_string())
    );
    assert_eq!(
        extract_video_id("https://youtu.be/dQw4w9WgXcQ/"),
        Some("dQw4w9WgXcQ".to_string())
    );
    assert_eq!(extract_video_id("a_b-c_d-e_f"), Some("a_b-c_d-e_f".to_string()));
}

#[test]
fn extract_video_id_finds_nothing() {
    assert_eq!(extract_video_id(""), None);
    assert_eq!(extract_video_id("short"), None);
    assert_eq!(extract_video_id("dQw4w9WgXc!"), None);
    assert_eq!(extract_video_id("https://www.youtube.com/watch?v=short"), None);
    assert_eq!(extract_video_id("https://www.youtube.com/watch?v=short&x=dQw4w9WgXcQ"), None);
    assert_eq!(extract_video_id("https://youtu.be/short"), None);
    assert_eq!(extract_video_id("https://example.com/?v=dQw4w9WgXcQ"), None);
    assert_eq!(extract_video_id("https://www.youtube.com/watch"), None);
}

#[test]
fn extract_video_id_falls_back_to_the_short_address() {
    assert_eq!(
        extract_video_id("youtube.com/watch?v=abc&x see youtu.be/dQw4w9WgXcQ"),
        Some("dQw4w9WgXcQ".to_string())
    );
    assert_eq!(
        extract_video_id("youtube.com/watch?v=abc see youtu.be/dQw4w9WgXcQ"),
        Some("abc see you".to_string())
    );
}

#[test]
fn checked_duration_reports_what_does_not_fit() {
    assert_eq!(checked_iso8601_duration("PT1H30M45S"), Some(5445));
    assert_eq!(checked_iso8601_duration("PT596523H14M7S"), Some(i32::MAX));
    assert_eq!(checked_iso8601_duration("PT596523H14M8S"), None);
    assert_eq!(checked_iso8601_duration("PT2147483647S1S"), None);
    assert_eq!(checked_iso8601_duration("PT2147483648S"), Some(0));
}
