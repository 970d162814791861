use yuyuko::features::custom_prompt::{
    extract_rentry_code, is_rate_limited, is_valid_rentry_url, read_fetched_prompt,
    rentry_raw_url, validate_prompt_content, PromptError, RateLimits,
};
use yuyuko::utils::text::{contains, starts_with, str_eq};

const SECOND: u64 = 1_000_000_000;

#[test]
fn the_first_three_requests_pass() {
    let mut limits = RateLimits::new();
    assert_eq!(is_rate_limited(&mut limits, 7, 0), Ok(false));
    assert_eq!(is_rate_limited(&mut limits, 7, SECOND), Ok(false));
    assert_eq!(is_rate_limited(&mut limits, 7, 2 * SECOND), Ok(false));
    assert_eq!(is_rate_limited(&mut limits, 7, 3 * SECOND), Err(57));
}

#[test]
fn the_wait_is_the_whole_seconds_that_remain() {
    let mut limits = RateLimits::new();
    for _ in 0..3 {
        assert_eq!(is_rate_limited(&mut limits, 7, 10 * SECOND), Ok(false));
    }
    assert_eq!(is_rate_limited(&mut limits, 7, 10 * SECOND), Err(60));
    assert_eq!(is_rate_limited(&mut limits, 7, 10 * SECOND + 1), Err(60));
    assert_eq!(is_rate_limited(&mut limits, 7, 11 * SECOND - 1), Err(60));
    assert_eq!(is_rate_limited(&mut limits, 7, 11 * SECOND), Err(59));
    assert_eq!(is_rate_limited(&mut limits, 7, 70 * SECOND), Err(0));
    assert_eq!(is_rate_limited(&mut limits, 7, 5 * SECOND), Err(60));
}

#[test]
fn a_new_window_opens_after_a_minute() {
    let mut limits = RateLimits::new();
    for _ in 0..4 {
        let _ = is_rate_limited(&mut limits, 7, 0);
    }
    assert_eq!(is_rate_limited(&mut limits, 7, 60 * SECOND), Err(0));
    assert_eq!(is_rate_limited(&mut limits, 7, 60 * SECOND + 1), Ok(false));
    assert_eq!(is_rate_limited(&mut limits, 7, 61 * SECOND), Ok(false));
    assert_eq!(is_rate_limited(&mut limits, 7, 62 * SECOND), Ok(false));
    assert_eq!(is_rate_limited(&mut limits, 7, 63 * SECOND), Err(58));
}

#[test]
fn users_are_counted_apart() {
    let mut limits = RateLimits::new();
    for _ in 0..3 {
        assert_eq!(is_rate_limited(&mut limits, 1, 0), Ok(false));
    }
    assert!(is_rate_limited(&mut limits, 1, 0).is_err());
    assert_eq!(is_rate_limited(&mut limits, 2, 0), Ok(false));
}

#[test]
fn rentry_urls() {
    assert!(is_valid_rentry_url("https://rentry.co/abc"));
    assert!(is_valid_rentry_url("https://www.rentry.co/abc"));
    assert!(is_valid_rentry_url("https://rentry.co/"));
    assert!(!is_valid_rentry_url("http://rentry.co/abc"));
    assert!(!is_valid_rentry_url("https://rentry.org/abc"));
    assert!(!is_valid_rentry_url("https://rentry.co"));
    assert!(!is_valid_rentry_url(" https://rentry.co/abc"));
    assert!(!is_valid_rentry_url(""));
}

#[test]
fn rentry_codes() {
    assert_eq!(extract_rentry_code("https://rentry.co/abc"), Some("abc".to_string()));
    assert_eq!(extract_rentry_code("https://rentry.co/abc/"), Some("abc".to_string()));
    assert_eq!(extract_rentry_code("https://rentry.co/abc///"), Some("abc".to_string()));
    assert_eq!(extract_rentry_code("https://rentry.co/a/b"), Some("b".to_string()));
    assert_eq!(extract_rentry_code("abc"), Some("abc".to_string()));
    assert_eq!(extract_rentry_code(""), Some(String::new()));
    assert_eq!(extract_rentry_code("///"), Some(String::new()));
}

#[test]
fn prompts_are_held_to_their_bounds() {
    assert_eq!(validate_prompt_content("123456789"), Err(PromptError::TooShort));
    assert_eq!(validate_prompt_content(""), Err(PromptError::TooShort));
    assert_eq!(validate_prompt_content("1234567890"), Ok(()));
    assert_eq!(validate_prompt_content("日本語!"), Ok(()));
    assert_eq!(validate_prompt_content("日本語"), Err(PromptError::TooShort));
    assert_eq!(validate_prompt_content(&"a".repeat(10000)), Ok(()));
    assert_eq!(validate_prompt_content(&"a".repeat(10001)), Err(PromptError::TooLong));
}

#[test]
fn prompts_with_harmful_calls_are_refused() {
    for call in ["eval(", "Function(", "setTimeout(", "setInterval(", "require("] {
        let prompt = format!("You are a helpful {call}x) assistant");
        assert_eq!(validate_prompt_content(&prompt), Err(PromptError::Harmful), "{call}");
    }
    assert_eq!(validate_prompt_content("evaluate (this) function"), Ok(()));
    assert_eq!(validate_prompt_content("eval("), Err(PromptError::TooShort));
}

#[test]
fn the_messages_of_refusals() {
    assert_eq!(PromptError::TooShort.message(), "Prompt is too short (minimum 10 characters)");
    assert_eq!(PromptError::TooLong.message(), "Prompt is too long (maximum 10,000 characters)");
    assert_eq!(PromptError::Harmful.message(), "Prompt contains potentially harmful content");
}

#[test]
fn text_helpers() {
    assert!(str_eq("", ""));
    assert!(str_eq("añb", "añb"));
    assert!(!str_eq("a", "b"));
    assert!(!str_eq("a", "ab"));
    assert!(contains("hello world", "lo w"));
    assert!(contains("hello", ""));
    assert!(contains("", ""));
    assert!(contains("abc", "abc"));
    assert!(contains("abc", "c"));
    assert!(!contains("abc", "abcd"));
    assert!(!contains("", "a"));
    assert!(contains("日本語", "本語"));
    assert!(starts_with("abc", "ab"));
    assert!(starts_with("abc", ""));
    assert!(!starts_with("abc", "bc"));
    assert!(!starts_with("a", "ab"));
}

#[test]
fn what_is_fetched_from_rentry() {
    assert_eq!(rentry_raw_url("https://rentry.co/abc/"), "https://rentry.co/abc/raw");
    assert_eq!(rentry_raw_url("abc"), "https://rentry.co/abc/raw");
    assert_eq!(
        read_fetched_prompt("  You are a cat.\n"),
        Some("You are a cat.".to_string())
    );
    assert_eq!(read_fetched_prompt("Please enter the Access Code"), None);
    assert_eq!(read_fetched_prompt("<!DOCTYPE html><html>"), None);
    assert_eq!(read_fetched_prompt("see <HTML> tags"), None);
    assert_eq!(read_fetched_prompt(""), Some(String::new()));
    assert_eq!(yuyuko::utils::text::trim("\u{3000} a b \n"), "a b");
}
