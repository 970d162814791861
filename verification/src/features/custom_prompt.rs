//! Custom prompts that users give the assistant: where they may come from,
//! what they may hold, and how often a user may ask.
use vstd::prelude::*;
use vstd::utf8::encode_utf8;
use std::collections::HashMap;
use crate::features::ayumi::{contains_any, holds_any};
use crate::utils::text::{
    chars_of, contains, contains_text, last_segment, lowercase, occurs_at, segment_start,
    starts_with, string_from_range, to_lowercase, trim, trimmed,
};

verus! {

/// A user's custom prompt, as stored.
#[derive(Debug, Clone)]
pub struct UserPromptData {
    pub user_id: String,
    pub prompt: String,
    pub timestamp: String,
    pub last_updated: u64,
}

/// The length of the window in which requests are counted, in nanoseconds:
/// one minute.
pub const RATE_LIMIT_WINDOW: u64 = 60_000_000_000;

/// The number of nanoseconds in a second.
pub const NANOS_PER_SECOND: u64 = 1_000_000_000;

/// The most requests a user may make within one window.
pub const MAX_REQUESTS_PER_WINDOW: u32 = 3;

/// What is remembered of a user's requests: how many fell into the current
/// window, and when the window began, in nanoseconds on the caller's clock.
#[derive(Debug, Clone, Copy, PartialEq, Eq)]
pub struct RateLimitEntry {
    pub count: u32,
    pub timestamp: u64,
}

/// The windows of all users who have asked.
pub struct RateLimits {
    entries: HashMap<u64, RateLimitEntry>,
}

/// The time that has passed from `since` to `now`; nothing where the clock
/// reads earlier than `since`.
pub open spec fn elapsed(since: u64, now: u64) -> int {
    if now >= since {
        now - since
    } else {
        0
    }
}

/// What a request at `now` does to a user's window, and the answer it gets.
///
/// A first request, or one after the window has passed, opens a window that
/// holds this one request. Inside the window a request is counted until the
/// window is full; from then on it is refused, with the whole seconds that
/// remain of the window.
pub open spec fn rate_step(entry: Option<RateLimitEntry>, now: u64) -> (
    RateLimitEntry,
    Result<bool, u64>,
) {
    match entry {
        None => (RateLimitEntry { count: 1, timestamp: now }, Ok(false)),
        Some(e) => if elapsed(e.timestamp, now) > RATE_LIMIT_WINDOW {
            (RateLimitEntry { count: 1, timestamp: now }, Ok(false))
        } else if e.count >= MAX_REQUESTS_PER_WINDOW {
            (e, Err((60 - elapsed(e.timestamp, now) / (NANOS_PER_SECOND as int)) as u64))
        } else {
            (RateLimitEntry { count: (e.count + 1) as u32, timestamp: e.timestamp }, Ok(false))
        },
    }
}

impl View for RateLimits {
    type V = Map<u64, RateLimitEntry>;

    closed spec fn view(&self) -> Map<u64, RateLimitEntry> {
        self.entries@
    }
}

impl RateLimits {
    /// No user has asked yet.
    pub fn new() -> (limits: RateLimits)
        ensures
            limits@ == Map::<u64, RateLimitEntry>::empty(),
    {
        RateLimits { entries: HashMap::new() }
    }
}

/// Counts a request of `user_id` at `now` and says whether it is refused:
/// `Err` with the seconds to wait where the user's window is full,
/// `Ok(false)` otherwise.
pub fn is_rate_limited(limits: &mut RateLimits, user_id: u64, now: u64) -> (answer: Result<
    bool,
    u64,
>)
    ensures
        answer == rate_step(
            if old(limits)@.contains_key(user_id) {
                Some(old(limits)@[user_id])
            } else {
                None
            },
            now,
        ).1,
        final(limits)@ == old(limits)@.insert(
            user_id,
            rate_step(
                if old(limits)@.contains_key(user_id) {
                    Some(old(limits)@[user_id])
                } else {
                    None
                },
                now,
            ).0,
        ),
{
    broadcast use vstd::std_specs::hash::group_hash_axioms;

    let known: Option<RateLimitEntry> = match limits.entries.get(&user_id) {
        Some(entry) => Some(*entry),
        None => None,
    };
    match known {
        Some(entry) => {
            let since: u64 = if now >= entry.timestamp {
                now - entry.timestamp
            } else {
                0
            };
            if since > RATE_LIMIT_WINDOW {
                limits.entries.insert(user_id, RateLimitEntry { count: 1, timestamp: now });
                Ok(false)
            } else if entry.count >= MAX_REQUESTS_PER_WINDOW {
                limits.entries.insert(user_id, entry);
                Err(60 - since / NANOS_PER_SECOND)
            } else {
                limits.entries.insert(
                    user_id,
                    RateLimitEntry { count: entry.count + 1, timestamp: entry.timestamp },
                );
                Ok(false)
            }
        },
        None => {
            limits.entries.insert(user_id, RateLimitEntry { count: 1, timestamp: now });
            Ok(false)
        },
    }
}

/// Whether a URL points to a page of Rentry.
pub open spec fn rentry_url(url: Seq<char>) -> bool {
    occurs_at(url, "https://rentry.co/"@, 0) || occurs_at(url, "https://www.rentry.co/"@, 0)
}

/// Whether a URL points to a page of Rentry.
pub fn is_valid_rentry_url(url: &str) -> (valid: bool)
    ensures
        valid == rentry_url(url@),
{
    starts_with(url, "https://rentry.co/") || starts_with(url, "https://www.rentry.co/")
}

/// The length of `s` without the slashes at its end.
pub open spec fn trimmed_len(s: Seq<char>) -> int
    decreases s.len(),
{
    if s.len() > 0 && s.last() == '/' {
        trimmed_len(s.drop_last())
    } else {
        s.len() as int
    }
}

/// The code of a Rentry page: the last segment of its URL, slashes at the
/// end set aside.
pub open spec fn rentry_code(url: Seq<char>) -> Seq<char> {
    last_segment(url.take(trimmed_len(url)))
}

/// Extracts the code of a Rentry page from its URL.
pub fn extract_rentry_code(url: &str) -> (code: Option<String>)
    ensures
        code matches Some(c) && c@ == rentry_code(url@),
{
    let chars = chars_of(url);
    let mut end: usize = chars.len();
    assert(url@.take(end as int) =~= url@);
    while end > 0 && chars[end - 1] == '/'
        invariant
            end <= chars.len(),
            chars@ == url@,
            trimmed_len(url@) == trimmed_len(url@.take(end as int)),
        decreases end,
    {
        proof {
            let prefix = url@.take(end as int);
            assert(prefix.last() == chars@[end - 1]);
            assert(prefix.drop_last() =~= url@.take(end - 1));
        }
        end -= 1;
    }
    let ghost trimmed = url@.take(end as int);
    proof {
        if end > 0 {
            assert(trimmed.last() == chars@[end - 1]);
        }
        assert(trimmed_len(trimmed) == end);
    }
    let mut start: usize = end;
    assert(trimmed.take(end as int) =~= trimmed);
    while start > 0 && chars[start - 1] != '/'
        invariant
            start <= end <= chars.len(),
            chars@ == url@,
            trimmed == url@.take(end as int),
            segment_start(trimmed) == segment_start(trimmed.take(start as int)),
        decreases start,
    {
        proof {
            let prefix = trimmed.take(start as int);
            assert(prefix.last() == chars@[start - 1]);
            assert(prefix.drop_last() =~= trimmed.take(start - 1));
        }
        start -= 1;
    }
    proof {
        let prefix = trimmed.take(start as int);
        if start > 0 {
            assert(prefix.last() == chars@[start - 1]);
        }
        assert(segment_start(prefix) == start);
        assert(chars@.subrange(start as int, end as int) =~= trimmed.skip(start as int));
    }
    Some(string_from_range(&chars, start, end))
}

/// Why a prompt is refused.
#[derive(Debug, Clone, Copy, PartialEq, Eq)]
pub enum PromptError {
    /// Fewer than 10 bytes.
    TooShort,
    /// More than 10,000 bytes.
    TooLong,
    /// The prompt holds the start of a call that could do harm.
    Harmful,
}

impl PromptError {
    /// What to tell the user.
    pub fn message(&self) -> (text: &'static str)
        ensures
            text@ == match self {
                PromptError::TooShort => "Prompt is too short (minimum 10 characters)"@,
                PromptError::TooLong => "Prompt is too long (maximum 10,000 characters)"@,
                PromptError::Harmful => "Prompt contains potentially harmful content"@,
            },
    {
        match self {
            PromptError::TooShort => "Prompt is too short (minimum 10 characters)",
            PromptError::TooLong => "Prompt is too long (maximum 10,000 characters)",
            PromptError::Harmful => "Prompt contains potentially harmful content",
        }
    }
}

/// Whether a text holds the start of a call that could do harm.
pub open spec fn holds_harmful_call(content: Seq<char>) -> bool {
    contains_text(content, "eval("@) || contains_text(content, "Function("@) || contains_text(
        content,
        "setTimeout("@,
    ) || contains_text(content, "setInterval("@) || contains_text(content, "require("@)
}

/// The verdict on a prompt: too short below 10 bytes of UTF-8, too long
/// above 10,000, harmful where it holds the start of a harmful call.
pub open spec fn prompt_verdict(content: Seq<char>) -> Result<(), PromptError> {
    if encode_utf8(content).len() < 10 {
        Err(PromptError::TooShort)
    } else if encode_utf8(content).len() > 10000 {
        Err(PromptError::TooLong)
    } else if holds_harmful_call(content) {
        Err(PromptError::Harmful)
    } else {
        Ok(())
    }
}

/// Checks that a prompt may be used.
pub fn validate_prompt_content(content: &str) -> (verdict: Result<(), PromptError>)
    ensures
        verdict == prompt_verdict(content@),
{
    let n = content.as_bytes().len();
    if n < 10 {
        return Err(PromptError::TooShort);
    }
    if n > 10000 {
        return Err(PromptError::TooLong);
    }
    if contains(content, "eval(") || contains(content, "Function(") || contains(
        content,
        "setTimeout(",
    ) || contains(content, "setInterval(") || contains(content, "require(") {
        return Err(PromptError::Harmful);
    }
    Ok(())
}

/// The address from which the plain text of a Rentry page is fetched.
pub open spec fn raw_url(code: Seq<char>) -> Seq<char> {
    "https://rentry.co/"@ + code + "/raw"@
}

/// The address from which the plain text of the page at `rentry_url` is
/// fetched.
pub fn rentry_raw_url(rentry_url: &str) -> (url: String)
    ensures
        url@ == raw_url(rentry_code(rentry_url@)),
{
    let mut url = String::from_str("https://rentry.co/");
    match extract_rentry_code(rentry_url) {
        Some(code) => {
            url.append(code.as_str());
        },
        None => {},
    }
    url.append("/raw");
    url
}

/// The marks of a page that is no prompt: a request for an access code, or
/// the start of an HTML document.
pub open spec fn error_page_marks() -> Seq<&'static str> {
    seq!["access code", "<!doctype", "<html"]
}

/// What was fetched from Rentry, taken as a prompt: the content without the
/// white space around it. `None` where the content is an error page, which
/// in lower case holds one of the marks of such a page.
pub open spec fn fetched_prompt(content: Seq<char>) -> Option<Seq<char>> {
    if holds_any(lowercase(content), error_page_marks()) {
        None
    } else {
        Some(trimmed(content))
    }
}

/// Takes what was fetched from Rentry as a prompt.
pub fn read_fetched_prompt(content: &str) -> (prompt: Option<String>)
    ensures
        match prompt {
            Some(text) => fetched_prompt(content@) == Some(text@),
            None => fetched_prompt(content@) is None,
        },
{
    let marks = ["access code", "<!doctype", "<html"];
    assert(marks@ =~= error_page_marks());
    let lower = to_lowercase(content);
    if contains_any(lower.as_str(), &marks) {
        None
    } else {
        Some(trim(content))
    }
}

} // verus!
