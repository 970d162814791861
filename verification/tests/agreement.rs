//! The library's text functions against the standard library and the crates
//! they stand on, over many generated inputs.
use unicode_normalization::UnicodeNormalization;
use yuyuko::api::llm::build_image_prompt;
use yuyuko::api::youtube::{checked_iso8601_duration, extract_video_id};
use yuyuko::commands::immersion_helpers::{extract_meta_property, extract_page_title};
use yuyuko::commands::novel::truncate_title;
use yuyuko::commands::react::parse_message_link;
use yuyuko::features::ayumi::smart_chunk_message;
use yuyuko::features::custom_prompt::{extract_rentry_code, is_valid_rentry_url};
use yuyuko::features::novel_recommender::{normalize_string, parse_suggested_titles};
use yuyuko::features::role_rank::validate_command;
use yuyuko::utils::formatters::{format_number, truncate};
use yuyuko::utils::text::{contains, last_path_segment, starts_with, str_eq, trim};

/// A small generator of pseudo-random numbers.
struct Generator(u64);

impl Generator {
    fn next(&mut self) -> u64 {
        self.0 = self.0.wrapping_mul(6364136223846793005).wrapping_add(1442695040888963407);
        self.0 >> 33
    }

    fn below(&mut self, bound: usize) -> usize {
        (self.next() % bound as u64) as usize
    }

    fn text(&mut self, alphabet: &[&str], max_len: usize) -> String {
        let len = self.below(max_len + 1);
        (0..len).map(|_| alphabet[self.below(alphabet.len())]).collect()
    }
}

const MIXED: &[&str] = &[
    "a", "b", "A", "/", "-", ".", " ", "\n", "\r", "\t", "é", "日", "\u{3000}", "1", "0", "&",
    "?", "=", "v", "\"", "'", "「", "」", "+", "<", ">", "!", "\u{301}",
];

const PLAIN: &[&str] = &["a", "b", "c", "1", "2", "/", "-", "_", " ", "&", "?", "=", "v", "."];

#[test]
fn searching_agrees_with_the_standard_library() {
    let mut g = Generator(1);
    for _ in 0..3000 {
        let text = g.text(MIXED, 12);
        let pattern = g.text(MIXED, 3);
        assert_eq!(contains(&text, &pattern), text.contains(&pattern), "{text:?} {pattern:?}");
        assert_eq!(starts_with(&text, &pattern), text.starts_with(&pattern));
        assert_eq!(str_eq(&text, &pattern), text == pattern);
        assert_eq!(trim(&text), text.trim());
        assert_eq!(last_path_segment(&text), text.split('/').last().unwrap_or(""));
        assert_eq!(validate_command(&text, &pattern), text.trim() == pattern.trim());
        assert_eq!(
            extract_rentry_code(&text),
            text.trim_end_matches('/').split('/').last().map(|s| s.to_string())
        );
    }
    for url in ["https://rentry.co/x", "https://www.rentry.co/", "https://rentry.co", "x"] {
        assert_eq!(
            is_valid_rentry_url(url),
            url.starts_with("https://rentry.co/") || url.starts_with("https://www.rentry.co/")
        );
    }
}

fn number_with_std(n: i64) -> String {
    let s = n.to_string();
    let mut result = String::new();
    let chars: Vec<char> = s.chars().collect();
    for (i, c) in chars.iter().enumerate() {
        if i > 0 && (chars.len() - i) % 3 == 0 && *c != '-' {
            result.push(',');
        }
        result.push(*c);
    }
    result
}

#[test]
fn numbers_agree_with_the_standard_library() {
    let mut g = Generator(2);
    for _ in 0..2000 {
        let shift = g.below(64);
        let n = (g.next() << 31 ^ g.next()) as i64 >> shift;
        for value in [n, -n, n.wrapping_neg()] {
            assert_eq!(format_number(value), number_with_std(value));
            assert_eq!(
                yuyuko::api::firebase::decimal::i64_to_decimal(value),
                value.to_string()
            );
        }
    }
    let mut g = Generator(3);
    let digits: &[&str] = &["0", "1", "9", "-", "+", "a", " ", "２"];
    for _ in 0..3000 {
        let text = g.text(digits, 21);
        let with_std = if text.starts_with('+') { None } else { text.parse::<i64>().ok() };
        assert_eq!(yuyuko::api::firebase::decimal::decimal_to_i64(&text), with_std, "{text:?}");
    }
}

fn truncated_with_std(s: &str, max_len: usize) -> String {
    if s.len() <= max_len {
        s.to_string()
    } else {
        format!("{}...", &s[..max_len.saturating_sub(3)])
    }
}

fn short_title_with_std(title: &str, max_len: usize) -> String {
    if title.chars().count() <= max_len {
        title.to_string()
    } else {
        format!("{}...", title.chars().take(max_len - 3).collect::<String>())
    }
}

#[test]
fn truncating_agrees_with_the_standard_library() {
    let mut g = Generator(4);
    for _ in 0..3000 {
        let text = g.text(MIXED, 12);
        let max_len = g.below(14);
        if text.len() <= max_len || text.is_char_boundary(max_len.saturating_sub(3)) {
            assert_eq!(truncate(&text, max_len), truncated_with_std(&text, max_len));
        }
        if text.chars().count() <= max_len || max_len >= 3 {
            assert_eq!(truncate_title(&text, max_len), short_title_with_std(&text, max_len));
        }
    }
}

fn link_with_std(input: &str) -> Option<(u64, u64)> {
    if input.contains("/channels/") {
        let parts: Vec<&str> = input.split('/').collect();
        if parts.len() >= 3 {
            let msg_id = parts.last()?.parse().ok()?;
            let ch_id = parts.get(parts.len() - 2)?.parse().ok()?;
            return Some((ch_id, msg_id));
        }
    }
    None
}

#[test]
fn links_agree_with_the_standard_library() {
    let mut g = Generator(5);
    let alphabet: &[&str] = &["1", "2", "0", "/", "/channels/", "+", "-", "a", "99999999999"];
    for _ in 0..3000 {
        let text = g.text(alphabet, 8);
        assert_eq!(parse_message_link(&text), link_with_std(&text), "{text:?}");
    }
}

fn video_id_with_std(input: &str) -> Option<String> {
    if input.len() == 11 && input.chars().all(|c| c.is_alphanumeric() || c == '-' || c == '_') {
        return Some(input.to_string());
    }
    if input.contains("youtube.com/watch") {
        if let Some(v_param) = input.split("v=").nth(1) {
            let id = v_param.split('&').next().unwrap_or(v_param);
            if id.len() >= 11 {
                return Some(id[..11].to_string());
            }
        }
    }
    if input.contains("youtu.be/") {
        if let Some(path) = input.split("youtu.be/").nth(1) {
            let id = path.split(['?', '&', '/'].as_ref()).next().unwrap_or(path);
            if id.len() >= 11 {
                return Some(id[..11].to_string());
            }
        }
    }
    None
}

#[test]
fn video_ids_agree_with_the_standard_library() {
    let mut g = Generator(6);
    let alphabet: &[&str] = &[
        "youtube.com/watch", "youtu.be/", "v=", "&", "?", "/", "abc", "dQw4w9WgXcQ", "_", "-", "x",
        "12345", " ",
    ];
    for _ in 0..4000 {
        let text = g.text(alphabet, 7);
        assert_eq!(extract_video_id(&text), video_id_with_std(&text), "{text:?}");
    }
    for bare in ["ñandú-ñan", "日本語ab", "żółw_12345"] {
        assert_eq!(extract_video_id(bare), video_id_with_std(bare), "{bare:?}");
    }
}

fn duration_with_std(duration: &str) -> Option<i32> {
    let mut seconds: i32 = 0;
    let mut current_num = String::new();
    for c in duration.chars() {
        if c.is_ascii_digit() {
            current_num.push(c);
        } else {
            if let Ok(num) = current_num.parse::<i32>() {
                let unit = match c {
                    'H' => 3600,
                    'M' => 60,
                    'S' => 1,
                    _ => 0,
                };
                seconds = seconds.checked_add(num.checked_mul(unit)?)?;
            }
            current_num.clear();
        }
    }
    Some(seconds)
}

#[test]
fn durations_agree_with_the_standard_library() {
    let mut g = Generator(7);
    let alphabet: &[&str] = &["P", "T", "H", "M", "S", "D", "1", "0", "9", "59", "x", "２"];
    for _ in 0..4000 {
        let text = g.text(alphabet, 14);
        let expected = duration_with_std(&text);
        let got = checked_iso8601_duration(&text);
        match expected {
            Some(seconds) => assert_eq!(got, Some(seconds), "{text:?}"),
            None => assert!(got.is_none() || got == duration_in_wide(&text), "{text:?}"),
        }
    }
}

/// The count in 64 bits, where the count fits in 32 though a single term
/// does not arise that overflows: there is none, since every term is at most
/// the count.
fn duration_in_wide(duration: &str) -> Option<i32> {
    let mut seconds: i64 = 0;
    let mut current_num = String::new();
    for c in duration.chars() {
        if c.is_ascii_digit() {
            current_num.push(c);
        } else {
            if let Ok(num) = current_num.parse::<i32>() {
                let unit = match c {
                    'H' => 3600,
                    'M' => 60,
                    'S' => 1,
                    _ => 0,
                };
                seconds += i64::from(num) * unit;
            }
            current_num.clear();
        }
    }
    i32::try_from(seconds).ok()
}

fn chunks_with_std(text: &str, max_len: usize) -> Vec<String> {
    if text.len() <= max_len {
        return vec![text.to_string()];
    }
    let mut chunks = Vec::new();
    let mut current_chunk = String::new();
    for line in text.lines() {
        if line.len() > max_len {
            if !current_chunk.is_empty() {
                chunks.push(current_chunk);
                current_chunk = String::new();
            }
            let mut word_chunk = String::new();
            for word in line.split_whitespace() {
                if word_chunk.len() + word.len() + 1 > max_len {
                    if !word_chunk.is_empty() {
                        chunks.push(word_chunk);
                    }
                    word_chunk = word.to_string();
                } else {
                    if !word_chunk.is_empty() {
                        word_chunk.push(' ');
                    }
                    word_chunk.push_str(word);
                }
            }
            if !word_chunk.is_empty() {
                current_chunk = word_chunk;
            }
        } else if current_chunk.len() + line.len() + 1 > max_len {
            if !current_chunk.is_empty() {
                chunks.push(current_chunk);
            }
            current_chunk = line.to_string();
        } else {
            if !current_chunk.is_empty() {
                current_chunk.push('\n');
            }
            current_chunk.push_str(line);
        }
    }
    if !current_chunk.is_empty() {
        chunks.push(current_chunk);
    }
    chunks
}

#[test]
fn chunks_agree_with_the_standard_library() {
    let mut g = Generator(8);
    let alphabet: &[&str] = &["a", "bb", "ccc", " ", " ", "\n", "\r\n", "\r", "\t", "日", "\u{3000}"];
    for _ in 0..4000 {
        let text = g.text(alphabet, 30);
        let max_len = g.below(16);
        assert_eq!(
            smart_chunk_message(&text, max_len),
            chunks_with_std(&text, max_len),
            "{text:?} {max_len}"
        );
    }
}

fn normalized_with_std(s: &str) -> String {
    s.nfd()
        .filter(|c| !c.is_ascii_punctuation() && !matches!(c, '\u{0300}'..='\u{036f}'))
        .collect::<String>()
        .to_lowercase()
        .split_whitespace()
        .collect::<Vec<_>>()
        .join(" ")
}

fn titles_with_std(reply: &str) -> Vec<String> {
    reply
        .lines()
        .map(|l| l.trim())
        .filter(|l| !l.is_empty() && !l.starts_with(|c: char| c.is_ascii_digit()))
        .map(|l| l.trim_start_matches(|c: char| c == '-' || c == '.' || c == ' '))
        .map(|l| l.trim_matches(|c: char| c == '"' || c == '\'' || c == '「' || c == '」'))
        .map(|s| s.to_string())
        .collect()
}

#[test]
fn normalizing_and_reading_titles_agree_with_the_standard_library() {
    let mut g = Generator(9);
    for _ in 0..3000 {
        let text = g.text(MIXED, 16);
        assert_eq!(normalize_string(&text), normalized_with_std(&text), "{text:?}");
        assert_eq!(parse_suggested_titles(&text), titles_with_std(&text), "{text:?}");
    }
    for text in ["Ǆ İstanbul ǅ", "ﬁre ＡＢＣ", "Ångström é́", "ß ẞ Σσς"] {
        assert_eq!(normalize_string(text), normalized_with_std(text), "{text:?}");
    }
}

fn image_prompt_with_std(prompt: &str) -> String {
    let clean_prompt = prompt
        .to_lowercase()
        .replace("buatkan gambar", "")
        .replace("generate gambar", "")
        .replace("buat gambar", "")
        .replace("gambarkan", "")
        .replace("draw", "")
        .replace("create image", "")
        .replace("bikin gambar", "")
        .trim()
        .to_string();
    format!(
        "Create a high-quality, detailed anime style image of: {}. Make it visually appealing, artistic, and well-composed.",
        clean_prompt
    )
}

#[test]
fn image_prompts_agree_with_the_standard_library() {
    let mut g = Generator(10);
    let alphabet: &[&str] = &[
        "buatkan gambar", "generate gambar", "buat gambar", "gambarkan", "draw", "create image",
        "bikin gambar", "buat", " gambar", "dr", "aw", " ", "Kucing", "creat", "e image", "\n",
    ];
    for _ in 0..3000 {
        let text = g.text(alphabet, 8);
        assert_eq!(build_image_prompt(&text), image_prompt_with_std(&text), "{text:?}");
    }
}

fn title_with_std(html: &str) -> Option<String> {
    if let Some(start) = html.find("<title>") {
        if let Some(end) = html[start..].find("</title>") {
            let title_start = start + 7;
            let title_end = start + end;
            let title = html[title_start..title_end].trim();
            return Some(html_escape::decode_html_entities(title).to_string());
        }
    }
    meta_with_std(html, "og:title")
}

fn meta_with_std(html: &str, property: &str) -> Option<String> {
    let pattern = format!(r#"<meta property="{}" content=""#, property);
    if let Some(start) = html.find(&pattern) {
        let content_start = start + pattern.len();
        if let Some(end) = html[content_start..].find('"') {
            let content = &html[content_start..content_start + end];
            return Some(html_escape::decode_html_entities(content).to_string());
        }
    }
    None
}

#[test]
fn page_titles_agree_with_the_standard_library() {
    let mut g = Generator(11);
    let alphabet: &[&str] = &[
        "<title>", "</title>", "<meta property=\"og:title\" content=\"", "<meta property=\"x\" content=\"",
        "\"", " ", "&amp;", "&lt;", "&#x65E5;", "&bogus;", "t", "日", "<", ">", "\n",
    ];
    for _ in 0..4000 {
        let html = g.text(alphabet, 9);
        assert_eq!(extract_page_title(&html), title_with_std(&html), "{html:?}");
        assert_eq!(extract_meta_property(&html, "x"), meta_with_std(&html, "x"), "{html:?}");
    }
}
