//! The shapes of what language-model services take and answer.
use vstd::prelude::*;
use crate::utils::text::{
    chars_of, find_first, find_from, lowercase, occurs_at, starts_with, string_from_range,
    to_lowercase, trim_bounds, trimmed,
};

verus! {

/// One turn of a conversation.
#[derive(Debug, Clone, PartialEq, Eq)]
pub struct ChatMessage {
    pub role: String,
    pub content: String,
}

#[derive(Debug, Clone)]
pub struct OpenRouterResponse {
    pub choices: Vec<OpenRouterChoice>,
}

#[derive(Debug, Clone)]
pub struct OpenRouterChoice {
    pub message: ChatMessage,
}

#[derive(Debug, Clone)]
pub struct GeminiResponse {
    pub candidates: Option<Vec<GeminiCandidate>>,
}

#[derive(Debug, Clone)]
pub struct GeminiCandidate {
    pub content: GeminiContent,
}

#[derive(Debug, Clone)]
pub struct GeminiContent {
    pub parts: Vec<GeminiPart>,
}

#[derive(Debug, Clone)]
pub struct GeminiPart {
    pub text: Option<String>,
}

#[derive(Debug, Clone)]
pub struct ImageGenResponse {
    pub candidates: Option<Vec<ImageGenCandidate>>,
}

#[derive(Debug, Clone)]
pub struct ImageGenCandidate {
    pub content: ImageGenContent,
}

#[derive(Debug, Clone)]
pub struct ImageGenContent {
    pub parts: Vec<ImageGenPart>,
}

#[derive(Debug, Clone)]
pub struct ImageGenPart {
    pub text: Option<String>,
    pub inline_data: Option<ImageInlineData>,
}

/// An image inside an answer, as base64 text.
#[derive(Debug, Clone)]
pub struct ImageInlineData {
    pub mime_type: String,
    pub data: String,
}

/// A generated image.
pub struct ImageGenerationResult {
    pub image_data: Vec<u8>,
    pub mime_type: String,
    pub text: Option<String>,
}

/// What of an answer with a generated image is kept: the last image among
/// its parts, and the last text.
pub open spec fn kept_parts(parts: Seq<ImageGenPart>, upto: int) -> (
    Option<ImageGenPart>,
    Option<Seq<char>>,
)
    decreases upto,
{
    if upto <= 0 {
        (None, None)
    } else {
        let (image, text) = kept_parts(parts, upto - 1);
        let part = parts[upto - 1];
        (
            if part.inline_data matches Some(inline) && occurs_at(inline.mime_type@, "image/"@, 0) {
                Some(part)
            } else {
                image
            },
            match part.text {
                Some(t) => Some(t@),
                None => text,
            },
        )
    }
}

/// Picks the image and the text out of the parts of an answer: the position
/// of the last part that holds an image, and the last text.
pub fn select_image_parts(parts: &Vec<ImageGenPart>) -> (picked: (Option<usize>, Option<String>))
    ensures
        match picked.0 {
            Some(at) => at < parts.len() && kept_parts(parts@, parts.len() as int).0 == Some(
                parts@[at as int],
            ),
            None => kept_parts(parts@, parts.len() as int).0 is None,
        },
        match picked.1 {
            Some(t) => kept_parts(parts@, parts.len() as int).1 == Some(t@),
            None => kept_parts(parts@, parts.len() as int).1 is None,
        },
{
    let mut image: Option<usize> = None;
    let mut text: Option<String> = None;
    let mut i: usize = 0;
    while i < parts.len()
        invariant
            i <= parts.len(),
            match image {
                Some(at) => at < i && kept_parts(parts@, i as int).0 == Some(parts@[at as int]),
                None => kept_parts(parts@, i as int).0 is None,
            },
            match text {
                Some(t) => kept_parts(parts@, i as int).1 == Some(t@),
                None => kept_parts(parts@, i as int).1 is None,
            },
        decreases parts.len() - i,
    {
        match &parts[i].inline_data {
            Some(inline) => {
                if starts_with(inline.mime_type.as_str(), "image/") {
                    image = Some(i);
                }
            },
            None => {},
        }
        match &parts[i].text {
            Some(t) => {
                text = Some(t.clone());
            },
            None => {},
        }
        i += 1;
    }
    (image, text)
}

/// The text `s` from `from` on, with every occurrence of `pattern` left
/// out, found from left to right.
pub open spec fn without_pattern(s: Seq<char>, pattern: Seq<char>, from: int) -> Seq<char>
    decreases s.len() - from,
{
    if pattern.len() == 0 || from < 0 || from > s.len() {
        s.skip(from)
    } else {
        match find_first(s, pattern, from) {
            Some(at) => if from <= at && at + pattern.len() <= s.len() {
                s.subrange(from, at) + without_pattern(s, pattern, at + pattern.len())
            } else {
                s.skip(from)
            },
            None => s.skip(from),
        }
    }
}

/// Leaves every occurrence of a pattern that is not empty out of a text.
pub fn remove_all(text: &Vec<char>, pattern: &Vec<char>) -> (rest: Vec<char>)
    requires
        pattern.len() > 0,
    ensures
        rest@ == without_pattern(text@, pattern@, 0),
{
    let mut rest: Vec<char> = Vec::new();
    let mut from: usize = 0;
    loop
        invariant
            from <= text.len(),
            pattern.len() > 0,
            without_pattern(text@, pattern@, 0) == rest@ + without_pattern(
                text@,
                pattern@,
                from as int,
            ),
        decreases text.len() - from,
    {
        match find_from(text, pattern, from) {
            Some(at) => {
                assert(occurs_at(text@, pattern@, at as int));
                assert(at + pattern.len() <= text.len());
                let ghost before = rest@;
                let mut k: usize = from;
                while k < at
                    invariant
                        from <= k <= at <= text.len(),
                        rest@ == before + text@.subrange(from as int, k as int),
                    decreases at - k,
                {
                    rest.push(text[k]);
                    assert(text@.subrange(from as int, k + 1) =~= text@.subrange(
                        from as int,
                        k as int,
                    ).push(text@[k as int]));
                    k += 1;
                }
                assert(rest@ + without_pattern(text@, pattern@, at + pattern.len()) =~= before + (
                text@.subrange(from as int, at as int) + without_pattern(
                    text@,
                    pattern@,
                    at + pattern.len(),
                )));
                from = at + pattern.len();
            },
            None => {
                let ghost before = rest@;
                let mut k: usize = from;
                while k < text.len()
                    invariant
                        from <= k <= text.len(),
                        rest@ == before + text@.subrange(from as int, k as int),
                    decreases text.len() - k,
                {
                    rest.push(text[k]);
                    assert(text@.subrange(from as int, k + 1) =~= text@.subrange(
                        from as int,
                        k as int,
                    ).push(text@[k as int]));
                    k += 1;
                }
                assert(text@.subrange(from as int, text.len() as int) =~= text@.skip(from as int));
                return rest;
            },
        }
    }
}

/// The words that ask for a picture and are left out of what the picture
/// should show, in the order they are removed.
pub open spec fn request_words() -> Seq<&'static str> {
    seq![
        "buatkan gambar",
        "generate gambar",
        "buat gambar",
        "gambarkan",
        "draw",
        "create image",
        "bikin gambar",
    ]
}

/// A text with the first `upto` request words left out, one after the
/// other.
pub open spec fn without_request_words(text: Seq<char>, upto: int) -> Seq<char>
    decreases upto,
{
    if upto <= 0 {
        text
    } else {
        without_pattern(without_request_words(text, upto - 1), request_words()[upto - 1]@, 0)
    }
}

/// What a picture should show: the request in lower case, without the words
/// that ask for a picture and without white space around it.
pub open spec fn image_subject(prompt: Seq<char>) -> Seq<char> {
    trimmed(without_request_words(lowercase(prompt), request_words().len() as int))
}

/// The prompt that asks the image model for a picture.
pub open spec fn image_prompt(prompt: Seq<char>) -> Seq<char> {
    "Create a high-quality, detailed anime style image of: "@ + image_subject(prompt)
        + ". Make it visually appealing, artistic, and well-composed."@
}

/// Builds the prompt that asks the image model for a picture.
pub fn build_image_prompt(prompt: &str) -> (full: String)
    ensures
        full@ == image_prompt(prompt@),
{
    let words = [
        "buatkan gambar",
        "generate gambar",
        "buat gambar",
        "gambarkan",
        "draw",
        "create image",
        "bikin gambar",
    ];
    assert(words@ =~= request_words());
    proof {
        reveal_strlit("buatkan gambar");
        reveal_strlit("generate gambar");
        reveal_strlit("buat gambar");
        reveal_strlit("gambarkan");
        reveal_strlit("draw");
        reveal_strlit("create image");
        reveal_strlit("bikin gambar");
    }
    let lower = to_lowercase(prompt);
    let mut subject = chars_of(lower.as_str());
    let mut i: usize = 0;
    while i < 7
        invariant
            i <= 7,
            words@ == request_words(),
            forall|k: int| 0 <= k < 7 ==> (#[trigger] request_words()[k])@.len() > 0,
            subject@ == without_request_words(lowercase(prompt@), i as int),
        decreases 7 - i,
    {
        let word = chars_of(words[i]);
        subject = remove_all(&subject, &word);
        i += 1;
    }
    let (a, b) = trim_bounds(&subject, 0, subject.len());
    assert(subject@.subrange(0, subject.len() as int) =~= subject@);
    let mut full = String::from_str("Create a high-quality, detailed anime style image of: ");
    let middle = string_from_range(&subject, a, b);
    full.append(middle.as_str());
    full.append(". Make it visually appealing, artistic, and well-composed.");
    full
}

} // verus!
