//! Video metadata from YouTube.
use vstd::prelude::*;
use vstd::utf8::{decode_utf8, encode_utf8, encode_utf8_decode_utf8, is_char_boundary};
use crate::api::firebase::decimal::{
    all_digits, decimal_to_i64, digit_value, lemma_parse_digits_total, parse_digits,
};
use crate::utils::text::{
    before_any, char_is_alphanumeric, chars_of, contains, contains_text, first_stop,
    is_alphanumeric, piece_after, piece_after_bounds, string_from_chars, string_from_range,
};

verus! {

/// What is known of one video.
#[derive(Debug, Clone)]
pub struct VideoInfo {
    pub title: String,
    pub duration_seconds: i32,
    pub thumbnail: Option<String>,
    pub channel: String,
}

/// Whether a character may stand in a video identifier: a letter, a number,
/// a hyphen or an underscore.
pub open spec fn is_id_char(c: char) -> bool {
    is_alphanumeric(c) || c == '-' || c == '_'
}

/// Whether a text is a video identifier as it stands: 11 bytes of UTF-8,
/// made of identifier characters only.
pub open spec fn is_bare_id(s: Seq<char>) -> bool {
    encode_utf8(s).len() == 11 && forall|i: int| 0 <= i < s.len() ==> is_id_char(#[trigger] s[i])
}

/// The identifier in the address of a watch page: what follows the first
/// `v=`, up to the next `v=` or `&`.
pub open spec fn watch_candidate(s: Seq<char>) -> Option<Seq<char>> {
    if contains_text(s, "youtube.com/watch"@) {
        match piece_after(s, "v="@) {
            Some(piece) => Some(before_any(piece, seq!['&'])),
            None => None,
        }
    } else {
        None
    }
}

/// The identifier in a short address: what follows the first `youtu.be/`,
/// up to the next `youtu.be/`, `?`, `&` or `/`.
pub open spec fn short_candidate(s: Seq<char>) -> Option<Seq<char>> {
    if contains_text(s, "youtu.be/"@) {
        match piece_after(s, "youtu.be/"@) {
            Some(piece) => Some(before_any(piece, seq!['?', '&', '/'])),
            None => None,
        }
    } else {
        None
    }
}

/// The first 11 bytes of a candidate, where it has that many.
pub open spec fn first_eleven(candidate: Option<Seq<char>>) -> Option<Seq<char>> {
    match candidate {
        Some(id) => if encode_utf8(id).len() >= 11 {
            Some(decode_utf8(encode_utf8(id).subrange(0, 11)))
        } else {
            None
        },
        None => None,
    }
}

/// Whether the first 11 bytes of a candidate end between two characters.
pub open spec fn cut_is_clean(candidate: Option<Seq<char>>) -> bool {
    match candidate {
        Some(id) => encode_utf8(id).len() >= 11 ==> is_char_boundary(encode_utf8(id), 11),
        None => true,
    }
}

/// The video identifier that a text holds: the text itself where it is a
/// bare identifier, else the first 11 bytes of what the address of a watch
/// page names, else those of what a short address names.
pub open spec fn video_id(s: Seq<char>) -> Option<Seq<char>> {
    if is_bare_id(s) {
        Some(s)
    } else if first_eleven(watch_candidate(s)) is Some {
        first_eleven(watch_candidate(s))
    } else {
        first_eleven(short_candidate(s))
    }
}

/// Whether no cut that `video_id` makes falls inside a character.
pub open spec fn video_id_cuts_are_clean(s: Seq<char>) -> bool {
    cut_is_clean(watch_candidate(s)) && (first_eleven(watch_candidate(s)) is None ==> cut_is_clean(
        short_candidate(s),
    ))
}

/// The first 11 bytes of a candidate, where it has that many.
fn clip_candidate(chars: &Vec<char>, from: usize, to: usize) -> (id: Option<String>)
    requires
        from <= to <= chars.len(),
        cut_is_clean(Some(chars@.subrange(from as int, to as int))),
    ensures
        match id {
            Some(text) => first_eleven(Some(chars@.subrange(from as int, to as int))) == Some(
                text@,
            ),
            None => first_eleven(Some(chars@.subrange(from as int, to as int))) is None,
        },
{
    let candidate = string_from_range(chars, from, to);
    if candidate.as_str().as_bytes().len() >= 11 {
        let (head, _) = candidate.as_str().split_at(11);
        proof {
            encode_utf8_decode_utf8(head@);
            assert(encode_utf8(head@) == encode_utf8(candidate@).subrange(0, 11));
        }
        Some(head.to_string())
    } else {
        None
    }
}

/// Whether a text is a video identifier as it stands.
fn check_bare_id(input: &str, chars: &Vec<char>) -> (yes: bool)
    requires
        chars@ == input@,
    ensures
        yes == is_bare_id(input@),
{
    if input.as_bytes().len() != 11 {
        return false;
    }
    let mut i: usize = 0;
    while i < chars.len()
        invariant
            i <= chars.len(),
            chars@ == input@,
            forall|k: int| 0 <= k < i ==> is_id_char(#[trigger] chars@[k]),
        decreases chars.len() - i,
    {
        let c = chars[i];
        if !(char_is_alphanumeric(c) || c == '-' || c == '_') {
            assert(!is_id_char(input@[i as int]));
            return false;
        }
        i += 1;
    }
    true
}

/// Finds the video identifier in an address or takes a bare identifier as
/// it stands. Where an identifier is cut out of an address, the cut must
/// not fall inside a character.
pub fn extract_video_id(input: &str) -> (id: Option<String>)
    requires
        video_id_cuts_are_clean(input@),
    ensures
        match id {
            Some(text) => video_id(input@) == Some(text@),
            None => video_id(input@) is None,
        },
{
    let chars = chars_of(input);
    if check_bare_id(input, &chars) {
        return Some(input.to_string());
    }
    if contains(input, "youtube.com/watch") {
        let marker = chars_of("v=");
        match piece_after_bounds(&chars, &marker) {
            Some((from, to)) => {
                let mut stops: Vec<char> = Vec::new();
                stops.push('&');
                assert(stops@ =~= seq!['&']);
                let end = first_stop(&chars, from, to, &stops);
                proof {
                    let piece = chars@.subrange(from as int, to as int);
                    assert(chars@.subrange(from as int, end as int) =~= piece.take(end - from));
                }
                match clip_candidate(&chars, from, end) {
                    Some(id) => {
                        return Some(id);
                    },
                    None => {},
                }
            },
            None => {},
        }
    }
    if contains(input, "youtu.be/") {
        let marker = chars_of("youtu.be/");
        match piece_after_bounds(&chars, &marker) {
            Some((from, to)) => {
                let mut stops: Vec<char> = Vec::new();
                stops.push('?');
                stops.push('&');
                stops.push('/');
                assert(stops@ =~= seq!['?', '&', '/']);
                let end = first_stop(&chars, from, to, &stops);
                proof {
                    let piece = chars@.subrange(from as int, to as int);
                    assert(chars@.subrange(from as int, end as int) =~= piece.take(end - from));
                }
                return clip_candidate(&chars, from, end);
            },
            None => {},
        }
    }
    None
}

/// The address of a video in its standard form.
pub fn normalize_url(video_id: &str) -> (url: String)
    ensures
        url@ == "https://youtube.com/watch?v="@ + video_id@,
{
    let mut url = String::from_str("https://youtube.com/watch?v=");
    url.append(video_id);
    url
}

/// The number that a run of digits spells, where it is a number that fits
/// in 32 bits; `None` for the empty run and for a number that does not fit.
pub open spec fn pending_number(pending: Seq<char>) -> Option<int> {
    match parse_digits(pending) {
        Some(n) => if n <= i32::MAX {
            Some(n as int)
        } else {
            None
        },
        None => None,
    }
}

/// The seconds in one unit of a duration: hours `H`, minutes `M`, seconds
/// `S`; nothing for any other letter.
pub open spec fn unit_seconds(unit: char) -> int {
    if unit == 'H' {
        3600
    } else if unit == 'M' {
        60
    } else if unit == 'S' {
        1
    } else {
        0
    }
}

/// Reading a duration from left to right: the seconds counted so far, and
/// the digits read since the last letter. A letter closes the digits before
/// it; they count in the letter's unit where they spell a number.
pub open spec fn duration_state(s: Seq<char>) -> (int, Seq<char>)
    decreases s.len(),
{
    if s.len() == 0 {
        (0, Seq::empty())
    } else {
        let (seconds, pending) = duration_state(s.drop_last());
        if digit_value(s.last()) is Some {
            (seconds, pending.push(s.last()))
        } else {
            match pending_number(pending) {
                Some(n) => (seconds + n * unit_seconds(s.last()), Seq::empty()),
                None => (seconds, Seq::empty()),
            }
        }
    }
}

/// The seconds of an ISO 8601 duration such as `PT1H30M45S`.
pub open spec fn duration_seconds(s: Seq<char>) -> int {
    duration_state(s).0
}

/// Reading more of a duration never lowers the count, which is never
/// negative, and the pending characters are always digits.
pub proof fn lemma_duration_grows(s: Seq<char>, k: int)
    requires
        0 <= k <= s.len(),
    ensures
        0 <= duration_state(s.take(k)).0 <= duration_state(s).0,
        all_digits(duration_state(s).1),
    decreases s.len(),
{
    if s.len() == 0 {
        assert(s.take(k) =~= s);
    } else {
        let front = s.drop_last();
        lemma_duration_grows(front, 0);
        let (seconds, pending) = duration_state(front);
        lemma_parse_digits_total(pending);
        if k == s.len() {
            assert(s.take(k) =~= s);
            assert(front.take(0).len() == 0);
        } else {
            lemma_duration_grows(front, k);
            assert(s.take(k) =~= front.take(k));
        }
        if digit_value(s.last()) is Some {
            let next = pending.push(s.last());
            assert forall|i: int| 0 <= i < next.len() implies digit_value(#[trigger] next[i])
                is Some by {
                if i < pending.len() {
                    assert(next[i] == pending[i]);
                }
            }
        } else {
            match pending_number(pending) {
                Some(n) => {
                    assert(n * unit_seconds(s.last()) >= 0) by (nonlinear_arith)
                        requires
                            n >= 0,
                            unit_seconds(s.last()) >= 0,
                    ;
                },
                None => {},
            }
        }
    }
}

/// Reads an ISO 8601 duration such as `PT1H30M45S` as seconds, where the
/// count fits in 32 bits; `None` where it does not.
pub fn checked_iso8601_duration(duration: &str) -> (seconds: Option<i32>)
    ensures
        match seconds {
            Some(n) => n == duration_seconds(duration@),
            None => duration_seconds(duration@) > i32::MAX,
        },
{
    let chars = chars_of(duration);
    let mut total: i64 = 0;
    let mut pending: Vec<char> = Vec::new();
    let mut i: usize = 0;
    assert(duration@.take(0).len() == 0);
    while i < chars.len()
        invariant
            i <= chars.len(),
            chars@ == duration@,
            (total as int, pending@) == duration_state(duration@.take(i as int)),
            0 <= total <= i32::MAX,
        decreases chars.len() - i,
    {
        let c = chars[i];
        proof {
            let next = duration@.take(i + 1);
            assert(next.drop_last() =~= duration@.take(i as int));
            assert(next.last() == c);
            lemma_duration_grows(duration@, i + 1);
            lemma_duration_grows(duration@.take(i as int), 0);
            lemma_parse_digits_total(pending@);
        }
        if is_digit(c) {
            pending.push(c);
        } else {
            let text = string_from_chars(&pending);
            proof {
                if pending@.len() > 0 {
                    assert(digit_value(pending@[0]) is Some);
                }
            }
            match decimal_to_i64(text.as_str()) {
                Some(n) => {
                    if n <= 2147483647 {
                        let unit: i64 = if c == 'H' {
                            3600
                        } else if c == 'M' {
                            60
                        } else if c == 'S' {
                            1
                        } else {
                            0
                        };
                        assert(0 <= n * unit <= 2147483647 * 3600) by (nonlinear_arith)
                            requires
                                0 <= n <= 2147483647,
                                0 <= unit <= 3600,
                        ;
                        if total + n * unit > 2147483647 {
                            return None;
                        }
                        total = total + n * unit;
                    }
                },
                None => {},
            }
            pending = Vec::new();
        }
        i += 1;
    }
    assert(duration@.take(chars.len() as int) =~= duration@);
    Some(total as i32)
}

/// Reads an ISO 8601 duration such as `PT1H30M45S` as seconds. The count
/// must fit in 32 bits.
pub fn parse_iso8601_duration(duration: &str) -> (seconds: i32)
    requires
        duration_seconds(duration@) <= i32::MAX,
    ensures
        seconds == duration_seconds(duration@),
{
    match checked_iso8601_duration(duration) {
        Some(seconds) => seconds,
        None => 0,
    }
}

/// Whether a character is a decimal digit.
fn is_digit(c: char) -> (yes: bool)
    ensures
        yes == (digit_value(c) is Some),
{
    c == '0' || c == '1' || c == '2' || c == '3' || c == '4' || c == '5' || c == '6' || c == '7'
        || c == '8' || c == '9'
}

} // verus!
