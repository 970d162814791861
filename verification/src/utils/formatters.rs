//! Numbers, durations and texts in the form they are shown.
use vstd::prelude::*;
use vstd::utf8::{decode_utf8, encode_utf8, encode_utf8_decode_utf8, is_char_boundary};
use crate::api::firebase::decimal::{decimal_text, i64_to_decimal};
use crate::utils::text::{chars_of, push_char};

verus! {

/// The first `upto` characters of `s` with a comma put before each
/// character, but the first, whose distance to the end of `s` is a multiple
/// of three and which is no minus sign.
pub open spec fn grouped(s: Seq<char>, upto: int) -> Seq<char>
    decreases upto,
{
    if upto <= 0 {
        Seq::empty()
    } else {
        let i = upto - 1;
        let front = grouped(s, i);
        if i > 0 && (s.len() - i) % 3 == 0 && s[i] != '-' {
            front.push(',').push(s[i])
        } else {
            front.push(s[i])
        }
    }
}

/// A number with thousands separators: its decimal text, in groups of three
/// counted from the end. The sign counts as a position, so a comma follows
/// the sign of a negative number whose digits fill whole groups.
pub open spec fn number_text(n: int) -> Seq<char> {
    grouped(decimal_text(n), decimal_text(n).len() as int)
}

/// Formats a number with thousands separators, as in `1,000,000`.
pub fn format_number(n: i64) -> (text: String)
    ensures
        text@ == number_text(n as int),
{
    let plain = i64_to_decimal(n);
    let chars = chars_of(plain.as_str());
    let mut result = String::new();
    let mut i: usize = 0;
    while i < chars.len()
        invariant
            i <= chars.len(),
            result@ == grouped(chars@, i as int),
        decreases chars.len() - i,
    {
        if i > 0 && (chars.len() - i) % 3 == 0 && chars[i] != '-' {
            push_char(&mut result, ',');
        }
        push_char(&mut result, chars[i]);
        i += 1;
    }
    result
}

/// A duration of `minutes` as shown: minutes alone below an hour, else
/// hours, followed by the minutes that remain where there are any.
pub open spec fn duration_text(minutes: int) -> Seq<char> {
    if minutes < 60 {
        decimal_text(minutes) + "m"@
    } else if minutes % 60 > 0 {
        decimal_text(minutes / 60) + "h "@ + decimal_text(minutes % 60) + "m"@
    } else {
        decimal_text(minutes / 60) + "h"@
    }
}

/// Formats a duration given in minutes, as in `2h 30m`.
pub fn format_duration(minutes: i64) -> (text: String)
    ensures
        text@ == duration_text(minutes as int),
{
    if minutes < 60 {
        let mut text = i64_to_decimal(minutes);
        text.append("m");
        text
    } else {
        let hours = minutes / 60;
        let mins = minutes % 60;
        let mut text = i64_to_decimal(hours);
        if mins > 0 {
            text.append("h ");
            let rest = i64_to_decimal(mins);
            text.append(rest.as_str());
            text.append("m");
        } else {
            text.append("h");
        }
        text
    }
}

/// `count` of a unit of time ago, with the unit in the plural unless the
/// count is one.
pub open spec fn ago_text(count: int, unit: Seq<char>) -> Seq<char> {
    decimal_text(count) + " "@ + unit + (if count == 1 {
        ""@
    } else {
        "s"@
    }) + " ago"@
}

/// How long ago something happened, as shown: `just now` below a minute,
/// then whole minutes, whole hours from an hour on, whole days from a day
/// on.
pub open spec fn relative_time_text(seconds_ago: int) -> Seq<char> {
    if seconds_ago < 60 {
        "just now"@
    } else if seconds_ago < 3600 {
        ago_text(seconds_ago / 60, "minute"@)
    } else if seconds_ago < 86400 {
        ago_text(seconds_ago / 3600, "hour"@)
    } else {
        ago_text(seconds_ago / 86400, "day"@)
    }
}

/// Puts a count and its unit of time together.
fn format_ago(count: i64, unit: &str) -> (text: String)
    ensures
        text@ == ago_text(count as int, unit@),
{
    let mut text = i64_to_decimal(count);
    text.append(" ");
    text.append(unit);
    if count == 1 {
        text.append("");
    } else {
        text.append("s");
    }
    text.append(" ago");
    text
}

/// Formats how long ago something happened, as in `2 hours ago`.
pub fn format_relative_time(seconds_ago: i64) -> (text: String)
    ensures
        text@ == relative_time_text(seconds_ago as int),
{
    if seconds_ago < 60 {
        "just now".to_string()
    } else if seconds_ago < 3600 {
        format_ago(seconds_ago / 60, "minute")
    } else if seconds_ago < 86400 {
        format_ago(seconds_ago / 3600, "hour")
    } else {
        format_ago(seconds_ago / 86400, "day")
    }
}

/// Where a text that is too long is cut: three bytes before the limit, to
/// make room for the ellipsis, and at the start where the limit is below
/// three.
pub open spec fn cut_point(max_len: int) -> int {
    if max_len >= 3 {
        max_len - 3
    } else {
        0
    }
}

/// A text held to `max_len` bytes of UTF-8: the text itself where it fits,
/// else what it holds up to the cut point, followed by an ellipsis.
pub open spec fn truncated_text(s: Seq<char>, max_len: int) -> Seq<char> {
    let bytes = encode_utf8(s);
    if bytes.len() <= max_len {
        s
    } else {
        decode_utf8(bytes.subrange(0, cut_point(max_len))) + "..."@
    }
}

/// Truncates a text to `max_len` bytes, ending it with an ellipsis where it
/// was cut. The cut must not fall inside a character.
pub fn truncate(s: &str, max_len: usize) -> (text: String)
    requires
        encode_utf8(s@).len() > max_len ==> is_char_boundary(
            encode_utf8(s@),
            cut_point(max_len as int),
        ),
    ensures
        text@ == truncated_text(s@, max_len as int),
{
    if s.as_bytes().len() <= max_len {
        s.to_string()
    } else {
        let cut: usize = if max_len >= 3 {
            max_len - 3
        } else {
            0
        };
        let (head, _) = s.split_at(cut);
        proof {
            encode_utf8_decode_utf8(head@);
            assert(encode_utf8(head@) == encode_utf8(s@).subrange(0, cut as int));
        }
        let mut text = head.to_string();
        text.append("...");
        text
    }
}

} // verus!
