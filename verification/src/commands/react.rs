//! Reading links to messages.
use vstd::prelude::*;
use crate::api::firebase::decimal::{digits_to_u64, parse_u64};
use crate::utils::text::{chars_of, contains, contains_text, last_segment, segment_start};

verus! {

/// The channel and the message that a link to a message names: the last two
/// segments of a link that holds `/channels/`, each an unsigned number.
/// `None` for any other text.
pub open spec fn message_link(link: Seq<char>) -> Option<(u64, u64)> {
    if contains_text(link, "/channels/"@) && segment_start(link) > 0 {
        let front = link.take(segment_start(link) - 1);
        match (parse_u64(last_segment(front)), parse_u64(last_segment(link))) {
            (Some(channel), Some(message)) => Some((channel, message)),
            _ => None,
        }
    } else {
        None
    }
}

/// Where the last segment of the first `end` characters starts.
fn segment_start_before(chars: &Vec<char>, end: usize) -> (start: usize)
    requires
        end <= chars.len(),
    ensures
        start == segment_start(chars@.take(end as int)),
        start <= end,
{
    let ghost text = chars@.take(end as int);
    let mut start: usize = end;
    assert(text.take(end as int) =~= text);
    while start > 0 && chars[start - 1] != '/'
        invariant
            start <= end <= chars.len(),
            text == chars@.take(end as int),
            segment_start(text) == segment_start(text.take(start as int)),
        decreases start,
    {
        proof {
            let prefix = text.take(start as int);
            assert(prefix.last() == chars@[start - 1]);
            assert(prefix.drop_last() =~= text.take(start - 1));
        }
        start -= 1;
    }
    proof {
        let prefix = text.take(start as int);
        if start > 0 {
            assert(prefix.last() == chars@[start - 1]);
        }
    }
    start
}

/// Reads the channel and the message out of a link to a message.
pub fn parse_message_link(input: &str) -> (ids: Option<(u64, u64)>)
    ensures
        ids == message_link(input@),
{
    if !contains(input, "/channels/") {
        return None;
    }
    let chars = chars_of(input);
    let n = chars.len();
    assert(chars@.take(n as int) =~= input@);
    let last = segment_start_before(&chars, n);
    if last == 0 {
        return None;
    }
    let before = segment_start_before(&chars, last - 1);
    proof {
        let front = input@.take(last - 1);
        assert(chars@.subrange(before as int, last - 1) =~= last_segment(front));
        assert(chars@.subrange(last as int, n as int) =~= last_segment(input@));
    }
    let message = digits_to_u64(&chars, last, n);
    let channel = digits_to_u64(&chars, before, last - 1);
    match (channel, message) {
        (Some(channel), Some(message)) => Some((channel, message)),
        _ => None,
    }
}

} // verus!
