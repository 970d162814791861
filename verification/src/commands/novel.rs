//! The catalogue of light novels.
use vstd::prelude::*;
use crate::utils::text::{chars_of, string_from_range};

verus! {

/// One novel of the catalogue.
#[derive(Debug, Clone)]
pub struct NovelEntry {
    pub id: String,
    pub title: String,
    pub url: String,
    pub size: String,
    pub format: String,
}

/// The number of novels in a catalogue.
pub fn get_novel_count(novels: &Vec<NovelEntry>) -> (count: usize)
    ensures
        count == novels@.len(),
{
    novels.len()
}

/// A title held to `max_len` characters: the title itself where it fits,
/// else its first `max_len - 3` characters followed by an ellipsis.
pub open spec fn short_title(title: Seq<char>, max_len: int) -> Seq<char> {
    if title.len() <= max_len {
        title
    } else {
        title.take(max_len - 3) + "..."@
    }
}

/// Shortens a title that is too long. A title that does not fit needs room
/// for the ellipsis: `max_len` must be 3 or more.
pub fn truncate_title(title: &str, max_len: usize) -> (text: String)
    requires
        title@.len() > max_len ==> max_len >= 3,
    ensures
        text@ == short_title(title@, max_len as int),
{
    let chars = chars_of(title);
    if chars.len() <= max_len {
        title.to_string()
    } else {
        let mut text = string_from_range(&chars, 0, max_len - 3);
        text.append("...");
        assert(chars@.subrange(0, max_len - 3) =~= title@.take(max_len - 3));
        text
    }
}

} // verus!
