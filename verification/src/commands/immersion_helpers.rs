//! Reading the title out of a web page.
use vstd::prelude::*;
use crate::utils::text::{
    chars_of, find_first, find_from, occurs_at, string_from_range, trim_bounds, trimmed,
};

verus! {

/// A text with its HTML character references replaced by the characters
/// they stand for, as the crate `html-escape` does it.
pub uninterp spec fn html_decoded(text: Seq<char>) -> Seq<char>;

/// Decodes the HTML character references of a text with
/// `html_escape::decode_html_entities`. The result is named, not
/// described: it follows the crate's table of entities.
#[verifier::external_body]
fn decode_html_entities(text: &str) -> (decoded: String)
    ensures
        decoded@ == html_decoded(text@),
{
    html_escape::decode_html_entities(text).into_owned()
}

/// The start of a `meta` tag that gives the content of `property`.
pub open spec fn meta_opening(property: Seq<char>) -> Seq<char> {
    "<meta property=\""@ + property + "\" content=\""@
}

/// The content of the first `meta` tag of `property`: what stands between
/// the start of the tag and the next quotation mark, with its character
/// references decoded. `None` where there is no such tag or the quotation
/// mark is missing.
pub open spec fn meta_property(html: Seq<char>, property: Seq<char>) -> Option<Seq<char>> {
    match find_first(html, meta_opening(property), 0) {
        Some(start) => match find_first(html, seq!['"'], start + meta_opening(property).len()) {
            Some(end) => Some(
                html_decoded(html.subrange(start + meta_opening(property).len(), end)),
            ),
            None => None,
        },
        None => None,
    }
}

/// Reads the content of a `meta` tag out of the characters of a page.
fn meta_property_in(html: &Vec<char>, property: &str) -> (content: Option<String>)
    ensures
        match content {
            Some(text) => meta_property(html@, property@) == Some(text@),
            None => meta_property(html@, property@) is None,
        },
{
    let mut opening = String::from_str("<meta property=\"");
    opening.append(property);
    opening.append("\" content=\"");
    let pattern = chars_of(opening.as_str());
    match find_from(html, &pattern, 0) {
        Some(start) => {
            assert(occurs_at(html@, pattern@, start as int));
            assert(start + pattern.len() <= html.len());
            let content_start = start + pattern.len();
            let mut quote: Vec<char> = Vec::new();
            quote.push('"');
            assert(quote@ =~= seq!['"']);
            match find_from(html, &quote, content_start) {
                Some(end) => {
                    let raw = string_from_range(html, content_start, end);
                    Some(decode_html_entities(raw.as_str()))
                },
                None => None,
            }
        },
        None => None,
    }
}

/// Extracts the content of the `meta` tag of `property` from a page.
pub fn extract_meta_property(html: &str, property: &str) -> (content: Option<String>)
    ensures
        match content {
            Some(text) => meta_property(html@, property@) == Some(text@),
            None => meta_property(html@, property@) is None,
        },
{
    let chars = chars_of(html);
    meta_property_in(&chars, property)
}

/// What stands in the first `title` element of a page, without the white
/// space around it and with its character references decoded. `None` where
/// the page has no `title` element that is closed.
pub open spec fn title_element(html: Seq<char>) -> Option<Seq<char>> {
    match find_first(html, "<title>"@, 0) {
        Some(start) => match find_first(html, "</title>"@, start + "<title>"@.len()) {
            Some(end) => Some(
                html_decoded(trimmed(html.subrange(start + "<title>"@.len(), end))),
            ),
            None => None,
        },
        None => None,
    }
}

/// The title of a page: that of its `title` element, else the content of
/// its `og:title` tag.
pub open spec fn page_title(html: Seq<char>) -> Option<Seq<char>> {
    match title_element(html) {
        Some(title) => Some(title),
        None => meta_property(html, "og:title"@),
    }
}

/// Extracts the title of a page.
pub fn extract_page_title(html: &str) -> (title: Option<String>)
    ensures
        match title {
            Some(text) => page_title(html@) == Some(text@),
            None => page_title(html@) is None,
        },
{
    let chars = chars_of(html);
    let opening = chars_of("<title>");
    let closing = chars_of("</title>");
    match find_from(&chars, &opening, 0) {
        Some(start) => {
            assert(occurs_at(chars@, opening@, start as int));
            assert(start + opening.len() <= chars.len());
            let from = start + opening.len();
            match find_from(&chars, &closing, from) {
                Some(end) => {
                    let (a, b) = trim_bounds(&chars, from, end);
                    let raw = string_from_range(&chars, a, b);
                    return Some(decode_html_entities(raw.as_str()));
                },
                None => {},
            }
        },
        None => {},
    }
    meta_property_in(&chars, "og:title")
}

} // verus!
