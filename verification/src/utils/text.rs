//! Verified building blocks for working with `str` and `String`.
use vstd::prelude::*;
use vstd::utf8::*;

verus! {

/// Whether two string slices hold the same characters.
pub fn str_eq(a: &str, b: &str) -> (same: bool)
    ensures
        same == (a@ == b@),
{
    let x = a.as_bytes();
    let y = b.as_bytes();
    proof {
        encode_utf8_decode_utf8(a@);
        encode_utf8_decode_utf8(b@);
    }
    if x.len() != y.len() {
        return false;
    }
    let mut i: usize = 0;
    while i < x.len()
        invariant
            i <= x.len(),
            x.len() == y.len(),
            x@ == encode_utf8(a@),
            y@ == encode_utf8(b@),
            forall|k: int| 0 <= k < i ==> x@[k] == y@[k],
        decreases x.len() - i,
    {
        if x[i] != y[i] {
            return false;
        }
        i += 1;
    }
    assert(x@ =~= y@);
    true
}

/// The characters of a string slice, in order.
pub fn chars_of(s: &str) -> (chars: Vec<char>)
    ensures
        chars@ == s@,
{
    let mut chars: Vec<char> = Vec::new();
    for c in it: s.chars()
        invariant
            it.seq() == s@,
            chars@ == s@.take(it.index() as int),
    {
        chars.push(c);
    }
    chars
}

/// The index just past the last `/` of `s`; zero where `s` has none.
pub open spec fn segment_start(s: Seq<char>) -> int
    decreases s.len(),
{
    if s.len() == 0 {
        0
    } else if s.last() == '/' {
        s.len() as int
    } else {
        segment_start(s.drop_last())
    }
}

/// What follows the last `/` of `s`; all of `s` where it has none.
pub open spec fn last_segment(s: Seq<char>) -> Seq<char> {
    s.skip(segment_start(s))
}

/// The last segment starts inside the text, right after a `/` unless it
/// starts the text, and holds no `/` itself.
pub proof fn lemma_segment_start(s: Seq<char>)
    ensures
        0 <= segment_start(s) <= s.len(),
        segment_start(s) > 0 ==> s[segment_start(s) - 1] == '/',
        forall|i: int| segment_start(s) <= i < s.len() ==> s[i] != '/',
    decreases s.len(),
{
    if s.len() == 0 {
    } else if s.last() == '/' {
    } else {
        let front = s.drop_last();
        lemma_segment_start(front);
        assert forall|i: int| segment_start(s) <= i < s.len() implies s[i] != '/' by {
            if i < front.len() {
                assert(s[i] == front[i]);
            }
        }
        if segment_start(s) > 0 {
            assert(s[segment_start(s) - 1] == front[segment_start(s) - 1]);
        }
    }
}

/// What follows the last `/` of `path`: the identifier of the resource that
/// the path names.
pub fn last_path_segment(path: &str) -> (segment: String)
    ensures
        segment@ == last_segment(path@),
{
    let chars = chars_of(path);
    let n = chars.len();
    let mut start: usize = n;
    assert(path@.take(n as int) =~= path@);
    while start > 0 && chars[start - 1] != '/'
        invariant
            start <= n,
            n == chars.len(),
            chars@ == path@,
            segment_start(path@) == segment_start(path@.take(start as int)),
        decreases start,
    {
        proof {
            let prefix = path@.take(start as int);
            assert(prefix.last() == chars@[start - 1]);
            assert(prefix.drop_last() =~= path@.take(start - 1));
        }
        start -= 1;
    }
    proof {
        let prefix = path@.take(start as int);
        if start > 0 {
            assert(prefix.last() == chars@[start - 1]);
        }
        assert(segment_start(prefix) == start);
    }
    path.substring_char(start, n).to_string()
}

/// Appends one character to a string, with `String::push` of the standard
/// library: the string afterwards is the string before, followed by `c`.
#[verifier::external_body]
pub(crate) fn push_char(s: &mut String, c: char)
    ensures
        final(s)@ == old(s)@.push(c),
{
    s.push(c)
}

/// The string that holds the given characters.
pub fn string_from_chars(chars: &Vec<char>) -> (s: String)
    ensures
        s@ == chars@,
{
    let mut s = String::new();
    let mut i: usize = 0;
    while i < chars.len()
        invariant
            i <= chars.len(),
            s@ == chars@.take(i as int),
        decreases chars.len() - i,
    {
        push_char(&mut s, chars[i]);
        assert(chars@.take(i + 1) =~= chars@.take(i as int).push(chars@[i as int]));
        i += 1;
    }
    assert(chars@.take(chars.len() as int) =~= chars@);
    s
}

/// Whether `pattern` stands in `s` at position `at`.
pub open spec fn occurs_at(s: Seq<char>, pattern: Seq<char>, at: int) -> bool {
    0 <= at && at + pattern.len() <= s.len() && s.subrange(at, at + pattern.len()) == pattern
}

/// Whether `pattern` stands somewhere in `s`.
pub open spec fn contains_text(s: Seq<char>, pattern: Seq<char>) -> bool {
    exists|at: int| occurs_at(s, pattern, at)
}

/// Whether `pattern` stands in `s` at position `at`.
pub fn matches_at(s: &Vec<char>, pattern: &Vec<char>, at: usize) -> (found: bool)
    ensures
        found == occurs_at(s@, pattern@, at as int),
{
    if pattern.len() > s.len() || at > s.len() - pattern.len() {
        return false;
    }
    let mut k: usize = 0;
    while k < pattern.len()
        invariant
            k <= pattern.len(),
            at + pattern.len() <= s.len(),
            forall|j: int| 0 <= j < k ==> s@[at + j] == pattern@[j],
        decreases pattern.len() - k,
    {
        if s[at + k] != pattern[k] {
            assert(s@.subrange(at as int, at + pattern.len())[k as int] != pattern@[k as int]);
            return false;
        }
        k += 1;
    }
    assert(s@.subrange(at as int, at + pattern.len()) =~= pattern@);
    true
}

/// The first position at or after `from` where `pattern` stands in `s`.
pub open spec fn find_first(s: Seq<char>, pattern: Seq<char>, from: int) -> Option<int>
    decreases s.len() + 1 - from,
{
    if from < 0 || from > s.len() {
        None
    } else if occurs_at(s, pattern, from) {
        Some(from)
    } else {
        find_first(s, pattern, from + 1)
    }
}

/// The first position at or after `from` where `pattern` stands in `s`.
pub fn find_from(s: &Vec<char>, pattern: &Vec<char>, from: usize) -> (found: Option<usize>)
    ensures
        found matches Some(at) ==> from <= at && occurs_at(s@, pattern@, at as int) && forall|
            j: int,
        |
            from <= j < at ==> !occurs_at(s@, pattern@, j),
        found is None ==> forall|j: int| from <= j ==> !occurs_at(s@, pattern@, j),
        match found {
            Some(at) => find_first(s@, pattern@, from as int) == Some(at as int),
            None => find_first(s@, pattern@, from as int) is None,
        },
{
    let mut at: usize = from;
    while at < s.len()
        invariant
            from <= at,
            forall|j: int| from <= j < at ==> !occurs_at(s@, pattern@, j),
            find_first(s@, pattern@, from as int) == find_first(s@, pattern@, at as int),
        decreases s.len() - at,
    {
        if matches_at(s, pattern, at) {
            return Some(at);
        }
        at += 1;
    }
    if at == s.len() && matches_at(s, pattern, at) {
        return Some(at);
    }
    assert(find_first(s@, pattern@, at + 1) is None);
    None
}

/// Whether `pattern` stands somewhere in `s`.
pub fn contains(s: &str, pattern: &str) -> (found: bool)
    ensures
        found == contains_text(s@, pattern@),
{
    let text = chars_of(s);
    let wanted = chars_of(pattern);
    match find_from(&text, &wanted, 0) {
        Some(at) => true,
        None => {
            assert forall|j: int| !occurs_at(s@, pattern@, j) by {}
            false
        },
    }
}

/// Whether `s` begins with `prefix`.
pub fn starts_with(s: &str, prefix: &str) -> (found: bool)
    ensures
        found == occurs_at(s@, prefix@, 0),
{
    let text = chars_of(s);
    let wanted = chars_of(prefix);
    matches_at(&text, &wanted, 0)
}

/// The characters of `chars` from `from` up to `to`, as a string.
pub fn string_from_range(chars: &Vec<char>, from: usize, to: usize) -> (s: String)
    requires
        from <= to <= chars.len(),
    ensures
        s@ == chars@.subrange(from as int, to as int),
{
    let mut s = String::new();
    let mut i: usize = from;
    while i < to
        invariant
            from <= i <= to <= chars.len(),
            s@ == chars@.subrange(from as int, i as int),
        decreases to - i,
    {
        push_char(&mut s, chars[i]);
        assert(chars@.subrange(from as int, i + 1) =~= chars@.subrange(
            from as int,
            i as int,
        ).push(chars@[i as int]));
        i += 1;
    }
    s
}

/// The text in lower case, as `str::to_lowercase` of the standard library
/// gives it.
pub uninterp spec fn lowercase(s: Seq<char>) -> Seq<char>;

/// Puts a text in lower case with `str::to_lowercase` of the standard
/// library. The result is named, not described: it follows the Unicode
/// tables of the library.
#[verifier::external_body]
pub(crate) fn to_lowercase(s: &str) -> (lower: String)
    ensures
        lower@ == lowercase(s@),
{
    s.to_lowercase()
}

/// Whether a character is white space: one of the characters to which
/// Unicode gives the property `White_Space`. These are the controls from
/// the tab to the carriage return, the space, the next-line control, the
/// no-break space, the Ogham space mark, the spaces of fixed width from the
/// en quad to the hair space, the line and the paragraph separator, the
/// narrow no-break space, the medium mathematical space and the ideographic
/// space.
pub open spec fn is_whitespace(c: char) -> bool {
    ('\u{9}' <= c <= '\u{d}') || c == ' ' || c == '\u{85}' || c == '\u{a0}' || c == '\u{1680}'
        || ('\u{2000}' <= c <= '\u{200a}') || c == '\u{2028}' || c == '\u{2029}' || c
        == '\u{202f}' || c == '\u{205f}' || c == '\u{3000}'
}

/// Asks `char::is_whitespace` of the standard library, which tells whether
/// a character has the property `White_Space`.
#[verifier::external_body]
pub(crate) fn char_is_whitespace(c: char) -> (yes: bool)
    ensures
        yes == is_whitespace(c),
{
    c.is_whitespace()
}

/// Whether a character is a letter or a number, as `char::is_alphanumeric`
/// of the standard library says.
pub uninterp spec fn is_alphanumeric(c: char) -> bool;

/// Asks `char::is_alphanumeric` of the standard library.
#[verifier::external_body]
pub(crate) fn char_is_alphanumeric(c: char) -> (yes: bool)
    ensures
        yes == is_alphanumeric(c),
{
    c.is_alphanumeric()
}

/// The second of the pieces into which `marker` splits `s`: what stands
/// between the first `marker` and the next one, or the end. `None` where
/// `s` holds no `marker`.
pub open spec fn piece_after(s: Seq<char>, marker: Seq<char>) -> Option<Seq<char>> {
    match find_first(s, marker, 0) {
        None => None,
        Some(at) => match find_first(s, marker, at + marker.len()) {
            Some(next) => Some(s.subrange(at + marker.len(), next)),
            None => Some(s.skip(at + marker.len())),
        },
    }
}

/// The bounds of the second of the pieces into which `marker` splits `s`.
pub fn piece_after_bounds(s: &Vec<char>, marker: &Vec<char>) -> (bounds: Option<(usize, usize)>)
    ensures
        match bounds {
            Some((from, to)) => from <= to <= s.len() && piece_after(s@, marker@) == Some(
                s@.subrange(from as int, to as int),
            ),
            None => piece_after(s@, marker@) is None,
        },
{
    match find_from(s, marker, 0) {
        None => None,
        Some(at) => {
            assert(occurs_at(s@, marker@, at as int));
            assert(at + marker.len() <= s.len());
            let from = at + marker.len();
            match find_from(s, marker, from) {
                Some(next) => Some((from, next)),
                None => {
                    assert(s@.skip(from as int) =~= s@.subrange(from as int, s.len() as int));
                    Some((from, s.len()))
                },
            }
        },
    }
}

/// The length of the longest start of `s` that holds none of `stops`.
pub open spec fn stop_free_len(s: Seq<char>, stops: Seq<char>) -> int
    decreases s.len(),
{
    if s.len() == 0 || stops.contains(s[0]) {
        0
    } else {
        1 + stop_free_len(s.drop_first(), stops)
    }
}

/// The start of `s` up to the first of the characters `stops`; all of `s`
/// where it holds none of them.
pub open spec fn before_any(s: Seq<char>, stops: Seq<char>) -> Seq<char> {
    s.take(stop_free_len(s, stops))
}

/// Whether `c` is one of `stops`.
pub fn is_one_of(c: char, stops: &Vec<char>) -> (found: bool)
    ensures
        found == stops@.contains(c),
{
    let mut i: usize = 0;
    while i < stops.len()
        invariant
            i <= stops.len(),
            forall|k: int| 0 <= k < i ==> stops@[k] != c,
        decreases stops.len() - i,
    {
        if stops[i] == c {
            return true;
        }
        i += 1;
    }
    false
}

/// Where the part of `s` from `from` to `to` first meets one of `stops`;
/// `to` where it meets none.
pub fn first_stop(s: &Vec<char>, from: usize, to: usize, stops: &Vec<char>) -> (at: usize)
    requires
        from <= to <= s.len(),
    ensures
        from <= at <= to,
        at - from == stop_free_len(s@.subrange(from as int, to as int), stops@),
{
    let ghost part = s@.subrange(from as int, to as int);
    let mut at: usize = from;
    assert(part.skip(0) =~= part);
    while at < to && !is_one_of(s[at], stops)
        invariant
            from <= at <= to <= s.len(),
            part == s@.subrange(from as int, to as int),
            stop_free_len(part, stops@) == (at - from) + stop_free_len(
                part.skip(at - from),
                stops@,
            ),
        decreases to - at,
    {
        proof {
            let rest = part.skip(at - from);
            assert(rest[0] == s@[at as int]);
            assert(rest.drop_first() =~= part.skip(at - from + 1));
        }
        at += 1;
    }
    proof {
        let rest = part.skip(at - from);
        if at < to {
            assert(rest[0] == s@[at as int]);
        }
    }
    at
}

/// The number of white-space characters at the start of `s`.
pub open spec fn leading_space(s: Seq<char>) -> int
    decreases s.len(),
{
    if s.len() > 0 && is_whitespace(s[0]) {
        1 + leading_space(s.drop_first())
    } else {
        0
    }
}

/// The length of `s` without the white space at its end.
pub open spec fn trimmed_end(s: Seq<char>) -> int
    decreases s.len(),
{
    if s.len() > 0 && is_whitespace(s.last()) {
        trimmed_end(s.drop_last())
    } else {
        s.len() as int
    }
}

/// `s` without the white space at its start and at its end.
pub open spec fn trimmed(s: Seq<char>) -> Seq<char> {
    let rest = s.skip(leading_space(s));
    rest.take(trimmed_end(rest))
}

/// The bounds of what is left of the part of `chars` from `from` to `to`
/// when the white space at its start and end is set aside.
pub fn trim_bounds(chars: &Vec<char>, from: usize, to: usize) -> (bounds: (usize, usize))
    requires
        from <= to <= chars.len(),
    ensures
        from <= bounds.0 <= bounds.1 <= to,
        chars@.subrange(bounds.0 as int, bounds.1 as int) == trimmed(
            chars@.subrange(from as int, to as int),
        ),
{
    let ghost part = chars@.subrange(from as int, to as int);
    let mut a: usize = from;
    assert(part.skip(0) =~= part);
    while a < to && char_is_whitespace(chars[a])
        invariant
            from <= a <= to <= chars.len(),
            part == chars@.subrange(from as int, to as int),
            leading_space(part) == (a - from) + leading_space(part.skip(a - from)),
        decreases to - a,
    {
        proof {
            let rest = part.skip(a - from);
            assert(rest[0] == chars@[a as int]);
            assert(rest.drop_first() =~= part.skip(a - from + 1));
        }
        a += 1;
    }
    let ghost rest = part.skip(a - from);
    proof {
        if a < to {
            assert(rest[0] == chars@[a as int]);
        }
        assert(leading_space(part) == a - from);
        assert(rest =~= chars@.subrange(a as int, to as int));
        assert(rest.take(rest.len() as int) =~= rest);
    }
    let mut b: usize = to;
    while b > a && char_is_whitespace(chars[b - 1])
        invariant
            a <= b <= to <= chars.len(),
            rest == chars@.subrange(a as int, to as int),
            trimmed_end(rest) == trimmed_end(rest.take(b - a)),
        decreases b,
    {
        proof {
            let prefix = rest.take(b - a);
            assert(prefix.last() == chars@[b - 1]);
            assert(prefix.drop_last() =~= rest.take(b - a - 1));
        }
        b -= 1;
    }
    proof {
        let prefix = rest.take(b - a);
        if b > a {
            assert(prefix.last() == chars@[b - 1]);
        }
        assert(trimmed_end(rest) == b - a);
        assert(chars@.subrange(a as int, b as int) =~= rest.take(b - a));
    }
    (a, b)
}

/// A text without the white space at its start and at its end.
pub fn trim(s: &str) -> (text: String)
    ensures
        text@ == trimmed(s@),
{
    let chars = chars_of(s);
    let (a, b) = trim_bounds(&chars, 0, chars.len());
    assert(chars@.subrange(0, chars.len() as int) =~= s@);
    string_from_range(&chars, a, b)
}

/// Whether two parts of character vectors hold the same characters.
pub fn ranges_equal(
    left: &Vec<char>,
    left_from: usize,
    left_to: usize,
    right: &Vec<char>,
    right_from: usize,
    right_to: usize,
) -> (same: bool)
    requires
        left_from <= left_to <= left.len(),
        right_from <= right_to <= right.len(),
    ensures
        same == (left@.subrange(left_from as int, left_to as int) == right@.subrange(
            right_from as int,
            right_to as int,
        )),
{
    let ghost a = left@.subrange(left_from as int, left_to as int);
    let ghost b = right@.subrange(right_from as int, right_to as int);
    if left_to - left_from != right_to - right_from {
        assert(a.len() != b.len());
        return false;
    }
    let n = left_to - left_from;
    let mut k: usize = 0;
    while k < n
        invariant
            k <= n,
            n == left_to - left_from,
            n == right_to - right_from,
            left_to <= left.len(),
            right_to <= right.len(),
            a == left@.subrange(left_from as int, left_to as int),
            b == right@.subrange(right_from as int, right_to as int),
            forall|j: int| 0 <= j < k ==> a[j] == b[j],
        decreases n - k,
    {
        if left[left_from + k] != right[right_from + k] {
            assert(a[k as int] != b[k as int]);
            return false;
        }
        k += 1;
    }
    assert(a =~= b);
    true
}

} // verus!
