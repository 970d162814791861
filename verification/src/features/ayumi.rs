//! What the assistant makes of a message before it answers.
use vstd::prelude::*;
use vstd::utf8::encode_utf8;
use crate::api::llm::ChatMessage;
use crate::utils::text::{
    char_is_whitespace, chars_of, contains_text, find_from, is_whitespace, leading_space,
    lowercase, string_from_range, to_lowercase,
};

verus! {

/// What the assistant remembers of a user.
#[derive(Debug)]
pub struct UserData {
    pub user_id: u64,
    pub username: String,
    pub display_name: String,
    pub nickname: Option<String>,
    /// The name to call the user by: the nickname where there is one, else
    /// the display name.
    pub best_name: String,
    pub interaction_count: u32,
    /// When the user last wrote, in seconds since the epoch.
    pub last_interaction: i64,
    pub conversation_history: Vec<ChatMessage>,
}

impl UserData {
    /// What is remembered of a user who writes for the first time, at `now`.
    pub fn new(
        user_id: u64,
        username: &str,
        display_name: &str,
        nickname: Option<&str>,
        now: i64,
    ) -> (data: UserData)
        ensures
            data.user_id == user_id,
            data.username@ == username@,
            data.display_name@ == display_name@,
            match nickname {
                Some(name) => data.nickname matches Some(n) && n@ == name@ && data.best_name@
                    == name@,
                None => data.nickname is None && data.best_name@ == display_name@,
            },
            data.interaction_count == 1,
            data.last_interaction == now,
            data.conversation_history@.len() == 0,
    {
        let best_name = match nickname {
            Some(name) => name.to_string(),
            None => display_name.to_string(),
        };
        UserData {
            user_id,
            username: username.to_string(),
            display_name: display_name.to_string(),
            nickname: match nickname {
                Some(name) => Some(name.to_string()),
                None => None,
            },
            best_name,
            interaction_count: 1,
            last_interaction: now,
            conversation_history: Vec::new(),
        }
    }
}

/// Whether `text` holds one of `keywords`.
pub open spec fn holds_any(text: Seq<char>, keywords: Seq<&'static str>) -> bool {
    exists|i: int| 0 <= i < keywords.len() && contains_text(text, (#[trigger] keywords[i])@)
}

/// Whether `text` holds one of `keywords`.
pub fn contains_any(text: &str, keywords: &[&'static str]) -> (found: bool)
    ensures
        found == holds_any(text@, keywords@),
{
    let chars = chars_of(text);
    let mut i: usize = 0;
    while i < keywords.len()
        invariant
            i <= keywords.len(),
            chars@ == text@,
            forall|k: int| 0 <= k < i ==> !contains_text(text@, (#[trigger] keywords@[k])@),
        decreases keywords.len() - i,
    {
        let keyword = chars_of(keywords[i]);
        match find_from(&chars, &keyword, 0) {
            Some(at) => {
                return true;
            },
            None => {
                assert forall|j: int| !crate::utils::text::occurs_at(text@, keywords@[i as int]@, j) by {}
            },
        }
        i += 1;
    }
    false
}

/// The words that ask for a picture to be made.
pub open spec fn image_keywords() -> Seq<&'static str> {
    seq![
        "buatkan gambar",
        "generate gambar",
        "buat gambar",
        "gambarkan",
        "draw",
        "create image",
        "bikin gambar",
        "lukis",
        "sketch",
        "ilustrasi",
        "visualisasi",
        "make an image",
        "buatkan ilustrasi",
        "create illustration",
        "gambar anime",
        "anime art",
        "pixel art",
        "artwork",
    ]
}

/// The words that ask about a profile picture.
pub open spec fn avatar_keywords() -> Seq<&'static str> {
    seq![
        "foto profil",
        "avatar",
        "profile picture",
        "pp",
        "foto pp",
        "gambar profil",
        "foto saya",
        "avatar saya",
        "pp saya",
        "lihat foto",
        "foto gue",
        "avatar gue",
        "pp gue",
        "pfp",
    ]
}

/// The words that ask for a novel.
pub open spec fn novel_keywords() -> Seq<&'static str> {
    seq![
        "novel",
        "light novel",
        "cari novel",
        "rekomendasi novel",
        "download novel",
        "unduh novel",
        "novel saran",
        "novel untuk",
        "novel pemula",
        "novel jlpt",
        "novel n5",
        "novel n4",
        "novel n3",
        "novel n2",
        "novel n1",
        "novel romance",
        "novel isekai",
    ]
}

/// Whether a message asks for a picture to be made: in lower case it holds
/// one of the image keywords.
pub fn detect_image_generation(text: &str) -> (asked: bool)
    ensures
        asked == holds_any(lowercase(text@), image_keywords()),
{
    let keywords = [
        "buatkan gambar",
        "generate gambar",
        "buat gambar",
        "gambarkan",
        "draw",
        "create image",
        "bikin gambar",
        "lukis",
        "sketch",
        "ilustrasi",
        "visualisasi",
        "make an image",
        "buatkan ilustrasi",
        "create illustration",
        "gambar anime",
        "anime art",
        "pixel art",
        "artwork",
    ];
    assert(keywords@ =~= image_keywords());
    let lower = to_lowercase(text);
    contains_any(lower.as_str(), &keywords)
}

/// Whether a message asks about a profile picture: in lower case it holds
/// one of the avatar keywords.
pub fn detect_avatar_question(text: &str) -> (asked: bool)
    ensures
        asked == holds_any(lowercase(text@), avatar_keywords()),
{
    let keywords = [
        "foto profil",
        "avatar",
        "profile picture",
        "pp",
        "foto pp",
        "gambar profil",
        "foto saya",
        "avatar saya",
        "pp saya",
        "lihat foto",
        "foto gue",
        "avatar gue",
        "pp gue",
        "pfp",
    ];
    assert(keywords@ =~= avatar_keywords());
    let lower = to_lowercase(text);
    contains_any(lower.as_str(), &keywords)
}

/// Whether a message asks for a novel: in lower case it holds one of the
/// novel keywords.
pub fn detect_novel_request(text: &str) -> (asked: bool)
    ensures
        asked == holds_any(lowercase(text@), novel_keywords()),
{
    let keywords = [
        "novel",
        "light novel",
        "cari novel",
        "rekomendasi novel",
        "download novel",
        "unduh novel",
        "novel saran",
        "novel untuk",
        "novel pemula",
        "novel jlpt",
        "novel n5",
        "novel n4",
        "novel n3",
        "novel n2",
        "novel n1",
        "novel romance",
        "novel isekai",
    ];
    assert(keywords@ =~= novel_keywords());
    let lower = to_lowercase(text);
    contains_any(lower.as_str(), &keywords)
}

/// The length of the longest start of `s` that holds no line feed.
pub open spec fn line_len(s: Seq<char>) -> int
    decreases s.len(),
{
    if s.len() == 0 || s[0] == '\n' {
        0
    } else {
        1 + line_len(s.drop_first())
    }
}

/// A line without the carriage return at its end, where it has one.
pub open spec fn without_return(line: Seq<char>) -> Seq<char> {
    if line.len() > 0 && line.last() == '\r' {
        line.drop_last()
    } else {
        line
    }
}

/// The length of a start of a text never exceeds the text.
pub proof fn lemma_line_len(s: Seq<char>)
    ensures
        0 <= line_len(s) <= s.len(),
        line_len(s) < s.len() ==> s[line_len(s)] == '\n',
    decreases s.len(),
{
    if s.len() == 0 || s[0] == '\n' {
    } else {
        lemma_line_len(s.drop_first());
    }
}

/// The lines of a text. A line ends at a line feed, which does not belong
/// to it, nor does a carriage return right before the line feed; what
/// follows the last line feed is a line where it is not empty.
pub open spec fn lines_of(text: Seq<char>) -> Seq<Seq<char>>
    decreases text.len(),
{
    if text.len() == 0 {
        Seq::empty()
    } else if line_len(text) < text.len() {
        proof {
            lemma_line_len(text);
        }
        seq![without_return(text.take(line_len(text)))] + lines_of(text.skip(line_len(text) + 1))
    } else {
        seq![text]
    }
}

/// The length of the longest start of `s` that holds no white space.
pub open spec fn word_len(s: Seq<char>) -> int
    decreases s.len(),
{
    if s.len() == 0 || is_whitespace(s[0]) {
        0
    } else {
        1 + word_len(s.drop_first())
    }
}

/// White space at the start ends inside the text, before a character that
/// is none; a word ends inside the text, before white space.
pub proof fn lemma_space_and_word(s: Seq<char>)
    ensures
        0 <= leading_space(s) <= s.len(),
        leading_space(s) < s.len() ==> !is_whitespace(s[leading_space(s)]),
        0 <= word_len(s) <= s.len(),
        s.len() > 0 && !is_whitespace(s[0]) ==> word_len(s) >= 1,
    decreases s.len(),
{
    if s.len() > 0 {
        lemma_space_and_word(s.drop_first());
    }
}

/// The words of a text: its runs of characters that are no white space.
pub open spec fn words_of(s: Seq<char>) -> Seq<Seq<char>>
    decreases s.len(),
{
    let rest = s.skip(leading_space(s));
    if leading_space(s) < 0 || leading_space(s) >= s.len() || word_len(rest) <= 0 {
        Seq::empty()
    } else {
        proof {
            lemma_space_and_word(s);
            lemma_space_and_word(rest);
        }
        seq![rest.take(word_len(rest))] + words_of(rest.skip(word_len(rest)))
    }
}

/// The length of a text in bytes of UTF-8.
pub open spec fn byte_len(s: Seq<char>) -> int {
    encode_utf8(s).len() as int
}

/// The chunks with the chunk in the making added, where it is not empty.
pub open spec fn flushed(chunks: Seq<Seq<char>>, current: Seq<char>) -> Seq<Seq<char>> {
    if current.len() > 0 {
        chunks.push(current)
    } else {
        chunks
    }
}

/// A chunk with one more piece, set apart from what the chunk holds by
/// `separator`.
pub open spec fn joined(current: Seq<char>, separator: char, piece: Seq<char>) -> Seq<char> {
    if current.len() > 0 {
        current.push(separator) + piece
    } else {
        piece
    }
}

/// Whether `piece` no longer fits into a chunk that holds `current`, with
/// one byte for the separator.
pub open spec fn overflows(current: Seq<char>, piece: Seq<char>, max_len: int) -> bool {
    byte_len(current) + byte_len(piece) + 1 > max_len
}

/// Packing the first `upto` words of a line that is too long: the chunks
/// that are full, and the chunk in the making. A word goes into the chunk
/// in the making while it fits, after a space; else that chunk is closed
/// and the word opens the next one.
pub open spec fn packed_words(words: Seq<Seq<char>>, upto: int, max_len: int) -> (
    Seq<Seq<char>>,
    Seq<char>,
)
    decreases upto,
{
    if upto <= 0 {
        (Seq::empty(), Seq::empty())
    } else {
        let (chunks, current) = packed_words(words, upto - 1, max_len);
        let word = words[upto - 1];
        if overflows(current, word, max_len) {
            (flushed(chunks, current), word)
        } else {
            (chunks, joined(current, ' ', word))
        }
    }
}

/// Packing the first `upto` lines of a text: the chunks that are full, and
/// the chunk in the making. A line goes into the chunk in the making while
/// it fits, after a line feed; else that chunk is closed and the line opens
/// the next one. A line that is too long for any chunk first closes the
/// chunk in the making and is then packed word by word.
pub open spec fn packed_lines(lines: Seq<Seq<char>>, upto: int, max_len: int) -> (
    Seq<Seq<char>>,
    Seq<char>,
)
    decreases upto,
{
    if upto <= 0 {
        (Seq::empty(), Seq::empty())
    } else {
        let (chunks, current) = packed_lines(lines, upto - 1, max_len);
        let line = lines[upto - 1];
        if byte_len(line) > max_len {
            let words = words_of(line);
            let (full, last) = packed_words(words, words.len() as int, max_len);
            (flushed(chunks, current) + full, last)
        } else if overflows(current, line, max_len) {
            (flushed(chunks, current), line)
        } else {
            (chunks, joined(current, '\n', line))
        }
    }
}

/// A text cut into chunks of at most `max_len` bytes, at line ends where
/// that is possible and between words where a line is too long: the text
/// itself where it fits, else its lines packed into chunks. Only a single
/// word that is longer than `max_len` makes a chunk that is too long.
pub open spec fn chunked(text: Seq<char>, max_len: int) -> Seq<Seq<char>> {
    if byte_len(text) <= max_len {
        seq![text]
    } else {
        let lines = lines_of(text);
        let (chunks, current) = packed_lines(lines, lines.len() as int, max_len);
        flushed(chunks, current)
    }
}

/// The character sequences of a vector of strings.
pub open spec fn texts(chunks: Seq<String>) -> Seq<Seq<char>> {
    Seq::new(chunks.len(), |i: int| chunks[i]@)
}

/// Packing depends only on the words packed so far.
pub proof fn lemma_packed_words_prefix(
    a: Seq<Seq<char>>,
    b: Seq<Seq<char>>,
    upto: int,
    max_len: int,
)
    requires
        0 <= upto <= a.len(),
    ensures
        packed_words(a + b, upto, max_len) == packed_words(a, upto, max_len),
    decreases upto,
{
    if upto > 0 {
        lemma_packed_words_prefix(a, b, upto - 1, max_len);
        assert((a + b)[upto - 1] == a[upto - 1]);
    }
}

/// Packing depends only on the lines packed so far.
pub proof fn lemma_packed_lines_prefix(
    a: Seq<Seq<char>>,
    b: Seq<Seq<char>>,
    upto: int,
    max_len: int,
)
    requires
        0 <= upto <= a.len(),
    ensures
        packed_lines(a + b, upto, max_len) == packed_lines(a, upto, max_len),
    decreases upto,
{
    if upto > 0 {
        lemma_packed_lines_prefix(a, b, upto - 1, max_len);
        assert((a + b)[upto - 1] == a[upto - 1]);
    }
}

/// Whether a piece of `piece_bytes` bytes no longer fits into a chunk of
/// `current_bytes` bytes, with one byte for the separator.
fn exceeds(current_bytes: usize, piece_bytes: usize, max_len: usize) -> (yes: bool)
    ensures
        yes == (current_bytes + piece_bytes + 1 > max_len),
{
    current_bytes >= max_len || piece_bytes >= max_len - current_bytes
}

/// Adds the chunk in the making to the chunks where it is not empty.
fn flush(chunks: &mut Vec<String>, current: String)
    ensures
        texts(final(chunks)@) == flushed(texts(old(chunks)@), current@),
{
    let ghost before = texts(chunks@);
    if current.as_str().unicode_len() > 0 {
        let ghost added = current@;
        chunks.push(current);
        assert(texts(chunks@) =~= before.push(added));
    } else {
        assert(texts(chunks@) =~= before);
    }
}

/// Packs the words of the part of `chars` from `from` to `to` into
/// `chunks`, and returns the chunk in the making.
fn pack_words(chars: &Vec<char>, from: usize, to: usize, max_len: usize, chunks: &mut Vec<String>) -> (last:
    String)
    requires
        from <= to <= chars.len(),
    ensures
        ({
            let words = words_of(chars@.subrange(from as int, to as int));
            let (full, current) = packed_words(words, words.len() as int, max_len as int);
            texts(final(chunks)@) == texts(old(chunks)@) + full && last@ == current
        }),
{
    let ghost line = chars@.subrange(from as int, to as int);
    let ghost start = texts(chunks@);
    let ghost mut done: Seq<Seq<char>> = Seq::empty();
    let mut current = String::new();
    let mut pos: usize = from;
    proof {
        assert(line.skip(0) =~= line);
        assert(done + words_of(line) =~= words_of(line));
        assert(start + Seq::<Seq<char>>::empty() =~= start);
    }
    loop
        invariant
            from <= pos <= to <= chars.len(),
            line == chars@.subrange(from as int, to as int),
            start == texts(old(chunks)@),
            words_of(line) == done + words_of(line.skip(pos - from)),
            texts(chunks@) == start + packed_words(done, done.len() as int, max_len as int).0,
            current@ == packed_words(done, done.len() as int, max_len as int).1,
        ensures
            words_of(line) == done,
            texts(chunks@) == start + packed_words(done, done.len() as int, max_len as int).0,
            current@ == packed_words(done, done.len() as int, max_len as int).1,
        decreases to - pos,
    {
        let ghost rest = line.skip(pos - from);
        let ghost gap = leading_space(rest);
        let mut a: usize = pos;
        proof {
            assert(rest.skip(0) =~= rest);
        }
        while a < to && char_is_whitespace(chars[a])
            invariant
                pos <= a <= to <= chars.len(),
                from <= pos,
                line == chars@.subrange(from as int, to as int),
                rest == line.skip(pos - from),
                leading_space(rest) == (a - pos) + leading_space(rest.skip(a - pos)),
            decreases to - a,
        {
            proof {
                let tail = rest.skip(a - pos);
                assert(tail[0] == chars@[a as int]);
                assert(tail.drop_first() =~= rest.skip(a - pos + 1));
            }
            a += 1;
        }
        let ghost after_gap = rest.skip(a - pos);
        proof {
            if a < to {
                assert(after_gap[0] == chars@[a as int]);
            }
            assert(leading_space(rest) == a - pos);
            assert(after_gap =~= line.skip(a - from));
            lemma_space_and_word(after_gap);
        }
        if a >= to {
            proof {
                assert(words_of(rest) =~= Seq::<Seq<char>>::empty());
                assert(done + words_of(rest) =~= done);
            }
            break;
        }
        let mut b: usize = a;
        proof {
            assert(after_gap.skip(0) =~= after_gap);
        }
        while b < to && !char_is_whitespace(chars[b])
            invariant
                a <= b <= to <= chars.len(),
                from <= a,
                line == chars@.subrange(from as int, to as int),
                after_gap == line.skip(a - from),
                word_len(after_gap) == (b - a) + word_len(after_gap.skip(b - a)),
            decreases to - b,
        {
            proof {
                let tail = after_gap.skip(b - a);
                assert(tail[0] == chars@[b as int]);
                assert(tail.drop_first() =~= after_gap.skip(b - a + 1));
            }
            b += 1;
        }
        proof {
            let tail = after_gap.skip(b - a);
            if b < to {
                assert(tail[0] == chars@[b as int]);
            }
            assert(word_len(after_gap) == b - a);
            assert(after_gap.skip(b - a) =~= line.skip(b - from));
            assert(chars@.subrange(a as int, b as int) =~= after_gap.take(b - a));
        }
        let word = string_from_range(chars, a, b);
        let ghost before_done = done;
        proof {
            done = done.push(word@);
            assert(words_of(rest) == seq![word@] + words_of(line.skip(b - from)));
            assert(before_done + (seq![word@] + words_of(line.skip(b - from))) =~= done + words_of(
                line.skip(b - from),
            ));
            lemma_packed_words_prefix(
                before_done,
                seq![word@],
                before_done.len() as int,
                max_len as int,
            );
            assert(before_done + seq![word@] =~= done);
            assert(done[done.len() - 1] == word@);
        }
        if exceeds(current.as_str().as_bytes().len(), word.as_str().as_bytes().len(), max_len) {
            let ghost emitted = texts(chunks@);
            flush(chunks, current);
            current = word;
            proof {
                let (full, last) = packed_words(before_done, before_done.len() as int, max_len as int);
                assert(texts(chunks@) =~= start + flushed(full, last));
            }
        } else {
            if current.as_str().unicode_len() > 0 {
                crate::utils::text::push_char(&mut current, ' ');
            }
            current.append(word.as_str());
        }
        pos = b;
    }
    current
}

/// Finds the line that starts at `pos`: where it ends, and where the next
/// line starts.
pub fn next_line(chars: &Vec<char>, pos: usize) -> (bounds: (usize, usize))
    requires
        pos < chars.len(),
    ensures
        pos <= bounds.0 <= bounds.1 <= chars.len(),
        pos < bounds.1,
        lines_of(chars@.skip(pos as int)) == seq![chars@.subrange(pos as int, bounds.0 as int)]
            + lines_of(chars@.skip(bounds.1 as int)),
{
    let n = chars.len();
    let ghost rest = chars@.skip(pos as int);
    let mut end: usize = pos;
    proof {
        assert(rest.skip(0) =~= rest);
    }
    while end < n && chars[end] != '\n'
        invariant
            pos <= end <= n,
            n == chars.len(),
            rest == chars@.skip(pos as int),
            line_len(rest) == (end - pos) + line_len(rest.skip(end - pos)),
        decreases n - end,
    {
        proof {
            let tail = rest.skip(end - pos);
            assert(tail[0] == chars@[end as int]);
            assert(tail.drop_first() =~= rest.skip(end - pos + 1));
        }
        end += 1;
    }
    proof {
        let tail = rest.skip(end - pos);
        if end < n {
            assert(tail[0] == chars@[end as int]);
        }
        assert(line_len(rest) == end - pos);
    }
    let ends_with_feed = end < n;
    let stop: usize = if ends_with_feed && end > pos && chars[end - 1] == '\r' {
        end - 1
    } else {
        end
    };
    let next: usize = if ends_with_feed {
        end + 1
    } else {
        end
    };
    proof {
        let raw = rest.take(end - pos);
        assert(raw =~= chars@.subrange(pos as int, end as int));
        if ends_with_feed {
            if end > pos {
                assert(raw.last() == chars@[end - 1]);
            }
            assert(without_return(raw) =~= chars@.subrange(pos as int, stop as int));
            assert(rest.skip(end - pos + 1) =~= chars@.skip(next as int));
        } else {
            assert(rest =~= chars@.subrange(pos as int, stop as int));
            assert(chars@.skip(next as int).len() == 0);
        }
    }
    (stop, next)
}

/// Cuts a message into chunks of at most `max_len` bytes, at line ends
/// where that is possible, so that no word is cut.
pub fn smart_chunk_message(text: &str, max_len: usize) -> (chunks: Vec<String>)
    ensures
        texts(chunks@) == chunked(text@, max_len as int),
{
    let mut chunks: Vec<String> = Vec::new();
    if text.as_bytes().len() <= max_len {
        chunks.push(text.to_string());
        assert(texts(chunks@) =~= seq![text@]);
        return chunks;
    }
    let chars = chars_of(text);
    let n = chars.len();
    let ghost mut done: Seq<Seq<char>> = Seq::empty();
    let mut current = String::new();
    let mut pos: usize = 0;
    proof {
        assert(text@.skip(0) =~= text@);
        assert(done + lines_of(text@) =~= lines_of(text@));
        assert(texts(chunks@) =~= Seq::<Seq<char>>::empty());
    }
    while pos < n
        invariant
            pos <= n,
            n == chars.len(),
            chars@ == text@,
            lines_of(text@) == done + lines_of(text@.skip(pos as int)),
            texts(chunks@) == packed_lines(done, done.len() as int, max_len as int).0,
            current@ == packed_lines(done, done.len() as int, max_len as int).1,
        decreases n - pos,
    {
        let (stop, next) = next_line(&chars, pos);
        let line = string_from_range(&chars, pos, stop);
        let ghost before_done = done;
        proof {
            done = done.push(line@);
            assert(before_done + (seq![line@] + lines_of(text@.skip(next as int))) =~= done
                + lines_of(text@.skip(next as int)));
            lemma_packed_lines_prefix(
                before_done,
                seq![line@],
                before_done.len() as int,
                max_len as int,
            );
            assert(before_done + seq![line@] =~= done);
            assert(done[done.len() - 1] == line@);
        }
        let line_bytes = line.as_str().as_bytes().len();
        if line_bytes > max_len {
            let ghost emitted = texts(chunks@);
            flush(&mut chunks, current);
            let ghost after_flush = texts(chunks@);
            current = pack_words(&chars, pos, stop, max_len, &mut chunks);
            proof {
                let words = words_of(line@);
                let (full, last) = packed_words(words, words.len() as int, max_len as int);
                assert(texts(chunks@) =~= after_flush + full);
            }
        } else if exceeds(current.as_str().as_bytes().len(), line_bytes, max_len) {
            flush(&mut chunks, current);
            current = line;
        } else {
            if current.as_str().unicode_len() > 0 {
                crate::utils::text::push_char(&mut current, '\n');
            }
            current.append(line.as_str());
        }
        pos = next;
    }
    proof {
        assert(text@.skip(n as int).len() == 0);
        assert(done + lines_of(text@.skip(n as int)) =~= done);
    }
    flush(&mut chunks, current);
    chunks
}

} // verus!
