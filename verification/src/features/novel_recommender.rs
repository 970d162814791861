//! Recommending novels from the catalogue.
use vstd::prelude::*;
use crate::api::firebase::decimal::{digits, u64_to_decimal};
use crate::api::firebase::decimal::digit_value;
use crate::features::ayumi::{lines_of, next_line};
use crate::utils::text::{
    char_is_whitespace, chars_of, contains, contains_text, is_one_of, is_whitespace, lowercase,
    push_char, string_from_range, to_lowercase, trim_bounds, trimmed,
};

verus! {

/// One novel of the catalogue.
#[derive(Debug, Clone)]
pub struct Novel {
    pub id: String,
    pub title: String,
    pub url: String,
    pub size: String,
    pub format: String,
}

/// The mathematical value of a [`Novel`].
pub struct NovelModel {
    pub id: Seq<char>,
    pub title: Seq<char>,
    pub url: Seq<char>,
    pub size: Seq<char>,
    pub format: Seq<char>,
}

impl View for Novel {
    type V = NovelModel;

    open spec fn view(&self) -> NovelModel {
        NovelModel {
            id: self.id@,
            title: self.title@,
            url: self.url@,
            size: self.size@,
            format: self.format@,
        }
    }
}

/// The canonical decomposition of a text (Unicode Normalization Form D), as
/// the crate `unicode-normalization` gives it.
pub uninterp spec fn nfd(s: Seq<char>) -> Seq<char>;

/// Decomposes a text with `UnicodeNormalization::nfd` of the crate
/// `unicode-normalization`. The result is named, not described: it follows
/// the Unicode tables of the crate.
#[verifier::external_body]
fn nfd_chars(s: &str) -> (decomposed: Vec<char>)
    ensures
        decomposed@ == nfd(s@),
{
    unicode_normalization::UnicodeNormalization::nfd(s).collect()
}

/// Whether a character is a punctuation mark of ASCII.
pub open spec fn is_ascii_punctuation(c: char) -> bool {
    let code = c as u32;
    (33 <= code <= 47) || (58 <= code <= 64) || (91 <= code <= 96) || (123 <= code <= 126)
}

/// Whether a character is a combining diacritical mark, U+0300 to U+036F.
pub open spec fn is_combining_mark(c: char) -> bool {
    0x300 <= c as u32 <= 0x36f
}

/// The characters of `s` that are neither ASCII punctuation nor combining
/// marks.
pub open spec fn without_marks(s: Seq<char>) -> Seq<char> {
    s.filter(|c: char| !is_ascii_punctuation(c) && !is_combining_mark(c))
}

/// The first `upto` characters of `s` with every run of white space between
/// two words replaced by one space, and the white space before the first
/// word and after the last one left out.
pub open spec fn joined_words(s: Seq<char>, upto: int) -> Seq<char>
    decreases upto,
{
    if upto <= 0 {
        Seq::empty()
    } else {
        let front = joined_words(s, upto - 1);
        let c = s[upto - 1];
        if is_whitespace(c) {
            front
        } else if upto >= 2 && is_whitespace(s[upto - 2]) && front.len() > 0 {
            front.push(' ').push(c)
        } else {
            front.push(c)
        }
    }
}

/// A text made ready for matching: decomposed, without punctuation and
/// diacritics, in lower case, its words joined by single spaces.
pub open spec fn normalized(s: Seq<char>) -> Seq<char> {
    let lower = lowercase(without_marks(nfd(s)));
    joined_words(lower, lower.len() as int)
}

/// Makes a text ready for matching.
pub fn normalize_string(s: &str) -> (text: String)
    ensures
        text@ == normalized(s@),
{
    let decomposed = nfd_chars(s);
    let mut kept = String::new();
    let mut i: usize = 0;
    assert(decomposed@.take(0) =~= Seq::empty());
    while i < decomposed.len()
        invariant
            i <= decomposed.len(),
            kept@ == without_marks(decomposed@.take(i as int)),
        decreases decomposed.len() - i,
    {
        let c = decomposed[i];
        let code = c as u32;
        proof {
            let keep = |c: char| !is_ascii_punctuation(c) && !is_combining_mark(c);
            assert(decomposed@.take(i + 1).drop_last() =~= decomposed@.take(i as int));
            reveal(Seq::filter);
        }
        let punctuation = (33 <= code && code <= 47) || (58 <= code && code <= 64) || (91
            <= code && code <= 96) || (123 <= code && code <= 126);
        let mark = 0x300 <= code && code <= 0x36f;
        if !punctuation && !mark {
            push_char(&mut kept, c);
        }
        i += 1;
    }
    assert(decomposed@.take(decomposed.len() as int) =~= decomposed@);
    let lower = to_lowercase(kept.as_str());
    let chars = chars_of(lower.as_str());
    let mut text = String::new();
    let mut k: usize = 0;
    while k < chars.len()
        invariant
            k <= chars.len(),
            text@ == joined_words(chars@, k as int),
        decreases chars.len() - k,
    {
        let c = chars[k];
        if !char_is_whitespace(c) {
            if k >= 1 && char_is_whitespace(chars[k - 1]) && text.as_str().unicode_len() > 0 {
                push_char(&mut text, ' ');
            }
            push_char(&mut text, c);
        }
        k += 1;
    }
    text
}

/// The level of the Japanese Language Proficiency Test that a message asks
/// about, from its level or a word for it; the easiest level named wins.
pub open spec fn jlpt_level(text: Seq<char>) -> Option<Seq<char>> {
    let lower = lowercase(text);
    if contains_text(lower, "n5"@) || contains_text(lower, "pemula"@) || contains_text(
        lower,
        "beginner"@,
    ) {
        Some("N5 (beginner)"@)
    } else if contains_text(lower, "n4"@) || contains_text(lower, "elementary"@) {
        Some("N4 (elementary)"@)
    } else if contains_text(lower, "n3"@) || contains_text(lower, "menengah"@) || contains_text(
        lower,
        "intermediate"@,
    ) {
        Some("N3 (intermediate)"@)
    } else if contains_text(lower, "n2"@) || contains_text(lower, "upper"@) {
        Some("N2 (upper intermediate)"@)
    } else if contains_text(lower, "n1"@) || contains_text(lower, "advanced"@) || contains_text(
        lower,
        "mahir"@,
    ) {
        Some("N1 (advanced)"@)
    } else {
        None
    }
}

/// Finds the level of the Japanese Language Proficiency Test that a message
/// asks about.
pub fn detect_jlpt_level(text: &str) -> (level: Option<&'static str>)
    ensures
        match level {
            Some(name) => jlpt_level(text@) == Some(name@),
            None => jlpt_level(text@) is None,
        },
{
    let lower = to_lowercase(text);
    let lower = lower.as_str();
    if contains(lower, "n5") || contains(lower, "pemula") || contains(lower, "beginner") {
        Some("N5 (beginner)")
    } else if contains(lower, "n4") || contains(lower, "elementary") {
        Some("N4 (elementary)")
    } else if contains(lower, "n3") || contains(lower, "menengah") || contains(
        lower,
        "intermediate",
    ) {
        Some("N3 (intermediate)")
    } else if contains(lower, "n2") || contains(lower, "upper") {
        Some("N2 (upper intermediate)")
    } else if contains(lower, "n1") || contains(lower, "advanced") || contains(lower, "mahir") {
        Some("N1 (advanced)")
    } else {
        None
    }
}

/// The words that name a genre, in the order they are tried.
pub open spec fn genre_keywords() -> Seq<&'static str> {
    seq![
        "romance",
        "romantic",
        "cinta",
        "yuri",
        "yaoi",
        "isekai",
        "fantasy",
        "fantasi",
        "sci-fi",
        "scifi",
        "action",
        "aksi",
        "adventure",
        "petualangan",
        "comedy",
        "komedi",
        "horror",
        "horor",
        "mystery",
        "misteri",
        "slice of life",
        "drama",
        "psychological",
        "supernatural",
    ]
}

/// The genre that each of the genre keywords names, in the same order.
pub open spec fn genre_names() -> Seq<&'static str> {
    seq![
        "romance",
        "romance",
        "romance",
        "yuri",
        "yaoi",
        "isekai",
        "fantasy",
        "fantasy",
        "sci-fi",
        "sci-fi",
        "action",
        "action",
        "adventure",
        "adventure",
        "comedy",
        "comedy",
        "horror",
        "horror",
        "mystery",
        "mystery",
        "slice of life",
        "drama",
        "psychological",
        "supernatural",
    ]
}

/// The position of the first of `keywords`, from `from` on, that `text`
/// holds.
pub open spec fn first_keyword(text: Seq<char>, keywords: Seq<&'static str>, from: int) -> Option<
    int,
>
    decreases keywords.len() - from,
{
    if from < 0 || from >= keywords.len() {
        None
    } else if contains_text(text, keywords[from]@) {
        Some(from)
    } else {
        first_keyword(text, keywords, from + 1)
    }
}

/// The genre that a message asks about: that of the first genre keyword
/// which the message holds in lower case.
pub open spec fn genre_of(text: Seq<char>) -> Option<Seq<char>> {
    match first_keyword(lowercase(text), genre_keywords(), 0) {
        Some(i) => Some(genre_names()[i]@),
        None => None,
    }
}

/// Finds the genre that a message asks about.
pub fn detect_genre(text: &str) -> (genre: Option<&'static str>)
    ensures
        match genre {
            Some(name) => genre_of(text@) == Some(name@),
            None => genre_of(text@) is None,
        },
{
    let keywords = [
        "romance",
        "romantic",
        "cinta",
        "yuri",
        "yaoi",
        "isekai",
        "fantasy",
        "fantasi",
        "sci-fi",
        "scifi",
        "action",
        "aksi",
        "adventure",
        "petualangan",
        "comedy",
        "komedi",
        "horror",
        "horor",
        "mystery",
        "misteri",
        "slice of life",
        "drama",
        "psychological",
        "supernatural",
    ];
    let genres = [
        "romance",
        "romance",
        "romance",
        "yuri",
        "yaoi",
        "isekai",
        "fantasy",
        "fantasy",
        "sci-fi",
        "sci-fi",
        "action",
        "action",
        "adventure",
        "adventure",
        "comedy",
        "comedy",
        "horror",
        "horror",
        "mystery",
        "mystery",
        "slice of life",
        "drama",
        "psychological",
        "supernatural",
    ];
    assert(keywords@ =~= genre_keywords());
    assert(genres@ =~= genre_names());
    let lower = to_lowercase(text);
    let mut i: usize = 0;
    while i < 24
        invariant
            i <= 24,
            keywords@ == genre_keywords(),
            genres@ == genre_names(),
            lower@ == lowercase(text@),
            first_keyword(lower@, genre_keywords(), 0) == first_keyword(
                lower@,
                genre_keywords(),
                i as int,
            ),
        decreases 24 - i,
    {
        if contains(lower.as_str(), keywords[i]) {
            return Some(genres[i]);
        }
        i += 1;
    }
    None
}

/// What is said where the catalogue is empty.
pub open spec fn no_catalogue_text() -> Seq<char> {
    "Maaf, aku belum menemukan daftar novelnya... Sepertinya ada yang salah."@
}

/// One line of a list of novels: its number, the title as a link, and the
/// format and size below it.
pub open spec fn novel_line(number: nat, novel: NovelModel) -> Seq<char> {
    digits(number) + ". ["@ + novel.title + "]("@ + novel.url + ")\n   Format: "@ + novel.format
        + " | Size: "@ + novel.size + "\n\n"@
}

/// The lines of the first `upto` picked novels, numbered from 1.
pub open spec fn novel_lines(novels: Seq<Novel>, picks: Seq<usize>, upto: int) -> Seq<char>
    decreases upto,
{
    if upto <= 0 {
        Seq::empty()
    } else {
        novel_lines(novels, picks, upto - 1) + novel_line(
            upto as nat,
            novels[picks[upto - 1] as int]@,
        )
    }
}

/// A list of picked novels under a heading, with good wishes at the end.
pub open spec fn novel_list_text(heading: Seq<char>, novels: Seq<Novel>, picks: Seq<usize>) -> Seq<
    char,
> {
    heading + novel_lines(novels, picks, picks.len() as int)
        + "Semoga suka ya! Jangan lupa baca~"@
}

/// Writes the list of the novels at the positions `picks` under `heading`.
pub fn format_novel_list(heading: &str, novels: &Vec<Novel>, picks: &Vec<usize>) -> (text: String)
    requires
        forall|i: int| 0 <= i < picks.len() ==> picks[i] < novels.len(),
    ensures
        text@ == novel_list_text(heading@, novels@, picks@),
{
    let mut text = heading.to_string();
    let mut i: usize = 0;
    while i < picks.len()
        invariant
            i <= picks.len(),
            forall|k: int| 0 <= k < picks.len() ==> picks[k] < novels.len(),
            text@ == heading@ + novel_lines(novels@, picks@, i as int),
        decreases picks.len() - i,
    {
        let novel = &novels[picks[i]];
        let ghost before = text@;
        let number = u64_to_decimal(i as u64 + 1);
        text.append(number.as_str());
        text.append(". [");
        text.append(novel.title.as_str());
        text.append("](");
        text.append(novel.url.as_str());
        text.append(")\n   Format: ");
        text.append(novel.format.as_str());
        text.append(" | Size: ");
        text.append(novel.size.as_str());
        text.append("\n\n");
        assert(text@ =~= before + novel_line((i + 1) as nat, novel@));
        assert(text@ =~= heading@ + novel_lines(novels@, picks@, i + 1));
        i += 1;
    }
    text.append("Semoga suka ya! Jangan lupa baca~");
    text
}

/// Whether `picks` could be a random choice of up to `count` out of `len`
/// items: as many as asked for, or all where fewer are there, each a valid
/// position, none twice.
pub open spec fn is_choice(picks: Seq<usize>, len: usize, count: usize) -> bool {
    &&& picks.len() == if count <= len {
        count
    } else {
        len
    }
    &&& forall|i: int| 0 <= i < picks.len() ==> picks[i] < len
    &&& forall|i: int, j: int| 0 <= i < j < picks.len() ==> picks[i] != picks[j]
}

/// Picks `count` positions out of `len` at random with
/// `IndexedRandom::choose_multiple` of the crate `rand`, over the positions
/// `0..len`: distinct positions in random order, and all positions where
/// `count` exceeds `len`. Which ones come out is up to chance.
#[verifier::external_body]
fn choose_positions(len: usize, count: usize) -> (picks: Vec<usize>)
    ensures
        is_choice(picks@, len, count),
{
    let positions: Vec<usize> = (0..len).collect();
    let mut rng = rand::rng();
    rand::seq::IndexedRandom::choose_multiple(positions.as_slice(), &mut rng, count).copied().collect()
}

/// Whether `text` is a random recommendation of up to `count` novels.
pub open spec fn is_recommendation(text: Seq<char>, novels: Seq<Novel>, count: usize) -> bool {
    if novels.len() == 0 {
        text == no_catalogue_text()
    } else {
        exists|picks: Seq<usize>|
            is_choice(picks, novels.len() as usize, count) && text == novel_list_text(
                "**Rekomendasi Novel untukmu:**\n\n"@,
                novels,
                picks,
            )
    }
}

/// Recommends up to `count` novels picked at random from the catalogue, or
/// apologises where the catalogue is empty.
pub fn recommend_novels(novels: &Vec<Novel>, count: usize) -> (text: String)
    ensures
        is_recommendation(text@, novels@, count),
{
    if novels.len() == 0 {
        return "Maaf, aku belum menemukan daftar novelnya... Sepertinya ada yang salah.".to_string();
    }
    let picks = choose_positions(novels.len(), count);
    let text = format_novel_list("**Rekomendasi Novel untukmu:**\n\n", novels, &picks);
    assert(is_choice(picks@, novels@.len() as usize, count) && text@ == novel_list_text(
        "**Rekomendasi Novel untukmu:**\n\n"@,
        novels@,
        picks@,
    ));
    text
}

/// The number of characters at the start of `s` that are among `set`.
pub open spec fn lead_len(s: Seq<char>, set: Seq<char>) -> int
    decreases s.len(),
{
    if s.len() > 0 && set.contains(s[0]) {
        1 + lead_len(s.drop_first(), set)
    } else {
        0
    }
}

/// The length of `s` without the characters at its end that are among
/// `set`.
pub open spec fn tail_end(s: Seq<char>, set: Seq<char>) -> int
    decreases s.len(),
{
    if s.len() > 0 && set.contains(s.last()) {
        tail_end(s.drop_last(), set)
    } else {
        s.len() as int
    }
}

/// The marks that may stand before a suggested title: hyphen, full stop
/// and space.
pub open spec fn list_marks() -> Seq<char> {
    seq!['-', '.', ' ']
}

/// The marks that may stand around a suggested title: quotation marks and
/// corner brackets.
pub open spec fn quote_marks() -> Seq<char> {
    seq!['"', '\'', '「', '」']
}

/// The title on one line of the suggestions: the line without the white
/// space around it, without list marks before it and without quotation
/// marks around what is left. `None` for a line that is empty or begins
/// with a digit.
pub open spec fn suggested_title(line: Seq<char>) -> Option<Seq<char>> {
    let text = trimmed(line);
    if text.len() == 0 || digit_value(text[0]) is Some {
        None
    } else {
        let unmarked = text.skip(lead_len(text, list_marks()));
        let unquoted = unmarked.skip(lead_len(unmarked, quote_marks()));
        Some(unquoted.take(tail_end(unquoted, quote_marks())))
    }
}

/// The titles on the first `upto` lines, in order.
pub open spec fn titles_on(lines: Seq<Seq<char>>, upto: int) -> Seq<Seq<char>>
    decreases upto,
{
    if upto <= 0 {
        Seq::empty()
    } else {
        match suggested_title(lines[upto - 1]) {
            Some(title) => titles_on(lines, upto - 1).push(title),
            None => titles_on(lines, upto - 1),
        }
    }
}

/// The titles that a reply suggests, one to a line.
pub open spec fn suggested_titles(reply: Seq<char>) -> Seq<Seq<char>> {
    titles_on(lines_of(reply), lines_of(reply).len() as int)
}

/// The titles on lines depend only on the lines read so far.
pub proof fn lemma_titles_prefix(a: Seq<Seq<char>>, b: Seq<Seq<char>>, upto: int)
    requires
        0 <= upto <= a.len(),
    ensures
        titles_on(a + b, upto) == titles_on(a, upto),
    decreases upto,
{
    if upto > 0 {
        lemma_titles_prefix(a, b, upto - 1);
        assert((a + b)[upto - 1] == a[upto - 1]);
    }
}

/// The character sequences of a vector of strings.
pub open spec fn strings_model(strings: Seq<String>) -> Seq<Seq<char>> {
    Seq::new(strings.len(), |i: int| strings[i]@)
}

/// The bounds of what is left of the part of `chars` from `from` to `to`
/// when the characters of `set` at its start are set aside.
fn skip_leading(chars: &Vec<char>, from: usize, to: usize, set: &Vec<char>) -> (start: usize)
    requires
        from <= to <= chars.len(),
    ensures
        from <= start <= to,
        start - from == lead_len(chars@.subrange(from as int, to as int), set@),
{
    let ghost part = chars@.subrange(from as int, to as int);
    let mut a: usize = from;
    assert(part.skip(0) =~= part);
    while a < to && is_one_of(chars[a], set)
        invariant
            from <= a <= to <= chars.len(),
            part == chars@.subrange(from as int, to as int),
            lead_len(part, set@) == (a - from) + lead_len(part.skip(a - from), set@),
        decreases to - a,
    {
        proof {
            let rest = part.skip(a - from);
            assert(rest[0] == chars@[a as int]);
            assert(rest.drop_first() =~= part.skip(a - from + 1));
        }
        a += 1;
    }
    proof {
        let rest = part.skip(a - from);
        if a < to {
            assert(rest[0] == chars@[a as int]);
        }
    }
    a
}

/// Where the part of `chars` from `from` to `to` ends when the characters
/// of `set` at its end are set aside.
fn skip_trailing(chars: &Vec<char>, from: usize, to: usize, set: &Vec<char>) -> (end: usize)
    requires
        from <= to <= chars.len(),
    ensures
        from <= end <= to,
        end - from == tail_end(chars@.subrange(from as int, to as int), set@),
{
    let ghost part = chars@.subrange(from as int, to as int);
    let mut b: usize = to;
    assert(part.take(to - from) =~= part);
    while b > from && is_one_of(chars[b - 1], set)
        invariant
            from <= b <= to <= chars.len(),
            part == chars@.subrange(from as int, to as int),
            tail_end(part, set@) == tail_end(part.take(b - from), set@),
        decreases b,
    {
        proof {
            let prefix = part.take(b - from);
            assert(prefix.last() == chars@[b - 1]);
            assert(prefix.drop_last() =~= part.take(b - from - 1));
        }
        b -= 1;
    }
    proof {
        let prefix = part.take(b - from);
        if b > from {
            assert(prefix.last() == chars@[b - 1]);
        }
    }
    b
}

/// Reads the title on the line of `chars` from `from` to `to`.
fn read_suggested_title(chars: &Vec<char>, from: usize, to: usize) -> (title: Option<String>)
    requires
        from <= to <= chars.len(),
    ensures
        match title {
            Some(t) => suggested_title(chars@.subrange(from as int, to as int)) == Some(t@),
            None => suggested_title(chars@.subrange(from as int, to as int)) is None,
        },
{
    let (a, b) = trim_bounds(chars, from, to);
    let ghost text = chars@.subrange(a as int, b as int);
    if a >= b {
        return None;
    }
    assert(text[0] == chars@[a as int]);
    let c = chars[a];
    if c == '0' || c == '1' || c == '2' || c == '3' || c == '4' || c == '5' || c == '6' || c
        == '7' || c == '8' || c == '9' {
        return None;
    }
    let mut marks: Vec<char> = Vec::new();
    marks.push('-');
    marks.push('.');
    marks.push(' ');
    assert(marks@ =~= list_marks());
    let mut quotes: Vec<char> = Vec::new();
    quotes.push('"');
    quotes.push('\'');
    quotes.push('「');
    quotes.push('」');
    assert(quotes@ =~= quote_marks());
    let start = skip_leading(chars, a, b, &marks);
    assert(chars@.subrange(start as int, b as int) =~= text.skip(start - a));
    let open = skip_leading(chars, start, b, &quotes);
    assert(chars@.subrange(open as int, b as int) =~= text.skip(start - a).skip(open - start));
    let close = skip_trailing(chars, open, b, &quotes);
    assert(chars@.subrange(open as int, close as int) =~= chars@.subrange(
        open as int,
        b as int,
    ).take(close - open));
    Some(string_from_range(chars, open, close))
}

/// Reads the titles that a reply suggests.
pub fn parse_suggested_titles(reply: &str) -> (titles: Vec<String>)
    ensures
        strings_model(titles@) == suggested_titles(reply@),
{
    let chars = chars_of(reply);
    let n = chars.len();
    let mut titles: Vec<String> = Vec::new();
    let ghost mut done: Seq<Seq<char>> = Seq::empty();
    let mut pos: usize = 0;
    proof {
        assert(reply@.skip(0) =~= reply@);
        assert(done + lines_of(reply@) =~= lines_of(reply@));
        assert(strings_model(titles@) =~= Seq::<Seq<char>>::empty());
    }
    while pos < n
        invariant
            pos <= n,
            n == chars.len(),
            chars@ == reply@,
            lines_of(reply@) == done + lines_of(reply@.skip(pos as int)),
            strings_model(titles@) == titles_on(done, done.len() as int),
        decreases n - pos,
    {
        let (stop, next) = next_line(&chars, pos);
        let ghost line = chars@.subrange(pos as int, stop as int);
        let ghost before_done = done;
        let ghost before = strings_model(titles@);
        proof {
            done = done.push(line);
            assert(before_done + (seq![line] + lines_of(reply@.skip(next as int))) =~= done
                + lines_of(reply@.skip(next as int)));
            lemma_titles_prefix(before_done, seq![line], before_done.len() as int);
            assert(before_done + seq![line] =~= done);
            assert(done[done.len() - 1] == line);
        }
        match read_suggested_title(&chars, pos, stop) {
            Some(title) => {
                let ghost added = title@;
                titles.push(title);
                assert(strings_model(titles@) =~= before.push(added));
            },
            None => {},
        }
        pos = next;
    }
    proof {
        assert(reply@.skip(n as int).len() == 0);
        assert(done + lines_of(reply@.skip(n as int)) =~= done);
    }
    titles
}

/// Whether a title goes with one of the suggestions: one of them holds the
/// title or is held by it.
pub open spec fn goes_with(title: Seq<char>, suggestions: Seq<Seq<char>>) -> bool {
    exists|i: int|
        0 <= i < suggestions.len() && (contains_text(title, #[trigger] suggestions[i])
            || contains_text(suggestions[i], title))
}

/// Whether a title goes with one of the suggestions.
fn matches_suggestion(title: &str, suggestions: &Vec<String>) -> (found: bool)
    ensures
        found == goes_with(title@, strings_model(suggestions@)),
{
    let mut i: usize = 0;
    while i < suggestions.len()
        invariant
            i <= suggestions.len(),
            forall|k: int|
                0 <= k < i ==> !(contains_text(title@, #[trigger] strings_model(suggestions@)[k])
                    || contains_text(strings_model(suggestions@)[k], title@)),
        decreases suggestions.len() - i,
    {
        assert(strings_model(suggestions@)[i as int] == suggestions@[i as int]@);
        if contains(title, suggestions[i].as_str()) || contains(suggestions[i].as_str(), title) {
            return true;
        }
        i += 1;
    }
    false
}

/// The most novels that one answer lists.
pub const MAX_RESULTS: usize = 10;

/// The positions of the first novels, at most ten and among the first
/// `upto`, for which `wanted` holds.
pub open spec fn first_wanted(wanted: Seq<bool>, upto: int) -> Seq<usize>
    decreases upto,
{
    if upto <= 0 {
        Seq::empty()
    } else {
        let found = first_wanted(wanted, upto - 1);
        if found.len() < MAX_RESULTS && wanted[upto - 1] {
            found.push((upto - 1) as usize)
        } else {
            found
        }
    }
}

/// For each novel, whether its normalized title goes with one of the
/// normalized suggestions.
pub open spec fn suggested_flags(novels: Seq<Novel>, suggestions: Seq<Seq<char>>) -> Seq<bool> {
    Seq::new(
        novels.len(),
        |i: int|
            goes_with(
                normalized(novels[i].title@),
                Seq::new(suggestions.len(), |k: int| normalized(suggestions[k])),
            ),
    )
}

/// For each novel, whether its normalized title holds the normalized
/// query.
pub open spec fn query_flags(novels: Seq<Novel>, query: Seq<char>) -> Seq<bool> {
    Seq::new(novels.len(), |i: int| contains_text(normalized(novels[i].title@), normalized(query)))
}

/// The novels to list for a search: the first ten that go with a
/// suggestion, and where there is none, the first ten whose title holds the
/// query.
pub open spec fn search_results(novels: Seq<Novel>, query: Seq<char>, suggestions: Seq<Seq<char>>) -> Seq<
    usize,
> {
    let by_suggestion = first_wanted(suggested_flags(novels, suggestions), novels.len() as int);
    if by_suggestion.len() > 0 {
        by_suggestion
    } else {
        first_wanted(query_flags(novels, query), novels.len() as int)
    }
}

/// Finds the novels to list for a search.
pub fn find_novels(novels: &Vec<Novel>, query: &str, suggestions: &Vec<String>) -> (found: Vec<
    usize,
>)
    ensures
        found@ == search_results(novels@, query@, strings_model(suggestions@)),
        forall|i: int| 0 <= i < found.len() ==> found[i] < novels.len(),
{
    let mut normalized_suggestions: Vec<String> = Vec::new();
    let mut k: usize = 0;
    while k < suggestions.len()
        invariant
            k <= suggestions.len(),
            normalized_suggestions.len() == k,
            forall|j: int|
                0 <= j < k ==> normalized_suggestions@[j]@ == normalized(suggestions@[j]@),
        decreases suggestions.len() - k,
    {
        normalized_suggestions.push(normalize_string(suggestions[k].as_str()));
        k += 1;
    }
    let ghost wanted_titles = Seq::new(
        strings_model(suggestions@).len(),
        |k: int| normalized(strings_model(suggestions@)[k]),
    );
    assert(strings_model(normalized_suggestions@) =~= wanted_titles);
    let ghost flags = suggested_flags(novels@, strings_model(suggestions@));
    let mut found: Vec<usize> = Vec::new();
    let mut i: usize = 0;
    while i < novels.len()
        invariant
            i <= novels.len(),
            strings_model(normalized_suggestions@) == wanted_titles,
            flags == suggested_flags(novels@, strings_model(suggestions@)),
            wanted_titles == Seq::new(
                strings_model(suggestions@).len(),
                |k: int| normalized(strings_model(suggestions@)[k]),
            ),
            found@ == first_wanted(flags, i as int),
            forall|j: int| 0 <= j < found.len() ==> found[j] < novels.len(),
        decreases novels.len() - i,
    {
        let title = normalize_string(novels[i].title.as_str());
        let wanted = matches_suggestion(title.as_str(), &normalized_suggestions);
        assert(wanted == flags[i as int]);
        if found.len() < MAX_RESULTS && wanted {
            found.push(i);
        }
        i += 1;
    }
    if found.len() > 0 {
        return found;
    }
    let wanted_query = normalize_string(query);
    let ghost by_query = query_flags(novels@, query@);
    let mut found: Vec<usize> = Vec::new();
    let mut i: usize = 0;
    while i < novels.len()
        invariant
            i <= novels.len(),
            wanted_query@ == normalized(query@),
            by_query == query_flags(novels@, query@),
            found@ == first_wanted(by_query, i as int),
            forall|j: int| 0 <= j < found.len() ==> found[j] < novels.len(),
        decreases novels.len() - i,
    {
        let title = normalize_string(novels[i].title.as_str());
        let wanted = contains(title.as_str(), wanted_query.as_str());
        assert(wanted == by_query[i as int]);
        if found.len() < MAX_RESULTS && wanted {
            found.push(i);
        }
        i += 1;
    }
    found
}

/// What a search asks the language model: titles for a level where the
/// query names one, else titles of a genre where it names one, else the
/// Japanese title of the work that the query names.
pub open spec fn search_prompt(query: Seq<char>) -> Seq<char> {
    match jlpt_level(query) {
        Some(level) =>
            "Suggest 5 popular Japanese light novel titles that are appropriate for "@ + level
                + " level learners. Only respond with the titles in Japanese, one per line, no additional text or numbering."@,
        None => match genre_of(query) {
            Some(genre) => "Suggest 5 popular Japanese light novel titles in the "@ + genre
                + " genre. Only respond with the titles in Japanese, one per line, no additional text or numbering."@,
            None =>
                "What is the original Japanese title for the light novel or anime '"@ + query
                    + "'? Only respond with the Japanese title, no additional text."@,
        },
    }
}

/// The heading of the answer to a search.
pub open spec fn search_heading(query: Seq<char>) -> Seq<char> {
    match jlpt_level(query) {
        Some(level) => "**Rekomendasi Novel untuk Level "@ + level + ":**\n\n"@,
        None => match genre_of(query) {
            Some(genre) => "**Rekomendasi Novel Genre "@ + genre + ":**\n\n"@,
            None => "**Hasil Pencarian '"@ + query + "':**\n\n"@,
        },
    }
}

/// The first step of a search.
pub enum SearchStep {
    /// The search is over: this is the answer.
    Answer(String),
    /// The language model is to be asked this.
    Ask(String),
}

/// Begins a search for novels: with an empty catalogue the search is over
/// at once, else the language model is asked for suggestions.
pub fn smart_novel_search(novels: &Vec<Novel>, query: &str) -> (step: SearchStep)
    ensures
        novels.len() == 0 ==> (step matches SearchStep::Answer(text) && text@
            == "Maaf, database novel belum tersedia."@),
        novels.len() > 0 ==> (step matches SearchStep::Ask(prompt) && prompt@ == search_prompt(
            query@,
        )),
{
    if novels.len() == 0 {
        return SearchStep::Answer("Maaf, database novel belum tersedia.".to_string());
    }
    let prompt = match detect_jlpt_level(query) {
        Some(level) => {
            let mut prompt = String::from_str(
                "Suggest 5 popular Japanese light novel titles that are appropriate for ",
            );
            prompt.append(level);
            prompt.append(
                " level learners. Only respond with the titles in Japanese, one per line, no additional text or numbering.",
            );
            prompt
        },
        None => match detect_genre(query) {
            Some(genre) => {
                let mut prompt = String::from_str(
                    "Suggest 5 popular Japanese light novel titles in the ",
                );
                prompt.append(genre);
                prompt.append(
                    " genre. Only respond with the titles in Japanese, one per line, no additional text or numbering.",
                );
                prompt
            },
            None => {
                let mut prompt = String::from_str(
                    "What is the original Japanese title for the light novel or anime '",
                );
                prompt.append(query);
                prompt.append("'? Only respond with the Japanese title, no additional text.");
                prompt
            },
        },
    };
    SearchStep::Ask(prompt)
}

/// Writes the heading of the answer to a search.
fn write_search_heading(query: &str) -> (heading: String)
    ensures
        heading@ == search_heading(query@),
{
    match detect_jlpt_level(query) {
        Some(level) => {
            let mut heading = String::from_str("**Rekomendasi Novel untuk Level ");
            heading.append(level);
            heading.append(":**\n\n");
            heading
        },
        None => match detect_genre(query) {
            Some(genre) => {
                let mut heading = String::from_str("**Rekomendasi Novel Genre ");
                heading.append(genre);
                heading.append(":**\n\n");
                heading
            },
            None => {
                let mut heading = String::from_str("**Hasil Pencarian '");
                heading.append(query);
                heading.append("':**\n\n");
                heading
            },
        },
    }
}

/// What is said where a search finds nothing, before the random
/// recommendation.
pub open spec fn nothing_found_text(query: Seq<char>) -> Seq<char> {
    "Tidak ada novel yang cocok dengan pencarian '"@ + query + "'. Berikut rekomendasi acak:\n\n"@
}

/// Whether `answer` ends a search rightly, given what the language model
/// replied.
pub open spec fn is_search_answer(
    answer: Seq<char>,
    novels: Seq<Novel>,
    query: Seq<char>,
    reply: Option<Seq<char>>,
) -> bool {
    match reply {
        None => is_recommendation(answer, novels, 5),
        Some(text) => if search_results(novels, query, suggested_titles(text)).len() > 0 {
            answer == novel_list_text(
                search_heading(query),
                novels,
                search_results(novels, query, suggested_titles(text)),
            )
        } else {
            exists|fallback: Seq<char>|
                is_recommendation(fallback, novels, 5) && answer == nothing_found_text(query)
                    + fallback
        },
    }
}

/// Ends a search for novels with what the language model replied, `None`
/// where it could not be asked. Without a reply the answer is a random
/// recommendation of five novels. With one, the answer lists the novels
/// that go with the suggested titles or, failing those, with the query; and
/// where nothing is found it says so and recommends five novels at random.
pub fn finish_novel_search(novels: &Vec<Novel>, query: &str, reply: Option<&str>) -> (answer:
    String)
    ensures
        is_search_answer(
            answer@,
            novels@,
            query@,
            match reply {
                Some(text) => Some(text@),
                None => None,
            },
        ),
{
    match reply {
        None => recommend_novels(novels, 5),
        Some(reply) => {
            let suggestions = parse_suggested_titles(reply);
            let found = find_novels(novels, query, &suggestions);
            if found.len() > 0 {
                let heading = write_search_heading(query);
                format_novel_list(heading.as_str(), novels, &found)
            } else {
                let fallback = recommend_novels(novels, 5);
                let mut answer = String::from_str("Tidak ada novel yang cocok dengan pencarian '");
                answer.append(query);
                answer.append("'. Berikut rekomendasi acak:\n\n");
                answer.append(fallback.as_str());
                assert(is_recommendation(fallback@, novels@, 5) && answer@ == nothing_found_text(
                    query@,
                ) + fallback@);
                answer
            }
        },
    }
}

} // verus!
