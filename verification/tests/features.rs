use yuyuko::api::llm::{
    build_image_prompt, select_image_parts, ImageGenPart, ImageInlineData,
};
use yuyuko::commands::export::get_unit_for_type;
use yuyuko::commands::immersion_helpers::{extract_meta_property, extract_page_title};
use yuyuko::commands::novel::truncate_title;
use yuyuko::commands::react::parse_message_link;
use yuyuko::features::ayumi::{
    contains_any, detect_avatar_question, detect_image_generation, detect_novel_request,
};
use yuyuko::features::novel_recommender::{
    detect_genre, detect_jlpt_level, format_novel_list, normalize_string, recommend_novels, Novel,
};
use yuyuko::features::role_rank::validate_command;

#[test]
fn requests_for_pictures() {
    assert!(detect_image_generation("Tolong BUATKAN GAMBAR kucing"));
    assert!(detect_image_generation("please draw a cat"));
    assert!(detect_image_generation("some pixel art please"));
    assert!(!detect_image_generation("hello there"));
    assert!(!detect_image_generation(""));
}

#[test]
fn questions_about_avatars() {
    assert!(detect_avatar_question("lihat Avatar saya dong"));
    assert!(detect_avatar_question("what is my PFP"));
    assert!(detect_avatar_question("apple"));
    assert!(!detect_avatar_question("hello there"));
}

#[test]
fn requests_for_novels() {
    assert!(detect_novel_request("Rekomendasi NOVEL dong"));
    assert!(detect_novel_request("any light novel?"));
    assert!(!detect_novel_request("a book please"));
}

#[test]
fn any_of_the_keywords() {
    assert!(contains_any("abc", &["x", "bc"]));
    assert!(!contains_any("abc", &["x", "cb"]));
    assert!(!contains_any("abc", &[]));
    assert!(contains_any("abc", &[""]));
}

#[test]
fn normalized_texts() {
    assert_eq!(normalize_string("  Hello,   World!  "), "hello world");
    assert_eq!(normalize_string("Café au lait"), "cafe au lait");
    assert_eq!(normalize_string("Re:Zero − Starting Life"), "rezero − starting life");
    assert_eq!(normalize_string("ÀÉÎÕÜ"), "aeiou");
    assert_eq!(normalize_string("a\t\nb"), "a b");
    assert_eq!(normalize_string("!!!"), "");
    assert_eq!(normalize_string(""), "");
    assert_eq!(normalize_string("ソードアート・オンライン"), "ソート\u{3099}アート・オンライン");
    assert_eq!(normalize_string("a - b"), "a b");
}

#[test]
fn levels_of_the_proficiency_test() {
    assert_eq!(detect_jlpt_level("novel untuk N5"), Some("N5 (beginner)"));
    assert_eq!(detect_jlpt_level("saya pemula"), Some("N5 (beginner)"));
    assert_eq!(detect_jlpt_level("elementary level"), Some("N4 (elementary)"));
    assert_eq!(detect_jlpt_level("tingkat menengah"), Some("N3 (intermediate)"));
    assert_eq!(detect_jlpt_level("upper intermediate"), Some("N3 (intermediate)"));
    assert_eq!(detect_jlpt_level("upper level"), Some("N2 (upper intermediate)"));
    assert_eq!(detect_jlpt_level("N1 please"), Some("N1 (advanced)"));
    assert_eq!(detect_jlpt_level("n1 or n5"), Some("N5 (beginner)"));
    assert_eq!(detect_jlpt_level("something else"), None);
}

#[test]
fn genres() {
    assert_eq!(detect_genre("a ROMANTIC story"), Some("romance"));
    assert_eq!(detect_genre("cerita cinta"), Some("romance"));
    assert_eq!(detect_genre("scifi novels"), Some("sci-fi"));
    assert_eq!(detect_genre("petualangan seru"), Some("adventure"));
    assert_eq!(detect_genre("slice of life"), Some("slice of life"));
    assert_eq!(detect_genre("supernatural horror"), Some("horror"));
    assert_eq!(detect_genre("fantasy isekai"), Some("isekai"));
    assert_eq!(detect_genre("cooking"), None);
}

fn novel(n: usize) -> Novel {
    Novel {
        id: n.to_string(),
        title: format!("Title {n}"),
        url: format!("https://example.com/{n}"),
        size: format!("{n} MB"),
        format: "epub".to_string(),
    }
}

#[test]
fn a_list_of_novels() {
    let novels = vec![novel(0), novel(1), novel(2)];
    assert_eq!(
        format_novel_list("**Found:**\n\n", &novels, &vec![2, 0]),
        "**Found:**\n\n\
         1. [Title 2](https://example.com/2)\n   Format: epub | Size: 2 MB\n\n\
         2. [Title 0](https://example.com/0)\n   Format: epub | Size: 0 MB\n\n\
         Semoga suka ya! Jangan lupa baca~"
    );
    assert_eq!(
        format_novel_list("H", &novels, &vec![]),
        "HSemoga suka ya! Jangan lupa baca~"
    );
}

#[test]
fn random_recommendations() {
    assert_eq!(
        recommend_novels(&vec![], 5),
        "Maaf, aku belum menemukan daftar novelnya... Sepertinya ada yang salah."
    );
    let novels: Vec<Novel> = (0..10).map(novel).collect();
    for count in [0usize, 1, 3, 10, 25] {
        let text = recommend_novels(&novels, count);
        assert!(text.starts_with("**Rekomendasi Novel untukmu:**\n\n"));
        assert!(text.ends_with("Semoga suka ya! Jangan lupa baca~"));
        let lines = text.matches("   Format: epub | Size: ").count();
        assert_eq!(lines, count.min(10));
        for n in 0..10 {
            assert!(text.matches(&format!("[Title {n}]")).count() <= 1);
        }
        for number in 1..=count.min(10) {
            assert!(text.contains(&format!("\n{number}. [Title ")));
        }
    }
    let all = recommend_novels(&novels, 10);
    for n in 0..10 {
        assert!(all.contains(&format!("[Title {n}](https://example.com/{n})")));
    }
}

#[test]
fn commands_are_compared_without_the_space_around_them() {
    assert!(validate_command("  k!quiz n5  ", "k!quiz n5"));
    assert!(validate_command("k!quiz n5", "\tk!quiz n5\n"));
    assert!(validate_command("", "   "));
    assert!(validate_command("\u{3000}a\u{3000}", "a"));
    assert!(!validate_command("k!quiz  n5", "k!quiz n5"));
    assert!(!validate_command("k!quiz n4", "k!quiz n5"));
    assert!(!validate_command("K!quiz n5", "k!quiz n5"));
}

#[test]
fn links_to_messages() {
    assert_eq!(
        parse_message_link("https://discord.com/channels/111/222/333"),
        Some((222, 333))
    );
    assert_eq!(parse_message_link("/channels/222/333"), Some((222, 333)));
    assert_eq!(parse_message_link("x/channels/+7/08"), Some((7, 8)));
    assert_eq!(
        parse_message_link("https://discord.com/channels/1/18446744073709551615/2"),
        Some((18446744073709551615, 2))
    );
    assert_eq!(
        parse_message_link("https://discord.com/channels/1/18446744073709551616/2"),
        None
    );
    assert_eq!(parse_message_link("https://discord.com/channels/111/222/333/"), None);
    assert_eq!(parse_message_link("https://discord.com/channels/111/abc/333"), None);
    assert_eq!(parse_message_link("https://discord.com/channels/111/222/-3"), None);
    assert_eq!(parse_message_link("https://discord.com/channel/111/222/333"), None);
    assert_eq!(parse_message_link("222/333"), None);
    assert_eq!(parse_message_link(""), None);
}

#[test]
fn titles_are_shortened_by_characters() {
    assert_eq!(truncate_title("short", 60), "short");
    assert_eq!(truncate_title("abcdefghij", 10), "abcdefghij");
    assert_eq!(truncate_title("abcdefghijk", 10), "abcdefg...");
    assert_eq!(truncate_title("ソードアート・オンライン", 8), "ソードアー...");
    assert_eq!(truncate_title("abcd", 3), "...");
    assert_eq!(truncate_title("", 0), "");
}

#[test]
fn units_of_an_export() {
    assert_eq!(get_unit_for_type("anime"), "episodes");
    assert_eq!(get_unit_for_type("manga"), "pages");
    assert_eq!(get_unit_for_type("visual_novel"), "characters");
    assert_eq!(get_unit_for_type("book"), "characters");
    assert_eq!(get_unit_for_type("reading"), "characters");
    assert_eq!(get_unit_for_type("reading_time"), "minutes");
    assert_eq!(get_unit_for_type("listening"), "minutes");
    assert_eq!(get_unit_for_type("all"), "units");
    assert_eq!(get_unit_for_type(""), "units");
}

#[test]
fn the_prompt_for_a_picture() {
    assert_eq!(
        build_image_prompt("  Buatkan Gambar kucing LUCU  "),
        "Create a high-quality, detailed anime style image of: kucing lucu. \
         Make it visually appealing, artistic, and well-composed."
    );
    assert_eq!(
        build_image_prompt("draw a drawbridge, create image"),
        "Create a high-quality, detailed anime style image of: a bridge,. \
         Make it visually appealing, artistic, and well-composed."
    );
    assert_eq!(
        build_image_prompt("buat gambargambarkan"),
        "Create a high-quality, detailed anime style image of: . \
         Make it visually appealing, artistic, and well-composed."
    );
}

fn part(text: Option<&str>, image: Option<(&str, &str)>) -> ImageGenPart {
    ImageGenPart {
        text: text.map(|t| t.to_string()),
        inline_data: image.map(|(mime_type, data)| ImageInlineData {
            mime_type: mime_type.to_string(),
            data: data.to_string(),
        }),
    }
}

#[test]
fn the_last_image_and_the_last_text_are_kept() {
    let parts = vec![
        part(Some("first"), None),
        part(None, Some(("image/png", "AAAA"))),
        part(None, Some(("text/plain", "BBBB"))),
        part(Some("second"), Some(("image/jpeg", "CCCC"))),
        part(None, Some(("audio/mp3", "DDDD"))),
    ];
    assert_eq!(select_image_parts(&parts), (Some(3), Some("second".to_string())));
    assert_eq!(select_image_parts(&parts[..3].to_vec()), (Some(1), Some("first".to_string())));
    assert_eq!(select_image_parts(&vec![]), (None, None));
    assert_eq!(
        select_image_parts(&vec![part(None, Some(("imag/png", "x")))]),
        (None, None)
    );
}

#[test]
fn titles_of_pages() {
    assert_eq!(
        extract_page_title("<html><head><title> Tom &amp; Jerry </title></head></html>"),
        Some("Tom & Jerry".to_string())
    );
    assert_eq!(extract_page_title("<title></title>"), Some(String::new()));
    assert_eq!(
        extract_page_title("<title>a</title><title>b</title>"),
        Some("a".to_string())
    );
    assert_eq!(
        extract_page_title(
            "<title>never closed <meta property=\"og:title\" content=\"Fallback &lt;3\">"
        ),
        Some("Fallback <3".to_string())
    );
    assert_eq!(
        extract_page_title("<meta property=\"og:title\" content=\"Only meta\"/>"),
        Some("Only meta".to_string())
    );
    assert_eq!(extract_page_title("<TITLE>upper</TITLE>"), None);
    assert_eq!(extract_page_title(""), None);
}

#[test]
fn contents_of_meta_tags() {
    let html = "<meta property=\"og:image\" content=\"https://x/y.png?a=1&amp;b=2\">";
    assert_eq!(
        extract_meta_property(html, "og:image"),
        Some("https://x/y.png?a=1&b=2".to_string())
    );
    assert_eq!(extract_meta_property(html, "og:title"), None);
    assert_eq!(extract_meta_property("<meta property=\"a\" content=\"open", "a"), None);
    assert_eq!(
        extract_meta_property("<meta property=\"a\" content=\"\">", "a"),
        Some(String::new())
    );
}

#[test]
fn a_message_that_fits_is_one_chunk() {
    assert_eq!(yuyuko::features::ayumi::smart_chunk_message("hello\nworld", 11), vec!["hello\nworld"]);
    assert_eq!(yuyuko::features::ayumi::smart_chunk_message("", 0), vec![""]);
    assert_eq!(yuyuko::features::ayumi::smart_chunk_message("a\n\n", 3), vec!["a\n\n"]);
}

#[test]
fn a_long_message_is_cut_at_line_ends() {
    let chunk = yuyuko::features::ayumi::smart_chunk_message;
    assert_eq!(chunk("aaaa\nbbbb\ncccc", 9), vec!["aaaa\nbbbb", "cccc"]);
    assert_eq!(chunk("aaaa\nbbbb\ncccc", 8), vec!["aaaa", "bbbb", "cccc"]);
    assert_eq!(chunk("aaaa\r\nbbbb\r\ncccc\r\n", 9), vec!["aaaa\nbbbb", "cccc"]);
    assert_eq!(chunk("aaaa\n\n\nbbbb", 6), vec!["aaaa\n\n", "bbbb"]);
    assert_eq!(chunk("aaaa\n\n\nbbbb", 4), vec!["aaaa", "bbbb"]);
    assert_eq!(chunk("aaaa\n\nbb", 7), vec!["aaaa\n", "bb"]);
    assert_eq!(chunk("aa\n\nbb", 5), vec!["aa\n", "bb"]);
    assert_eq!(chunk("a\rb\nc", 3), vec!["a\rb", "c"]);
}

#[test]
fn a_long_line_is_cut_between_words() {
    let chunk = yuyuko::features::ayumi::smart_chunk_message;
    assert_eq!(chunk("one two three four", 9), vec!["one two", "three", "four"]);
    assert_eq!(chunk("one two three four", 10), vec!["one two", "three four"]);
    assert_eq!(chunk("x\none   two\tthree\ny", 8), vec!["x", "one two", "three\ny"]);
    assert_eq!(chunk("abcdefghij kl", 4), vec!["abcdefghij", "kl"]);
    assert_eq!(chunk("          ", 4), Vec::<String>::new());
    assert_eq!(chunk("日本語 日本語 日本語", 18), vec!["日本語", "日本語", "日本語"]);
    assert_eq!(chunk("日本語 日本語 日本語", 19), vec!["日本語 日本語", "日本語"]);
}

#[test]
fn chunks_keep_within_the_limit() {
    let text = "Lorem ipsum dolor sit amet, consectetur adipiscing elit.\n".repeat(40);
    for max_len in [20usize, 57, 100, 500, 1950] {
        let chunks = yuyuko::features::ayumi::smart_chunk_message(&text, max_len);
        assert!(chunks.iter().all(|c| !c.is_empty() && c.len() <= max_len));
        let words: Vec<&str> = chunks.iter().flat_map(|c| c.split_whitespace()).collect();
        assert_eq!(words, text.split_whitespace().collect::<Vec<_>>());
    }
}
