use yuyuko::api::llm::ChatMessage;
use yuyuko::commands::afk::{afk_reason, AfkData, AfkUsers};
use yuyuko::features::ayumi::UserData;
use yuyuko::features::novel_recommender::{
    find_novels, finish_novel_search, parse_suggested_titles, smart_novel_search, Novel,
    SearchStep,
};
use yuyuko::utils::emojis::{emoji_page, emoji_page_count, emojis};

fn novel(title: &str) -> Novel {
    Novel {
        id: title.to_string(),
        title: title.to_string(),
        url: format!("https://example.com/{}", title.len()),
        size: "1 MB".to_string(),
        format: "epub".to_string(),
    }
}

fn catalogue() -> Vec<Novel> {
    vec![
        novel("ソードアート・オンライン 1"),
        novel("Re:ゼロから始める異世界生活"),
        novel("ソードアート・オンライン 2"),
        novel("キノの旅"),
    ]
}

#[test]
fn titles_are_read_line_by_line() {
    assert_eq!(
        parse_suggested_titles(
            "  「ソードアート・オンライン」  \n\n- \"キノの旅\"\n1. numbered\n.. 'x'\r\n-\nplain\n\"\"\n"
        ),
        vec!["ソードアート・オンライン", "キノの旅", "x", "", "plain", ""]
    );
    assert_eq!(parse_suggested_titles(""), Vec::<String>::new());
    assert_eq!(parse_suggested_titles("   \n\t\n"), Vec::<String>::new());
    assert_eq!(parse_suggested_titles("9 lives"), Vec::<String>::new());
    assert_eq!(parse_suggested_titles("a\"b\""), vec!["a\"b"]);
    assert_eq!(parse_suggested_titles("-- \"'「t」'\""), vec!["t"]);
}

#[test]
fn novels_are_found_by_suggestion_or_by_query() {
    let novels = catalogue();
    let by_suggestion = find_novels(&novels, "whatever", &vec!["ソードアート・オンライン".to_string()]);
    assert_eq!(by_suggestion, vec![0, 2]);
    let held_by_suggestion = find_novels(&novels, "whatever", &vec!["キノの旅 the beautiful world".to_string()]);
    assert_eq!(held_by_suggestion, vec![3]);
    let by_query = find_novels(&novels, "KINO の旅", &vec!["no such title".to_string()]);
    assert_eq!(by_query, Vec::<usize>::new());
    let by_query = find_novels(&novels, "ゼロから", &vec!["no such title".to_string()]);
    assert_eq!(by_query, vec![1]);
    assert_eq!(find_novels(&novels, "nothing", &vec![]), Vec::<usize>::new());
    assert_eq!(find_novels(&novels, "nothing", &vec![String::new()]), vec![0, 1, 2, 3]);
    let many: Vec<Novel> = (0..25).map(|i| novel(&format!("Book {i}"))).collect();
    assert_eq!(
        find_novels(&many, "x", &vec!["book".to_string()]),
        (0..10).collect::<Vec<usize>>()
    );
    assert_eq!(find_novels(&many, "book 2", &vec![]), vec![2, 20, 21, 22, 23, 24]);
}

#[test]
fn a_search_begins_with_a_question() {
    let novels = catalogue();
    match smart_novel_search(&vec![], "anything") {
        SearchStep::Answer(text) => assert_eq!(text, "Maaf, database novel belum tersedia."),
        SearchStep::Ask(_) => panic!("asked with an empty catalogue"),
    }
    let prompt_of = |query: &str| match smart_novel_search(&novels, query) {
        SearchStep::Ask(prompt) => prompt,
        SearchStep::Answer(text) => panic!("answered at once: {text}"),
    };
    assert_eq!(
        prompt_of("novel untuk N4"),
        "Suggest 5 popular Japanese light novel titles that are appropriate for N4 (elementary) \
         level learners. Only respond with the titles in Japanese, one per line, no additional \
         text or numbering."
    );
    assert_eq!(
        prompt_of("novel isekai"),
        "Suggest 5 popular Japanese light novel titles in the isekai genre. Only respond with \
         the titles in Japanese, one per line, no additional text or numbering."
    );
    assert_eq!(
        prompt_of("Sword Art Online"),
        "What is the original Japanese title for the light novel or anime 'Sword Art Online'? \
         Only respond with the Japanese title, no additional text."
    );
    assert!(prompt_of("isekai n5").contains("N5 (beginner)"));
}

#[test]
fn a_search_ends_with_a_list() {
    let novels = catalogue();
    assert_eq!(
        finish_novel_search(&novels, "Kino", Some("「キノの旅」")),
        "**Hasil Pencarian 'Kino':**\n\n\
         1. [キノの旅](https://example.com/12)\n   Format: epub | Size: 1 MB\n\n\
         Semoga suka ya! Jangan lupa baca~"
    );
    let by_level = finish_novel_search(&novels, "n5 please", Some("ソードアート・オンライン"));
    assert!(by_level.starts_with("**Rekomendasi Novel untuk Level N5 (beginner):**\n\n1. ["));
    assert!(by_level.contains("\n2. [ソードアート・オンライン 2]"));
    let by_genre = finish_novel_search(&novels, "isekai", Some("Re:ゼロから始める異世界生活"));
    assert!(by_genre.starts_with("**Rekomendasi Novel Genre isekai:**\n\n1. [Re:ゼロ"));
}

#[test]
fn a_search_without_result_recommends_at_random() {
    let novels = catalogue();
    let nothing = finish_novel_search(&novels, "zzz", Some("unknown title"));
    assert!(nothing.starts_with(
        "Tidak ada novel yang cocok dengan pencarian 'zzz'. Berikut rekomendasi acak:\n\n\
         **Rekomendasi Novel untukmu:**\n\n1. ["
    ));
    assert_eq!(nothing.matches("   Format: ").count(), 4);
    let unasked = finish_novel_search(&novels, "zzz", None);
    assert!(unasked.starts_with("**Rekomendasi Novel untukmu:**\n\n1. ["));
    assert_eq!(unasked.matches("   Format: ").count(), 4);
    assert_eq!(
        finish_novel_search(&vec![], "zzz", None),
        "Maaf, aku belum menemukan daftar novelnya... Sepertinya ada yang salah."
    );
}

fn note(name: &str, timestamp: u64) -> AfkData {
    AfkData {
        username: name.to_string(),
        reason: "lunch".to_string(),
        timestamp,
        avatar_url: format!("https://cdn.example/{name}.png"),
    }
}

#[test]
fn users_who_are_away() {
    let mut users = AfkUsers::new();
    assert!(!users.is_afk(1));
    assert_eq!(users.get_afk_data(1), None);
    assert_eq!(users.remove_afk(1), None);
    users.afk(1, note("a", 10));
    users.afk(2, note("b", 20));
    assert!(users.is_afk(1));
    assert_eq!(users.get_afk_data(2), Some(note("b", 20)));
    users.afk(1, note("a", 30));
    assert_eq!(users.get_afk_data(1), Some(note("a", 30)));
    assert_eq!(users.remove_afk(1), Some(note("a", 30)));
    assert!(!users.is_afk(1));
    assert!(users.is_afk(2));
    assert_eq!(note("a", 1).duplicate(), note("a", 1));
    assert_eq!(afk_reason(None), "AFK");
    assert_eq!(afk_reason(Some("brb".to_string())), "brb");
}

#[test]
fn a_user_is_called_by_the_nickname() {
    let with = UserData::new(7, "user", "Display", Some("Nick"), 1_700_000_000);
    assert_eq!(with.best_name, "Nick");
    assert_eq!(with.nickname.as_deref(), Some("Nick"));
    assert_eq!(with.interaction_count, 1);
    assert_eq!(with.last_interaction, 1_700_000_000);
    assert_eq!(with.conversation_history, Vec::<ChatMessage>::new());
    let without = UserData::new(7, "user", "Display", None, 0);
    assert_eq!(without.best_name, "Display");
    assert_eq!(without.nickname, None);
    assert_eq!(without.user_id, 7);
    assert_eq!(without.username, "user");
    assert_eq!(without.display_name, "Display");
}

#[test]
fn emojis_are_shown_page_by_page() {
    let all = emojis();
    assert_eq!(emoji_page_count(), 2);
    assert_eq!(emoji_page(0), all[..20].to_vec());
    assert_eq!(emoji_page(1), all[20..].to_vec());
    assert_eq!(emoji_page(2), vec![]);
    assert_eq!(emoji_page(usize::MAX), vec![]);
}
