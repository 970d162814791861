use yuyuko::utils::config::colors::{ERROR, IMMERSION, INFO, PRIMARY, SUCCESS, WARNING};
use yuyuko::utils::config::{
    get_media_label, get_unit, media_type_labels, unit_map, DAY_END_HOUR,
};
use yuyuko::utils::emojis::{emojis, get_emoji_by_id};

#[test]
fn test_media_labels() {
    assert_eq!(get_media_label("anime"), "Anime");
    assert_eq!(get_media_label("visual_novel"), "Visual Novel");
}

#[test]
fn test_units() {
    assert_eq!(get_unit("anime"), "episodes");
    assert_eq!(get_unit("manga"), "pages");
}

#[test]
fn every_media_label() {
    assert_eq!(get_media_label("manga"), "Manga");
    assert_eq!(get_media_label("book"), "Book");
    assert_eq!(get_media_label("reading_time"), "Reading Time");
    assert_eq!(get_media_label("listening"), "Listening");
    assert_eq!(get_media_label("reading"), "Reading");
    assert_eq!(get_media_label("all"), "All Media Types");
    assert_eq!(get_media_label("podcast"), "Unknown");
    assert_eq!(get_media_label(""), "Unknown");
    assert_eq!(get_media_label("Anime"), "Unknown");
}

#[test]
fn every_unit() {
    assert_eq!(get_unit("visual_novel"), "characters");
    assert_eq!(get_unit("book"), "pages");
    assert_eq!(get_unit("reading_time"), "minutes");
    assert_eq!(get_unit("listening"), "minutes");
    assert_eq!(get_unit("reading"), "characters");
    assert_eq!(get_unit("all"), "units");
    assert_eq!(get_unit("podcast"), "units");
}

#[test]
fn the_tables_agree_with_the_lookups() {
    let labels = media_type_labels();
    assert_eq!(labels.len(), 8);
    for (key, label) in &labels {
        assert_eq!(get_media_label(key), *label);
    }
    assert_eq!(labels[0], ("visual_novel", "Visual Novel"));
    assert_eq!(labels[7], ("all", "All Media Types"));
    let units = unit_map();
    assert_eq!(units.len(), 7);
    for (key, unit) in &units {
        assert_eq!(get_unit(key), *unit);
    }
    assert_eq!(units[2], ("anime", "episodes"));
}

#[test]
fn constants() {
    assert_eq!(DAY_END_HOUR, 2);
    assert_eq!(PRIMARY, 0x00bfff);
    assert_eq!(SUCCESS, 0x2ecc71);
    assert_eq!(ERROR, 0xff0000);
    assert_eq!(WARNING, 0xffa500);
    assert_eq!(INFO, 0x3498db);
    assert_eq!(IMMERSION, 0x00d4aa);
}

#[test]
fn emojis_are_found_by_id() {
    assert_eq!(emojis().len(), 21);
    assert_eq!(get_emoji_by_id("1384171532955422730").map(|e| e.name), Some("UmaruLaugh"));
    assert_eq!(get_emoji_by_id("1384852208746627112").map(|e| e.name), Some("hanyaCheer"));
    assert_eq!(get_emoji_by_id("1384852136218595418").map(|e| e.name), Some("mWhatOwO"));
    assert_eq!(get_emoji_by_id("1"), None);
    assert_eq!(get_emoji_by_id(""), None);
}
