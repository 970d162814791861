use yuyuko::api::anilist::{display_title, MediaType as AniListKind};
use yuyuko::commands::config::ConfigKey;
use yuyuko::commands::export::{ExportMediaType, Timeframe};
use yuyuko::commands::immersion::MediaType;
use yuyuko::commands::leaderboard::{LeaderboardMediaType, MonthChoice, TimePeriod};
use yuyuko::commands::log::LogTimeframe;
use yuyuko::commands::novel::{get_novel_count, NovelEntry};
use yuyuko::commands::prompt::PromptAction;
use yuyuko::commands::stat::DaysChoice;
use yuyuko::models::guild::GuildConfig;
use yuyuko::models::stats::TimePeriod as StatsPeriod;
use yuyuko::utils::config::{get_media_label, get_unit};

#[test]
fn media_types_have_their_keys() {
    assert_eq!(MediaType::VisualNovel.as_str(), "visual_novel");
    assert_eq!(MediaType::Manga.as_str(), "manga");
    assert_eq!(MediaType::Anime.as_str(), "anime");
    assert_eq!(MediaType::Book.as_str(), "book");
    assert_eq!(MediaType::ReadingTime.as_str(), "reading_time");
    assert_eq!(MediaType::Listening.as_str(), "listening");
    assert_eq!(MediaType::Reading.as_str(), "reading");
    assert_eq!(get_media_label(MediaType::ReadingTime.as_str()), "Reading Time");
    assert_eq!(get_unit(MediaType::VisualNovel.as_str()), "characters");
}

#[test]
fn anilist_kinds_and_titles() {
    assert_eq!(AniListKind::Anime.as_str(), "ANIME");
    assert_eq!(AniListKind::Manga.as_str(), "MANGA");
    assert_eq!(display_title(Some("E"), Some("R"), Some("N")), "E");
    assert_eq!(display_title(None, Some("R"), Some("N")), "R");
    assert_eq!(display_title(None, None, Some("N")), "N");
    assert_eq!(display_title(None, None, None), "Unknown");
}

#[test]
fn export_choices() {
    assert_eq!(Timeframe::Day.as_str(), "Last 24 Hours");
    assert_eq!(Timeframe::Week.as_str(), "Last 7 Days");
    assert_eq!(Timeframe::Month.as_str(), "Last 30 Days");
    assert_eq!(Timeframe::Year.as_str(), "Last 365 Days");
    assert_eq!(Timeframe::All.as_str(), "All Time");
    assert_eq!(Timeframe::Day.get_start_date(1_700_000_000), 1_700_000_000 - 86_400);
    assert_eq!(Timeframe::Week.get_start_date(1_700_000_000), 1_700_000_000 - 604_800);
    assert_eq!(Timeframe::Month.get_start_date(1_700_000_000), 1_700_000_000 - 2_592_000);
    assert_eq!(Timeframe::Year.get_start_date(1_700_000_000), 1_700_000_000 - 31_536_000);
    assert_eq!(Timeframe::All.get_start_date(1_700_000_000), 0);
    assert_eq!(ExportMediaType::All.as_str(), None);
    assert_eq!(ExportMediaType::VisualNovel.as_str(), Some("visual_novel"));
    assert_eq!(ExportMediaType::ReadingTime.as_str(), Some("reading_time"));
    assert_eq!(ExportMediaType::All.label(), "All Types");
    assert_eq!(ExportMediaType::Listening.label(), "Listening");
}

#[test]
fn leaderboard_choices() {
    assert_eq!(TimePeriod::Weekly.label(), "Weekly");
    assert_eq!(TimePeriod::AllTime.label(), "All-time");
    assert_eq!(StatsPeriod::Monthly.label(), "Monthly");
    assert_eq!(StatsPeriod::Yearly.label(), "Yearly");
    assert_eq!(LeaderboardMediaType::All.as_str(), None);
    assert_eq!(LeaderboardMediaType::Book.as_str(), Some("book"));
    assert_eq!(LeaderboardMediaType::All.label(), "All Media");
    assert_eq!(LeaderboardMediaType::VisualNovel.label(), "Visual Novel");
    assert_eq!(MonthChoice::January.number(), 1);
    assert_eq!(MonthChoice::June.number(), 6);
    assert_eq!(MonthChoice::December.number(), 12);
}

#[test]
fn other_choices() {
    assert_eq!(LogTimeframe::Day.to_string(), "24h");
    assert_eq!(LogTimeframe::Week.to_string(), "7d");
    assert_eq!(DaysChoice::SevenDays.days(), 7);
    assert_eq!(DaysChoice::ThirtyDays.days(), 30);
    assert_eq!(ConfigKey::AyumiChannel.name(), "Ayumi Channel");
    assert_eq!(ConfigKey::QuizChannel.name(), "Quiz Channel");
    assert_eq!(ConfigKey::WelcomeChannel.name(), "Welcome Channel");
    assert_eq!(PromptAction::SetPrompt.name(), "Set Prompt");
    assert_eq!(PromptAction::ViewPrompt.name(), "View Prompt");
    assert_eq!(PromptAction::DeletePrompt.name(), "Delete Prompt");
}

#[test]
fn counting_novels_and_default_settings() {
    let novel = NovelEntry {
        id: "1".to_string(),
        title: "T".to_string(),
        url: "u".to_string(),
        size: "1MB".to_string(),
        format: "epub".to_string(),
    };
    assert_eq!(get_novel_count(&vec![]), 0);
    assert_eq!(get_novel_count(&vec![novel.clone(), novel]), 2);
    let config = GuildConfig::default();
    assert!(config.ayumi_channel_id.is_none());
    assert!(config.role_rank_announcement_channel_id.is_none());
}

#[test]
fn periods_are_read_without_regard_to_case() {
    assert_eq!(StatsPeriod::from_str("weekly"), Ok(StatsPeriod::Weekly));
    assert_eq!(StatsPeriod::from_str("MONTHLY"), Ok(StatsPeriod::Monthly));
    assert_eq!(StatsPeriod::from_str("Yearly"), Ok(StatsPeriod::Yearly));
    assert_eq!(StatsPeriod::from_str("all_time"), Ok(StatsPeriod::AllTime));
    assert_eq!(StatsPeriod::from_str("AllTime"), Ok(StatsPeriod::AllTime));
    assert_eq!(StatsPeriod::from_str("all-time"), Ok(StatsPeriod::AllTime));
    assert_eq!(
        StatsPeriod::from_str("Daily"),
        Err("Unknown time period: Daily".to_string())
    );
    assert_eq!(StatsPeriod::from_str(" weekly"), Err("Unknown time period:  weekly".to_string()));
    assert_eq!(StatsPeriod::from_str(""), Err("Unknown time period: ".to_string()));
}
