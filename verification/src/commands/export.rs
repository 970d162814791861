//! The choices of the export command.
use vstd::prelude::*;
use crate::utils::text::str_eq;

verus! {

/// How far back an export looks.
#[derive(Debug)]
pub enum Timeframe {
    Day,
    Week,
    Month,
    Year,
    All,
}

impl Timeframe {
    /// The name of the span as shown.
    pub open spec fn name(self) -> Seq<char> {
        match self {
            Timeframe::Day => "Last 24 Hours"@,
            Timeframe::Week => "Last 7 Days"@,
            Timeframe::Month => "Last 30 Days"@,
            Timeframe::Year => "Last 365 Days"@,
            Timeframe::All => "All Time"@,
        }
    }

    /// The number of days the span reaches back; none for all time.
    pub open spec fn days_back(self) -> Option<int> {
        match self {
            Timeframe::Day => Some(1),
            Timeframe::Week => Some(7),
            Timeframe::Month => Some(30),
            Timeframe::Year => Some(365),
            Timeframe::All => None,
        }
    }

    /// The name of the span as shown.
    pub fn as_str(&self) -> (name: &'static str)
        ensures
            name@ == self.name(),
    {
        match self {
            Timeframe::Day => "Last 24 Hours",
            Timeframe::Week => "Last 7 Days",
            Timeframe::Month => "Last 30 Days",
            Timeframe::Year => "Last 365 Days",
            Timeframe::All => "All Time",
        }
    }

    /// The instant at which the span starts, in seconds since the epoch:
    /// the given number of days before `now`, and the epoch itself for all
    /// time.
    pub fn get_start_date(&self, now: i64) -> (start: i64)
        requires
            now - 365 * 86400 >= i64::MIN,
        ensures
            start == match self.days_back() {
                Some(days) => now - days * 86400,
                None => 0,
            },
    {
        match self {
            Timeframe::Day => now - 86400,
            Timeframe::Week => now - 7 * 86400,
            Timeframe::Month => now - 30 * 86400,
            Timeframe::Year => now - 365 * 86400,
            Timeframe::All => 0,
        }
    }
}

/// The media an export holds.
#[derive(Debug)]
pub enum ExportMediaType {
    All,
    VisualNovel,
    Book,
    Reading,
    ReadingTime,
    Manga,
    Anime,
    Listening,
}

impl ExportMediaType {
    /// The key of the media type in stored logs; none for all types.
    pub open spec fn key(self) -> Option<Seq<char>> {
        match self {
            ExportMediaType::All => None,
            ExportMediaType::VisualNovel => Some("visual_novel"@),
            ExportMediaType::Book => Some("book"@),
            ExportMediaType::Reading => Some("reading"@),
            ExportMediaType::ReadingTime => Some("reading_time"@),
            ExportMediaType::Manga => Some("manga"@),
            ExportMediaType::Anime => Some("anime"@),
            ExportMediaType::Listening => Some("listening"@),
        }
    }

    /// The name of the choice as shown.
    pub open spec fn label_text(self) -> Seq<char> {
        match self {
            ExportMediaType::All => "All Types"@,
            ExportMediaType::VisualNovel => "Visual Novel"@,
            ExportMediaType::Book => "Book"@,
            ExportMediaType::Reading => "Reading"@,
            ExportMediaType::ReadingTime => "Reading Time"@,
            ExportMediaType::Manga => "Manga"@,
            ExportMediaType::Anime => "Anime"@,
            ExportMediaType::Listening => "Listening"@,
        }
    }

    /// The key of the media type in stored logs; none for all types.
    pub fn as_str(&self) -> (key: Option<&'static str>)
        ensures
            match key {
                Some(text) => self.key() == Some(text@),
                None => self.key() is None,
            },
    {
        match self {
            ExportMediaType::All => None,
            ExportMediaType::VisualNovel => Some("visual_novel"),
            ExportMediaType::Book => Some("book"),
            ExportMediaType::Reading => Some("reading"),
            ExportMediaType::ReadingTime => Some("reading_time"),
            ExportMediaType::Manga => Some("manga"),
            ExportMediaType::Anime => Some("anime"),
            ExportMediaType::Listening => Some("listening"),
        }
    }

    /// The name of the choice as shown.
    pub fn label(&self) -> (text: &'static str)
        ensures
            text@ == self.label_text(),
    {
        match self {
            ExportMediaType::All => "All Types",
            ExportMediaType::VisualNovel => "Visual Novel",
            ExportMediaType::Book => "Book",
            ExportMediaType::Reading => "Reading",
            ExportMediaType::ReadingTime => "Reading Time",
            ExportMediaType::Manga => "Manga",
            ExportMediaType::Anime => "Anime",
            ExportMediaType::Listening => "Listening",
        }
    }
}

/// The unit that an export names for a media type: episodes for anime,
/// pages for manga, characters for visual novels, books and reading,
/// minutes for reading time and listening, and `units` for anything else.
pub open spec fn export_unit(media_type: Seq<char>) -> Seq<char> {
    if media_type == "anime"@ {
        "episodes"@
    } else if media_type == "manga"@ {
        "pages"@
    } else if media_type == "visual_novel"@ || media_type == "book"@ || media_type == "reading"@ {
        "characters"@
    } else if media_type == "reading_time"@ || media_type == "listening"@ {
        "minutes"@
    } else {
        "units"@
    }
}

/// The unit that an export names for a media type.
pub fn get_unit_for_type(media_type: &str) -> (unit: &'static str)
    ensures
        unit@ == export_unit(media_type@),
{
    if str_eq(media_type, "anime") {
        "episodes"
    } else if str_eq(media_type, "manga") {
        "pages"
    } else if str_eq(media_type, "visual_novel") || str_eq(media_type, "book") || str_eq(
        media_type,
        "reading",
    ) {
        "characters"
    } else if str_eq(media_type, "reading_time") || str_eq(media_type, "listening") {
        "minutes"
    } else {
        "units"
    }
}

} // verus!
