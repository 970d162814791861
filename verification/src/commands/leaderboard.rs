//! The choices of the leaderboard command.
use vstd::prelude::*;

verus! {

/// The span of time a leaderboard covers.
#[derive(Debug, Clone, Copy)]
pub enum TimePeriod {
    Weekly,
    Monthly,
    Yearly,
    AllTime,
}

impl TimePeriod {
    /// The name of the period as shown.
    pub open spec fn label_text(self) -> Seq<char> {
        match self {
            TimePeriod::Weekly => "Weekly"@,
            TimePeriod::Monthly => "Monthly"@,
            TimePeriod::Yearly => "Yearly"@,
            TimePeriod::AllTime => "All-time"@,
        }
    }

    /// The name of the period as shown.
    pub fn label(&self) -> (text: &'static str)
        ensures
            text@ == self.label_text(),
    {
        match self {
            TimePeriod::Weekly => "Weekly",
            TimePeriod::Monthly => "Monthly",
            TimePeriod::Yearly => "Yearly",
            TimePeriod::AllTime => "All-time",
        }
    }
}

/// The media a leaderboard counts.
#[derive(Debug, Clone, Copy)]
pub enum LeaderboardMediaType {
    All,
    VisualNovel,
    Manga,
    Anime,
    Book,
    ReadingTime,
    Listening,
    Reading,
}

impl LeaderboardMediaType {
    /// The key of the media type in stored logs; none for all media.
    pub open spec fn key(self) -> Option<Seq<char>> {
        match self {
            LeaderboardMediaType::All => None,
            LeaderboardMediaType::VisualNovel => Some("visual_novel"@),
            LeaderboardMediaType::Manga => Some("manga"@),
            LeaderboardMediaType::Anime => Some("anime"@),
            LeaderboardMediaType::Book => Some("book"@),
            LeaderboardMediaType::ReadingTime => Some("reading_time"@),
            LeaderboardMediaType::Listening => Some("listening"@),
            LeaderboardMediaType::Reading => Some("reading"@),
        }
    }

    /// The name of the choice as shown.
    pub open spec fn label_text(self) -> Seq<char> {
        match self {
            LeaderboardMediaType::All => "All Media"@,
            LeaderboardMediaType::VisualNovel => "Visual Novel"@,
            LeaderboardMediaType::Manga => "Manga"@,
            LeaderboardMediaType::Anime => "Anime"@,
            LeaderboardMediaType::Book => "Book"@,
            LeaderboardMediaType::ReadingTime => "Reading Time"@,
            LeaderboardMediaType::Listening => "Listening"@,
            LeaderboardMediaType::Reading => "Reading"@,
        }
    }

    /// The key of the media type in stored logs; none for all media.
    pub fn as_str(&self) -> (key: Option<&'static str>)
        ensures
            match key {
                Some(text) => self.key() == Some(text@),
                None => self.key() is None,
            },
    {
        match self {
            LeaderboardMediaType::All => None,
            LeaderboardMediaType::VisualNovel => Some("visual_novel"),
            LeaderboardMediaType::Manga => Some("manga"),
            LeaderboardMediaType::Anime => Some("anime"),
            LeaderboardMediaType::Book => Some("book"),
            LeaderboardMediaType::ReadingTime => Some("reading_time"),
            LeaderboardMediaType::Listening => Some("listening"),
            LeaderboardMediaType::Reading => Some("reading"),
        }
    }

    /// The name of the choice as shown.
    pub fn label(&self) -> (text: &'static str)
        ensures
            text@ == self.label_text(),
    {
        match self {
            LeaderboardMediaType::All => "All Media",
            LeaderboardMediaType::VisualNovel => "Visual Novel",
            LeaderboardMediaType::Manga => "Manga",
            LeaderboardMediaType::Anime => "Anime",
            LeaderboardMediaType::Book => "Book",
            LeaderboardMediaType::ReadingTime => "Reading Time",
            LeaderboardMediaType::Listening => "Listening",
            LeaderboardMediaType::Reading => "Reading",
        }
    }
}

/// A month of the year.
#[derive(Debug, Clone, Copy)]
pub enum MonthChoice {
    January,
    February,
    March,
    April,
    May,
    June,
    July,
    August,
    September,
    October,
    November,
    December,
}

impl MonthChoice {
    /// The number of the month, from 1 for January to 12 for December.
    pub open spec fn number_of(self) -> int {
        match self {
            MonthChoice::January => 1,
            MonthChoice::February => 2,
            MonthChoice::March => 3,
            MonthChoice::April => 4,
            MonthChoice::May => 5,
            MonthChoice::June => 6,
            MonthChoice::July => 7,
            MonthChoice::August => 8,
            MonthChoice::September => 9,
            MonthChoice::October => 10,
            MonthChoice::November => 11,
            MonthChoice::December => 12,
        }
    }

    /// The number of the month, from 1 for January to 12 for December.
    pub fn number(&self) -> (n: u32)
        ensures
            n == self.number_of(),
    {
        match self {
            MonthChoice::January => 1,
            MonthChoice::February => 2,
            MonthChoice::March => 3,
            MonthChoice::April => 4,
            MonthChoice::May => 5,
            MonthChoice::June => 6,
            MonthChoice::July => 7,
            MonthChoice::August => 8,
            MonthChoice::September => 9,
            MonthChoice::October => 10,
            MonthChoice::November => 11,
            MonthChoice::December => 12,
        }
    }
}

} // verus!
