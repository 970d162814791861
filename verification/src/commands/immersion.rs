//! The media that can be logged.
use vstd::prelude::*;

verus! {

/// A kind of media, each counted in its own unit.
#[derive(Debug, Clone, Copy)]
pub enum MediaType {
    /// Counted in characters.
    VisualNovel,
    /// Counted in pages.
    Manga,
    /// Counted in episodes.
    Anime,
    /// Counted in pages.
    Book,
    /// Counted in minutes.
    ReadingTime,
    /// Counted in minutes.
    Listening,
    /// Counted in characters.
    Reading,
}

impl MediaType {
    /// The key of the media type in stored logs.
    pub open spec fn key(self) -> Seq<char> {
        match self {
            MediaType::VisualNovel => "visual_novel"@,
            MediaType::Manga => "manga"@,
            MediaType::Anime => "anime"@,
            MediaType::Book => "book"@,
            MediaType::ReadingTime => "reading_time"@,
            MediaType::Listening => "listening"@,
            MediaType::Reading => "reading"@,
        }
    }

    /// The key of the media type in stored logs.
    pub fn as_str(&self) -> (key: &'static str)
        ensures
            key@ == self.key(),
    {
        match self {
            MediaType::VisualNovel => "visual_novel",
            MediaType::Manga => "manga",
            MediaType::Anime => "anime",
            MediaType::Book => "book",
            MediaType::ReadingTime => "reading_time",
            MediaType::Listening => "listening",
            MediaType::Reading => "reading",
        }
    }
}

} // verus!
