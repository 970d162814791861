//! Anime and manga metadata from AniList.
use vstd::prelude::*;

verus! {

/// The kind of media to look for.
#[derive(Debug, Clone, Copy)]
pub enum MediaType {
    Anime,
    Manga,
}

impl MediaType {
    /// The name of the kind in the service's query language.
    pub open spec fn name(self) -> Seq<char> {
        match self {
            MediaType::Anime => "ANIME"@,
            MediaType::Manga => "MANGA"@,
        }
    }

    /// The name of the kind in the service's query language.
    pub fn as_str(&self) -> (name: &'static str)
        ensures
            name@ == self.name(),
    {
        match self {
            MediaType::Anime => "ANIME",
            MediaType::Manga => "MANGA",
        }
    }
}

/// What is known of one anime or manga.
#[derive(Debug, Clone)]
pub struct AniListMedia {
    pub id: i32,
    pub title: String,
    pub title_romaji: Option<String>,
    pub image: Option<String>,
    pub url: String,
}

/// The title to show: the English one, else the romanised one, else the
/// native one, else `Unknown`.
pub open spec fn preferred_title(
    english: Option<Seq<char>>,
    romaji: Option<Seq<char>>,
    native: Option<Seq<char>>,
) -> Seq<char> {
    match english {
        Some(title) => title,
        None => match romaji {
            Some(title) => title,
            None => match native {
                Some(title) => title,
                None => "Unknown"@,
            },
        },
    }
}

/// Chooses the title to show among the titles a work has.
pub fn display_title(english: Option<&str>, romaji: Option<&str>, native: Option<&str>) -> (title:
    String)
    ensures
        title@ == preferred_title(
            match english {
                Some(t) => Some(t@),
                None => None,
            },
            match romaji {
                Some(t) => Some(t@),
                None => None,
            },
            match native {
                Some(t) => Some(t@),
                None => None,
            },
        ),
{
    match english {
        Some(title) => title.to_string(),
        None => match romaji {
            Some(title) => title.to_string(),
            None => match native {
                Some(title) => title.to_string(),
                None => "Unknown".to_string(),
            },
        },
    }
}

} // verus!
