//! Labels, units and the rule for the day an activity counts for.
pub mod colors;

use vstd::prelude::*;
use crate::utils::calendar::{date_of_day, date_text, EPOCH_DAY};
use crate::utils::text::str_eq;

verus! {

/// The hour at which a day ends: activity before 2 AM counts for the day
/// before.
pub const DAY_END_HOUR: u32 = 2;

/// The label of a media type as shown; `Unknown` for a key that names none.
pub open spec fn media_label(media_type: Seq<char>) -> Seq<char> {
    if media_type == "visual_novel"@ {
        "Visual Novel"@
    } else if media_type == "manga"@ {
        "Manga"@
    } else if media_type == "anime"@ {
        "Anime"@
    } else if media_type == "book"@ {
        "Book"@
    } else if media_type == "reading_time"@ {
        "Reading Time"@
    } else if media_type == "listening"@ {
        "Listening"@
    } else if media_type == "reading"@ {
        "Reading"@
    } else if media_type == "all"@ {
        "All Media Types"@
    } else {
        "Unknown"@
    }
}

/// The unit a media type is counted in; `units` for a key that names none.
pub open spec fn media_unit(media_type: Seq<char>) -> Seq<char> {
    if media_type == "visual_novel"@ {
        "characters"@
    } else if media_type == "manga"@ {
        "pages"@
    } else if media_type == "anime"@ {
        "episodes"@
    } else if media_type == "book"@ {
        "pages"@
    } else if media_type == "reading_time"@ {
        "minutes"@
    } else if media_type == "listening"@ {
        "minutes"@
    } else if media_type == "reading"@ {
        "characters"@
    } else {
        "units"@
    }
}

/// The label of a media type as shown.
pub fn get_media_label(media_type: &str) -> (label: &'static str)
    ensures
        label@ == media_label(media_type@),
{
    if str_eq(media_type, "visual_novel") {
        "Visual Novel"
    } else if str_eq(media_type, "manga") {
        "Manga"
    } else if str_eq(media_type, "anime") {
        "Anime"
    } else if str_eq(media_type, "book") {
        "Book"
    } else if str_eq(media_type, "reading_time") {
        "Reading Time"
    } else if str_eq(media_type, "listening") {
        "Listening"
    } else if str_eq(media_type, "reading") {
        "Reading"
    } else if str_eq(media_type, "all") {
        "All Media Types"
    } else {
        "Unknown"
    }
}

/// The unit a media type is counted in.
pub fn get_unit(media_type: &str) -> (unit: &'static str)
    ensures
        unit@ == media_unit(media_type@),
{
    if str_eq(media_type, "visual_novel") {
        "characters"
    } else if str_eq(media_type, "manga") {
        "pages"
    } else if str_eq(media_type, "anime") {
        "episodes"
    } else if str_eq(media_type, "book") {
        "pages"
    } else if str_eq(media_type, "reading_time") {
        "minutes"
    } else if str_eq(media_type, "listening") {
        "minutes"
    } else if str_eq(media_type, "reading") {
        "characters"
    } else {
        "units"
    }
}

/// The keys of the media types that have a label, in the order of the table.
pub open spec fn labelled_media_types() -> Seq<Seq<char>> {
    seq![
        "visual_novel"@,
        "manga"@,
        "anime"@,
        "book"@,
        "reading_time"@,
        "listening"@,
        "reading"@,
        "all"@,
    ]
}

/// The table of labels: each media type that has one, with its label.
pub fn media_type_labels() -> (table: Vec<(&'static str, &'static str)>)
    ensures
        table@.len() == labelled_media_types().len(),
        forall|i: int|
            0 <= i < table@.len() ==> (#[trigger] table@[i]).0@ == labelled_media_types()[i]
                && table@[i].1@ == media_label(table@[i].0@),
{
    let keys = [
        "visual_novel",
        "manga",
        "anime",
        "book",
        "reading_time",
        "listening",
        "reading",
        "all",
    ];
    let mut table: Vec<(&'static str, &'static str)> = Vec::new();
    let mut i: usize = 0;
    while i < 8
        invariant
            i <= 8,
            table@.len() == i,
            keys@ =~= seq![
                "visual_novel",
                "manga",
                "anime",
                "book",
                "reading_time",
                "listening",
                "reading",
                "all",
            ],
            forall|k: int|
                0 <= k < i ==> (#[trigger] table@[k]).0@ == labelled_media_types()[k]
                    && table@[k].1@ == media_label(table@[k].0@),
        decreases 8 - i,
    {
        let key: &'static str = keys[i];
        table.push((key, get_media_label(key)));
        i += 1;
    }
    table
}

/// The table of units: each media type that is counted, with its unit.
pub fn unit_map() -> (table: Vec<(&'static str, &'static str)>)
    ensures
        table@.len() == 7,
        forall|i: int|
            0 <= i < 7 ==> (#[trigger] table@[i]).0@ == labelled_media_types()[i] && table@[i].1@
                == media_unit(table@[i].0@),
{
    let keys = [
        "visual_novel",
        "manga",
        "anime",
        "book",
        "reading_time",
        "listening",
        "reading",
    ];
    let mut table: Vec<(&'static str, &'static str)> = Vec::new();
    let mut i: usize = 0;
    while i < 7
        invariant
            i <= 7,
            table@.len() == i,
            keys@ =~= seq![
                "visual_novel",
                "manga",
                "anime",
                "book",
                "reading_time",
                "listening",
                "reading",
            ],
            forall|k: int|
                0 <= k < i ==> (#[trigger] table@[k]).0@ == labelled_media_types()[k]
                    && table@[k].1@ == media_unit(table@[k].0@),
        decreases 7 - i,
    {
        let key: &'static str = keys[i];
        table.push((key, get_unit(key)));
        i += 1;
    }
    table
}

/// The offset of Japan Standard Time from UTC, in seconds.
pub const JST_OFFSET: i64 = 32400;

/// The number of seconds in a day.
pub const SECONDS_PER_DAY: i64 = 86400;

/// The day number of the day that an activity at `now` counts for, `now`
/// given in seconds since the epoch. The clock is read in Japan Standard
/// Time, and the day ends at 2 AM: before that hour the activity counts for
/// the day before.
pub open spec fn effective_day(now: int) -> int {
    let local = now + JST_OFFSET;
    let date = local / (SECONDS_PER_DAY as int);
    let hour = (local % (SECONDS_PER_DAY as int)) / 3600;
    EPOCH_DAY + if hour < DAY_END_HOUR {
        date - 1
    } else {
        date
    }
}

/// The day number of the day that an activity at `now` counts for.
pub fn get_effective_date(now: i64) -> (day: i64)
    requires
        now + JST_OFFSET <= i64::MAX,
    ensures
        day == effective_day(now as int),
{
    let local = now + JST_OFFSET;
    let date: i64;
    let second: i64;
    if local >= 0 {
        date = local / SECONDS_PER_DAY;
        second = local % SECONDS_PER_DAY;
    } else {
        let back = -(local + 1);
        date = -(back / SECONDS_PER_DAY) - 1;
        second = SECONDS_PER_DAY - 1 - back % SECONDS_PER_DAY;
    }
    assert(date == (local as int) / 86400 && second == (local as int) % 86400);
    let hour = second / 3600;
    if hour < 2 {
        EPOCH_DAY + (date - 1)
    } else {
        EPOCH_DAY + date
    }
}

/// The day that an activity at `now` counts for, written as `YYYY-MM-DD`;
/// `None` for an instant outside the years the calendar covers.
pub fn get_effective_date_string(now: i64) -> (text: Option<String>)
    requires
        now + JST_OFFSET <= i64::MAX,
    ensures
        match text {
            Some(t) => date_text(effective_day(now as int)) == Some(t@),
            None => date_text(effective_day(now as int)) is None,
        },
{
    date_of_day(get_effective_date(now))
}

} // verus!
