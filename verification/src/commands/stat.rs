//! The choices of the statistics command.
use vstd::prelude::*;

verus! {

/// The kind of picture to draw.
#[derive(Debug, Clone, Copy)]
pub enum VisualType {
    Barchart,
    Heatmap,
}

/// How many days a bar chart covers.
#[derive(Debug, Clone, Copy)]
pub enum DaysChoice {
    SevenDays,
    ThirtyDays,
}

impl DaysChoice {
    /// The number of days.
    pub fn days(&self) -> (n: i64)
        ensures
            n == match self {
                DaysChoice::SevenDays => 7i64,
                DaysChoice::ThirtyDays => 30i64,
            },
    {
        match self {
            DaysChoice::SevenDays => 7,
            DaysChoice::ThirtyDays => 30,
        }
    }
}

} // verus!
