//! The choices of the log command.
use vstd::prelude::*;

verus! {

/// How far back the log command looks.
#[derive(Debug, Clone, Copy)]
pub enum LogTimeframe {
    Day,
    Week,
}

impl LogTimeframe {
    /// The short name of the span.
    pub open spec fn short_name(self) -> Seq<char> {
        match self {
            LogTimeframe::Day => "24h"@,
            LogTimeframe::Week => "7d"@,
        }
    }

    /// The short name of the span.
    pub fn to_string(&self) -> (text: &'static str)
        ensures
            text@ == self.short_name(),
    {
        match self {
            LogTimeframe::Day => "24h",
            LogTimeframe::Week => "7d",
        }
    }
}

} // verus!
