//! Periods of the rankings.
use vstd::prelude::*;
use crate::utils::text::{lowercase, str_eq, to_lowercase};

verus! {

/// The span of time a ranking covers.
#[derive(Debug, Clone, Copy, PartialEq, Eq)]
pub enum TimePeriod {
    Weekly,
    Monthly,
    Yearly,
    AllTime,
}

impl TimePeriod {
    /// The name of the period as shown.
    pub open spec fn label_text(self) -> Seq<char> {
        match self {
            TimePeriod::Weekly => "Weekly"@,
            TimePeriod::Monthly => "Monthly"@,
            TimePeriod::Yearly => "Yearly"@,
            TimePeriod::AllTime => "All-time"@,
        }
    }

    /// The name of the period as shown.
    pub fn label(&self) -> (text: &'static str)
        ensures
            text@ == self.label_text(),
    {
        match self {
            TimePeriod::Weekly => "Weekly",
            TimePeriod::Monthly => "Monthly",
            TimePeriod::Yearly => "Yearly",
            TimePeriod::AllTime => "All-time",
        }
    }
}

/// The period that a text names when read without regard to case: `weekly`,
/// `monthly`, `yearly`, and `all_time`, `alltime` or `all-time`.
pub open spec fn named_period(text: Seq<char>) -> Option<TimePeriod> {
    let lower = lowercase(text);
    if lower == "weekly"@ {
        Some(TimePeriod::Weekly)
    } else if lower == "monthly"@ {
        Some(TimePeriod::Monthly)
    } else if lower == "yearly"@ {
        Some(TimePeriod::Yearly)
    } else if lower == "all_time"@ || lower == "alltime"@ || lower == "all-time"@ {
        Some(TimePeriod::AllTime)
    } else {
        None
    }
}

impl TimePeriod {
    /// Reads the name of a period; a text that names none is reported with
    /// the text itself.
    pub fn from_str(s: &str) -> (parsed: Result<TimePeriod, String>)
        ensures
            match parsed {
                Ok(period) => named_period(s@) == Some(period),
                Err(message) => named_period(s@) is None && message@ == "Unknown time period: "@
                    + s@,
            },
    {
        let lower = to_lowercase(s);
        let lower = lower.as_str();
        if str_eq(lower, "weekly") {
            Ok(TimePeriod::Weekly)
        } else if str_eq(lower, "monthly") {
            Ok(TimePeriod::Monthly)
        } else if str_eq(lower, "yearly") {
            Ok(TimePeriod::Yearly)
        } else if str_eq(lower, "all_time") || str_eq(lower, "alltime") || str_eq(
            lower,
            "all-time",
        ) {
            Ok(TimePeriod::AllTime)
        } else {
            let mut message = String::from_str("Unknown time period: ");
            message.append(s);
            Err(message)
        }
    }
}

} // verus!
