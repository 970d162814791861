//! A user, as stored.
use vstd::prelude::*;

verus! {

/// Who a user is.
#[derive(Debug, Clone)]
pub struct UserProfile {
    pub id: String,
    pub username: String,
    pub display_name: Option<String>,
    pub avatar: Option<String>,
    pub last_seen: Option<String>,
}

/// A summary of a user's activity.
#[derive(Debug, Clone)]
pub struct UserSummary {
    pub total_sessions: i32,
    pub last_activity: Option<String>,
    pub join_date: Option<String>,
    pub active_types: Vec<String>,
}

/// A user's streaks of consecutive days.
#[derive(Debug, Clone)]
pub struct StreakInfo {
    pub current: i32,
    pub longest: i32,
    pub last_updated: Option<String>,
}

} // verus!
