//! One logged immersion session, as it is stored.
use vstd::prelude::*;

verus! {

/// The user a log belongs to.
#[derive(Debug, Clone)]
pub struct LogUser {
    pub id: String,
    pub username: String,
    pub display_name: Option<String>,
    pub avatar: Option<String>,
}

/// What external services told about the logged work.
#[derive(Debug, Clone)]
pub struct LogMetadata {
    pub thumbnail: Option<String>,
    pub duration: Option<i32>,
    pub source: String,
    pub vndb_info: Option<VndbInfo>,
}

/// Details of a visual novel.
#[derive(Debug, Clone)]
pub struct VndbInfo {
    pub developer: Option<String>,
    pub released: Option<String>,
    pub length: Option<i32>,
    pub description: Option<String>,
}

/// When a log was made and which day, month and year it counts for.
#[derive(Debug, Clone)]
pub struct Timestamps {
    pub created: String,
    pub date: String,
    pub month: String,
    pub year: i32,
}

} // verus!
