//! Subtitle files from Jimaku.
use vstd::prelude::*;

verus! {

/// The root of the service's API.
pub const JIMAKU_API_BASE: &'static str = "https://jimaku.cc/api";

/// One show in the service's catalogue.
#[derive(Debug, Clone)]
pub struct JimakuEntry {
    pub id: i32,
    pub name: String,
    pub english_name: Option<String>,
    pub japanese_name: Option<String>,
    pub anilist_id: Option<i32>,
}

/// One subtitle file of a show.
#[derive(Debug, Clone)]
pub struct JimakuFile {
    pub id: i32,
    pub name: String,
    pub size: u64,
    pub url: String,
    pub last_modified: String,
}

} // verus!
