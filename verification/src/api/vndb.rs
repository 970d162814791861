//! Visual novel metadata from VNDB.
use vstd::prelude::*;

verus! {

/// What is known of one visual novel.
#[derive(Debug, Clone)]
pub struct VnInfo {
    pub id: String,
    pub title: String,
    pub image: Option<String>,
    pub url: String,
    pub developer: Option<String>,
    pub released: Option<String>,
    pub length: Option<i32>,
    pub description: Option<String>,
}

} // verus!
