//! Clients of remote services.
pub mod anilist;
pub mod firebase;
pub mod jimaku;
pub mod llm;
pub mod vndb;
pub mod youtube;
