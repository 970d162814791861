//! Helpers shared by the rest of the crate.
pub mod calendar;
pub mod config;
pub mod emojis;
pub mod formatters;
pub mod streak;
pub mod text;
