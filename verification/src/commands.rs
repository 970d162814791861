//! The choices that commands offer and the small rules behind their answers.
pub mod afk;
pub mod config;
pub mod export;
pub mod immersion;
pub mod immersion_helpers;
pub mod leaderboard;
pub mod log;
pub mod novel;
pub mod prompt;
pub mod react;
pub mod stat;
