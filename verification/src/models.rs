//! The shapes of the documents that the tracker stores.
pub mod guild;
pub mod immersion_log;
pub mod stats;
pub mod user;
