//! Rules behind the assistant's features.
pub mod ayumi;
pub mod custom_prompt;
pub mod novel_recommender;
pub mod role_rank;
