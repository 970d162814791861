//! Settings of one guild.
use vstd::prelude::*;

verus! {

/// The channels that a guild has set aside for the tracker.
#[derive(Debug, Clone)]
pub struct GuildConfig {
    /// Where the assistant answers.
    pub ayumi_channel_id: Option<String>,
    /// Where quiz events are held.
    pub quiz_channel_id: Option<String>,
    /// The category of quiz channels.
    pub quiz_category_id: Option<String>,
    /// Where newcomers are greeted.
    pub welcome_channel_id: Option<String>,
    /// Where immersion logs are posted.
    pub immersion_channel_id: Option<String>,
    /// Where new ranks are announced.
    pub role_rank_announcement_channel_id: Option<String>,
}

impl Default for GuildConfig {
    fn default() -> (config: GuildConfig)
        ensures
            config.ayumi_channel_id is None,
            config.quiz_channel_id is None,
            config.quiz_category_id is None,
            config.welcome_channel_id is None,
            config.immersion_channel_id is None,
            config.role_rank_announcement_channel_id is None,
    {
        GuildConfig {
            ayumi_channel_id: None,
            quiz_channel_id: None,
            quiz_category_id: None,
            welcome_channel_id: None,
            immersion_channel_id: None,
            role_rank_announcement_channel_id: None,
        }
    }
}

} // verus!
