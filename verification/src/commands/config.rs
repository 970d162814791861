//! The settings a guild can change.
use vstd::prelude::*;

verus! {

/// A setting of a guild.
#[derive(Debug, Clone, Copy)]
pub enum ConfigKey {
    AyumiChannel,
    QuizChannel,
    WelcomeChannel,
}

impl ConfigKey {
    /// The name of the setting as shown.
    pub open spec fn name_text(self) -> Seq<char> {
        match self {
            ConfigKey::AyumiChannel => "Ayumi Channel"@,
            ConfigKey::QuizChannel => "Quiz Channel"@,
            ConfigKey::WelcomeChannel => "Welcome Channel"@,
        }
    }

    /// The name of the setting as shown.
    pub fn name(&self) -> (text: &'static str)
        ensures
            text@ == self.name_text(),
    {
        match self {
            ConfigKey::AyumiChannel => "Ayumi Channel",
            ConfigKey::QuizChannel => "Quiz Channel",
            ConfigKey::WelcomeChannel => "Welcome Channel",
        }
    }
}

} // verus!
