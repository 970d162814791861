//! What a user can do with a custom prompt.
use vstd::prelude::*;

verus! {

/// An action on a user's custom prompt.
#[derive(Debug, Clone, Copy)]
pub enum PromptAction {
    SetPrompt,
    ViewPrompt,
    DeletePrompt,
}

impl PromptAction {
    /// The name of the action as shown.
    pub open spec fn name_text(self) -> Seq<char> {
        match self {
            PromptAction::SetPrompt => "Set Prompt"@,
            PromptAction::ViewPrompt => "View Prompt"@,
            PromptAction::DeletePrompt => "Delete Prompt"@,
        }
    }

    /// The name of the action as shown.
    pub fn name(&self) -> (text: &'static str)
        ensures
            text@ == self.name_text(),
    {
        match self {
            PromptAction::SetPrompt => "Set Prompt",
            PromptAction::ViewPrompt => "View Prompt",
            PromptAction::DeletePrompt => "Delete Prompt",
        }
    }
}

} // verus!
