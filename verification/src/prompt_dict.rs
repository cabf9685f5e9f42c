//! Flat dictionary shape of the prompt model: role, content kind and
//! content side by side, as older clients send it.

use vstd::prelude::*;

verus! {

/// Role of a prompt turn, in the flat shape.
#[derive(Debug, Default, Clone, Copy, PartialEq, Eq, Structural)]
pub enum AILanguageModelPromptRole {
    System,
    #[default]
    User,
    Assistant,
}

/// Content kind of a flat prompt entry.
#[derive(Debug, Default, Clone, Copy, PartialEq, Eq, Structural)]
pub enum AILanguageModelPromptType {
    #[default]
    Text,
    Image,
    Audio,
}

/// One prompt turn in flat dictionary shape.
#[derive(Debug, Default, Clone, PartialEq)]
pub struct AILanguageModelPromptDict {
    pub role: AILanguageModelPromptRole,
    pub _type: AILanguageModelPromptType,
    pub content: String,
}

/// An expected-input declaration in flat shape.
#[derive(Debug, Default, Clone, PartialEq)]
pub struct AILanguageModelExpectedInput {
    pub _type: AILanguageModelPromptType,
    pub languages: Vec<String>,
}

} // verus!
