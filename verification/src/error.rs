//! Error taxonomy of the language-model core.

use vstd::prelude::*;

verus! {

/// Why resolving the effective system prompt failed.
#[derive(Debug, Clone, Copy, PartialEq, Eq, Structural)]
pub enum SystemPromptErrorKind {
    /// The explicit system-prompt field and a System-role initial prompt
    /// were both given.
    AlreadySet,
    /// More than one System-role initial prompt was given.
    TooMany,
    /// The single System-role initial prompt is not a text prompt.
    NotText,
}

impl SystemPromptErrorKind {
    /// The wording surfaced to clients for this failure.
    pub open spec fn spec_message(self) -> Seq<char> {
        match self {
            SystemPromptErrorKind::AlreadySet => "System prompt is already set."@,
            SystemPromptErrorKind::TooMany => "Only one system prompt is allowed."@,
            SystemPromptErrorKind::NotText => "System prompt is not a text prompt."@,
        }
    }

    pub fn message(&self) -> (r: &'static str)
        ensures
            r@ == self.spec_message(),
    {
        match self {
            SystemPromptErrorKind::AlreadySet => "System prompt is already set.",
            SystemPromptErrorKind::TooMany => "Only one system prompt is allowed.",
            SystemPromptErrorKind::NotText => "System prompt is not a text prompt.",
        }
    }
}

/// A failure of the language-model core.
///
/// The first two variants are caused by caller input; `ProviderError` covers
/// every failure originating from the remote backend or the tokenizer.
#[derive(Debug)]
pub enum AILanguageModelError {
    SystemPromptError(SystemPromptErrorKind),
    PromptInputError(&'static str),
    ProviderError(String),
}

pub type AILanguageModelResult<T> = Result<T, AILanguageModelError>;

impl AILanguageModelError {
    /// The human-readable message for this error.
    pub open spec fn spec_message(self) -> Seq<char> {
        match self {
            AILanguageModelError::SystemPromptError(k) => k.spec_message(),
            AILanguageModelError::PromptInputError(m) => m@,
            AILanguageModelError::ProviderError(m) => m@,
        }
    }

    pub fn message(&self) -> (r: String)
        ensures
            r@ == self.spec_message(),
    {
        match self {
            AILanguageModelError::SystemPromptError(k) => String::from_str(k.message()),
            AILanguageModelError::PromptInputError(m) => String::from_str(m),
            AILanguageModelError::ProviderError(m) => m.clone(),
        }
    }

    /// The HTTP status classification of this error: caller input faults are
    /// client errors, backend faults are server errors.
    pub fn status_code(&self) -> (code: u16)
        ensures
            code == 400 <==> (self is SystemPromptError || self is PromptInputError),
            code == 500 <==> self is ProviderError,
    {
        match self {
            AILanguageModelError::SystemPromptError(_) => 400,
            AILanguageModelError::PromptInputError(_) => 400,
            AILanguageModelError::ProviderError(_) => 500,
        }
    }
}

} // verus!
