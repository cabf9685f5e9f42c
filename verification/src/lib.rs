//! Core of a browser-style "built-in AI" language-model service.
//!
//! The crate models prompts and creation options, resolves the effective
//! system prompt from its two possible sources, builds the wire request for
//! the remote Gemini backend, translates streamed backend events into
//! response chunks, renders the Gemma prompt template used for local token
//! counting, and derives the summarizer system prompt.
//!
//! Network transport, HTTP routing and JSON framing live outside this crate;
//! it consumes and produces plain values only.

use vstd::prelude::*;

pub mod codec;
pub mod error;
pub mod gemini;
pub mod origins;
pub mod prompt_dict;
pub mod stream;
pub mod summarizer;
pub mod template;
pub mod types;

use crate::error::AILanguageModelError;
use crate::types::{
    AILanguageModelCapabilities, AILanguageModelCreateOptions, AILanguageModelPrompt,
    CreateOptionsView, PromptView,
};

verus! {

/// The capability-polymorphic contract every backend provider implements:
/// configuration and static capability introspection. The asynchronous
/// one-shot and streaming operations live with the transport layer; their
/// compute parts are the verified functions of this crate.
pub trait AILanguageModel {
    /// The creation options this instance currently holds.
    spec fn options_view(&self) -> CreateOptionsView;

    /// The static capability record of the implementing provider.
    spec fn capabilities_spec() -> AILanguageModelCapabilities;

    /// Replace the creation options; observable by every later operation on
    /// the same instance.
    fn create_options(&mut self, options: AILanguageModelCreateOptions)
        ensures
            final(self).options_view() == options.deep_view(),
    ;

    /// The provider's static limits; pure, no I/O.
    fn capabilities() -> (c: AILanguageModelCapabilities)
        ensures
            c == Self::capabilities_spec(),
    ;
}

/// Local token counting over the combined conversation; no network call.
pub trait CountTokens: AILanguageModel {
    /// What the implementation promises of a token-counting outcome.
    spec fn count_tokens_post(
        &self,
        inputs: Seq<PromptView>,
        r: Result<usize, AILanguageModelError>,
    ) -> bool;

    /// Count the tokens of the conversation history followed by `inputs`.
    fn count_tokens(&self, inputs: &[AILanguageModelPrompt]) -> (r: Result<
        usize,
        AILanguageModelError,
    >)
        ensures
            self.count_tokens_post(inputs.deep_view(), r),
    ;
}

} // verus!
