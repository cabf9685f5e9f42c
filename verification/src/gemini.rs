//! Remote provider adapter for the Gemini backend: request building,
//! one-shot response extraction, static capabilities and token counting.

use vstd::prelude::*;

use crate::error::{AILanguageModelError, AILanguageModelResult, SystemPromptErrorKind};
use crate::stream::CandidateView;
use crate::stream::GeminiCandidate;
use crate::template::build_gemma_prompt;
use crate::types::{
    AILanguageModelCapabilities, AILanguageModelCreateOptions, AILanguageModelPrompt,
    AILanguageModelPromptRole, CreateOptionsView, PromptView, resolve_spec,
};
use crate::{AILanguageModel, CountTokens};

verus! {

/// Relies on `tokenizers::Tokenizer`, the external tokenizer handle; opaque
/// to this crate, which only passes it to the encode call.
#[verifier::external_type_specification]
#[verifier::external_body]
pub struct ExTokenizer(tokenizers::Tokenizer);

/// The backend role of a forwarded turn.
#[derive(Debug, Clone, Copy, PartialEq, Eq, Structural)]
pub enum GeminiRole {
    User,
    Model,
}

/// Model of one turn of the assembled backend request.
pub struct ContentView {
    pub role: GeminiRole,
    pub text: Seq<char>,
}

/// One turn of the assembled backend request.
#[derive(Debug, Clone, PartialEq)]
pub struct GeminiContent {
    pub role: GeminiRole,
    pub text: String,
}

impl DeepView for GeminiContent {
    type V = ContentView;

    open spec fn deep_view(&self) -> ContentView {
        ContentView { role: self.role, text: self.text@ }
    }
}

/// Model of the assembled backend request.
pub struct GeminiRequestView {
    pub system_instruction: Option<Seq<char>>,
    pub contents: Seq<ContentView>,
    pub temperature_bits: u32,
    pub top_k: u32,
}

/// The backend's wire request, assembled from abstract prompts and options.
/// The transport layer turns this plain value into the backend client's own
/// request type.
#[derive(Debug, Clone, PartialEq)]
pub struct GeminiGenerateRequest {
    pub system_instruction: Option<String>,
    pub contents: Vec<GeminiContent>,
    pub temperature_bits: u32,
    pub top_k: u32,
}

impl DeepView for GeminiGenerateRequest {
    type V = GeminiRequestView;

    open spec fn deep_view(&self) -> GeminiRequestView {
        GeminiRequestView {
            system_instruction: self.system_instruction.deep_view(),
            contents: self.contents.deep_view(),
            temperature_bits: self.temperature_bits,
            top_k: self.top_k,
        }
    }
}

/// Whether some turn carries a content kind the backend does not take.
pub open spec fn prompt_has_unsupported(s: Seq<PromptView>) -> bool {
    exists|i: int| 0 <= i < s.len() && !(s[i] is Text)
}

/// What one turn contributes to the forwarded contents: text turns with the
/// User or Assistant role are forwarded, System-role turns are skipped.
pub open spec fn turn_contents(p: PromptView) -> Seq<ContentView> {
    match p {
        PromptView::Text { role, content } => {
            if role == AILanguageModelPromptRole::User {
                seq![ContentView { role: GeminiRole::User, text: content }]
            } else if role == AILanguageModelPromptRole::Assistant {
                seq![ContentView { role: GeminiRole::Model, text: content }]
            } else {
                Seq::empty()
            }
        },
        _ => Seq::empty(),
    }
}

/// The ordered turn list the backend receives.
pub open spec fn eligible_contents(s: Seq<PromptView>) -> Seq<ContentView>
    decreases s.len(),
{
    if s.len() == 0 {
        Seq::empty()
    } else {
        eligible_contents(s.drop_last()) + turn_contents(s.last())
    }
}

/// How an executable request-building outcome must relate to the model: a
/// resolver failure propagates, an unsupported content kind anywhere in the
/// combined turn list fails with a prompt-input error, and otherwise the
/// assembled request is pinned down exactly.
pub open spec fn build_result_matches(
    o: CreateOptionsView,
    inputs: Seq<PromptView>,
    r: Result<GeminiGenerateRequest, AILanguageModelError>,
) -> bool {
    let combined = o.initial_prompts + inputs;
    match resolve_spec(o) {
        Err(k) => {
            &&& r matches Err(e)
            &&& e matches AILanguageModelError::SystemPromptError(k2) && k2 == k
        },
        Ok(sys) => {
            if prompt_has_unsupported(combined) {
                &&& r matches Err(e)
                &&& e is PromptInputError
            } else {
                &&& r matches Ok(req)
                &&& req.deep_view() == GeminiRequestView {
                    system_instruction: sys,
                    contents: eligible_contents(combined),
                    temperature_bits: o.temperature_bits,
                    top_k: o.top_k,
                }
            }
        },
    }
}

/// The static capability record of the Gemini provider. Temperature and
/// top-p limits are IEEE-754 single-precision bit patterns: both temperature
/// limits are 1.0 and the default top-p is 0.95.
pub open spec fn gemini_capabilities() -> AILanguageModelCapabilities {
    AILanguageModelCapabilities {
        max_temperature_bits: 0x3F80_0000,
        max_top_k: 40,
        default_temperature_bits: 0x3F80_0000,
        default_top_k: 3,
        default_top_p_bits: 0x3F73_3333,
        max_tokens: 1_048_576,
    }
}

/// The text of a candidate, or empty when it carries none.
pub open spec fn candidate_text_or_empty(c: CandidateView) -> Seq<char> {
    match c.text {
        Some(t) => t,
        None => Seq::empty(),
    }
}

/// Extract the one-shot result from the backend's candidates: the first
/// candidate's text (empty when it carries none), or a provider error when
/// the response holds no candidate at all.
pub fn first_candidate_text(candidates: &Vec<GeminiCandidate>) -> (r: AILanguageModelResult<
    String,
>)
    ensures
        r is Ok <==> candidates@.len() > 0,
        r matches Ok(t) ==> t@ == candidate_text_or_empty(candidates.deep_view()[0]),
        r matches Err(e) ==> e is ProviderError,
{
    if candidates.len() == 0 {
        return Err(
            AILanguageModelError::ProviderError(String::from_str("No candidates in response.")),
        );
    }
    match &candidates[0].text {
        Some(t) => Ok(t.clone()),
        None => Ok(String::new()),
    }
}

/// Relies on `tokenizers::Tokenizer::encode`: encodes the text against the
/// tokenizer's vocabulary and returns how many tokens the encoding holds, or
/// the tokenizer's failure rendered as a string. The count depends on the
/// tokenizer value, so nothing is promised of it.
#[verifier::external_body]
fn tokenize_count(tokenizer: &tokenizers::Tokenizer, text: &str) -> Result<usize, String> {
    match tokenizer.encode(text, true) {
        Ok(encoding) => Ok(encoding.len()),
        Err(e) => Err(e.to_string()),
    }
}

/// The provider adapter for the Gemini backend. It owns the creation options
/// and the tokenizer handle used for local token counting; the network
/// client stays with the transport layer, which exchanges plain request and
/// response values with this adapter.
pub struct GeminiProvider {
    pub create_options: AILanguageModelCreateOptions,
    pub tokenizer: tokenizers::Tokenizer,
}

impl GeminiProvider {
    /// A provider over the given tokenizer handle and creation options.
    pub fn new(tokenizer: tokenizers::Tokenizer, options: AILanguageModelCreateOptions) -> (r:
        Self)
        ensures
            r.create_options.deep_view() == options.deep_view(),
    {
        GeminiProvider { tokenizer, create_options: options }
    }

    /// The conversation history followed by the call-time inputs: initial
    /// prompts always precede the per-call inputs.
    pub fn all_inputs(&self, inputs: &[AILanguageModelPrompt]) -> (r: Vec<AILanguageModelPrompt>)
        ensures
            r.deep_view() == self.create_options.initial_prompts.deep_view() + inputs.deep_view(),
    {
        let ghost ipv = self.create_options.initial_prompts.deep_view();
        let ghost iv = inputs.deep_view();
        let mut r: Vec<AILanguageModelPrompt> = Vec::new();
        let mut i: usize = 0;
        while i < self.create_options.initial_prompts.len()
            invariant
                ipv == self.create_options.initial_prompts.deep_view(),
                i <= self.create_options.initial_prompts.len(),
                r.deep_view() == ipv.take(i as int),
            decreases self.create_options.initial_prompts.len() - i,
        {
            let ghost r0 = r.deep_view();
            r.push(self.create_options.initial_prompts[i].duplicate());
            proof {
                assert(r.deep_view() =~= r0.push(ipv[i as int]));
                assert(ipv.take(i as int + 1) =~= ipv.take(i as int).push(ipv[i as int]));
            }
            i = i + 1;
        }
        proof {
            assert(ipv.take(ipv.len() as int) =~= ipv);
        }
        let mut j: usize = 0;
        while j < inputs.len()
            invariant
                ipv == self.create_options.initial_prompts.deep_view(),
                iv == inputs.deep_view(),
                j <= inputs.len(),
                r.deep_view() == ipv + iv.take(j as int),
            decreases inputs.len() - j,
        {
            let ghost r0 = r.deep_view();
            r.push(inputs[j].duplicate());
            proof {
                assert(r.deep_view() =~= r0.push(iv[j as int]));
                assert(iv.take(j as int + 1) =~= iv.take(j as int).push(iv[j as int]));
                assert(ipv + iv.take(j as int + 1) =~= (ipv + iv.take(j as int)).push(
                    iv[j as int],
                ));
            }
            j = j + 1;
        }
        proof {
            assert(iv.take(iv.len() as int) =~= iv);
        }
        r
    }

    /// Assemble the backend's wire request: resolve the system prompt,
    /// forward the eligible turns of history-then-inputs in order, and set
    /// the sampling parameters from the creation options.
    pub fn build_gemini_request(&self, inputs: &[AILanguageModelPrompt]) -> (r:
        AILanguageModelResult<GeminiGenerateRequest>)
        ensures
            build_result_matches(self.create_options.deep_view(), inputs.deep_view(), r),
    {
        let system_instruction = match self.create_options.system_prompt_text() {
            Ok(s) => s,
            Err(e) => {
                return Err(e);
            },
        };
        let all = self.all_inputs(inputs);
        let ghost cv = all.deep_view();
        let mut contents: Vec<GeminiContent> = Vec::new();
        let mut i: usize = 0;
        while i < all.len()
            invariant
                cv == all.deep_view(),
                cv == self.create_options.initial_prompts.deep_view() + inputs.deep_view(),
                resolve_spec(self.create_options.deep_view()) == Ok::<
                    Option<Seq<char>>,
                    SystemPromptErrorKind,
                >(system_instruction.deep_view()),
                i <= all.len(),
                contents.deep_view() == eligible_contents(cv.take(i as int)),
                forall|k: int| 0 <= k < i ==> cv[k] is Text,
            decreases all.len() - i,
        {
            let ghost c0 = contents.deep_view();
            proof {
                assert(cv.take(i as int + 1).drop_last() =~= cv.take(i as int));
                assert(cv.take(i as int + 1).last() == cv[i as int]);
                assert(all[i as int].deep_view() == cv[i as int]);
            }
            match &all[i] {
                AILanguageModelPrompt::Text { role, content } => {
                    if *role == AILanguageModelPromptRole::User {
                        contents.push(GeminiContent { role: GeminiRole::User, text: content.clone() });
                        proof {
                            assert(contents.deep_view() =~= c0 + turn_contents(cv[i as int]));
                        }
                    } else if *role == AILanguageModelPromptRole::Assistant {
                        contents.push(
                            GeminiContent { role: GeminiRole::Model, text: content.clone() },
                        );
                        proof {
                            assert(contents.deep_view() =~= c0 + turn_contents(cv[i as int]));
                        }
                    } else {
                        proof {
                            assert(contents.deep_view() =~= c0 + turn_contents(cv[i as int]));
                        }
                    }
                },
                _ => {
                    proof {
                        assert(!(cv[i as int] is Text));
                        assert(prompt_has_unsupported(cv)) by {
                            assert((i as int) < cv.len() && !(cv[i as int] is Text));
                        }
                    }
                    return Err(AILanguageModelError::PromptInputError("Unsupported input type"));
                },
            }
            i = i + 1;
        }
        proof {
            assert(cv.take(cv.len() as int) =~= cv);
        }
        Ok(
            GeminiGenerateRequest {
                system_instruction,
                contents,
                temperature_bits: self.create_options.temperature_bits,
                top_k: self.create_options.top_k,
            },
        )
    }
}

impl AILanguageModel for GeminiProvider {
    open spec fn options_view(&self) -> CreateOptionsView {
        self.create_options.deep_view()
    }

    open spec fn capabilities_spec() -> AILanguageModelCapabilities {
        gemini_capabilities()
    }

    fn create_options(&mut self, options: AILanguageModelCreateOptions) {
        self.create_options = options;
    }

    fn capabilities() -> AILanguageModelCapabilities {
        AILanguageModelCapabilities {
            max_temperature_bits: 0x3F80_0000,
            max_top_k: 40,
            default_temperature_bits: 0x3F80_0000,
            default_top_k: 3,
            default_top_p_bits: 0x3F73_3333,
            max_tokens: 1_048_576,
        }
    }
}

impl CountTokens for GeminiProvider {
    open spec fn count_tokens_post(
        &self,
        inputs: Seq<PromptView>,
        r: Result<usize, AILanguageModelError>,
    ) -> bool {
        match r {
            Ok(_) => resolve_spec(self.options_view()) is Ok,
            Err(e) => match e {
                AILanguageModelError::SystemPromptError(k) => resolve_spec(self.options_view())
                    == Err::<Option<Seq<char>>, SystemPromptErrorKind>(k),
                AILanguageModelError::ProviderError(_) => resolve_spec(self.options_view()) is Ok,
                AILanguageModelError::PromptInputError(_) => false,
            },
        }
    }

    fn count_tokens(&self, inputs: &[AILanguageModelPrompt]) -> Result<
        usize,
        AILanguageModelError,
    > {
        let all = self.all_inputs(inputs);
        let prompt = match build_gemma_prompt(&self.create_options, all.as_slice()) {
            Ok(p) => p,
            Err(e) => {
                return Err(e);
            },
        };
        match tokenize_count(&self.tokenizer, prompt.as_str()) {
            Ok(n) => Ok(n),
            Err(m) => Err(AILanguageModelError::ProviderError(m)),
        }
    }
}

/// A content kind the backend does not take makes request building fail with
/// a prompt-input error, whatever the other inputs hold, whenever the
/// options themselves resolve.
pub proof fn lemma_build_request_unsupported_input(
    o: CreateOptionsView,
    inputs: Seq<PromptView>,
    r: Result<GeminiGenerateRequest, AILanguageModelError>,
    i: int,
)
    requires
        build_result_matches(o, inputs, r),
        resolve_spec(o) is Ok,
        0 <= i < inputs.len(),
        !(inputs[i] is Text),
    ensures
        r matches Err(e) && e is PromptInputError,
{
    let combined = o.initial_prompts + inputs;
    assert(combined[o.initial_prompts.len() + i] == inputs[i]);
    assert(prompt_has_unsupported(combined));
}

} // verus!
