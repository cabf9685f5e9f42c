//! Prompt and options data model, and the system-prompt resolver.

use vstd::prelude::*;

use crate::error::{AILanguageModelError, SystemPromptErrorKind};

verus! {

/// Role of one conversation turn.
#[derive(Debug, Default, Clone, Copy, PartialEq, Eq, Structural)]
pub enum AILanguageModelPromptRole {
    System,
    #[default]
    User,
    Assistant,
}

impl DeepView for AILanguageModelPromptRole {
    type V = AILanguageModelPromptRole;

    open spec fn deep_view(&self) -> AILanguageModelPromptRole {
        *self
    }
}

/// Mathematical model of one prompt turn: a role together with the active
/// content kind. Text content is a character sequence; image and audio
/// content are raw bytes.
pub enum PromptView {
    Text { role: AILanguageModelPromptRole, content: Seq<char> },
    Image { role: AILanguageModelPromptRole, content: Seq<u8> },
    Audio { role: AILanguageModelPromptRole, content: Seq<u8> },
}

impl PromptView {
    pub open spec fn role(self) -> AILanguageModelPromptRole {
        match self {
            PromptView::Text { role, .. } => role,
            PromptView::Image { role, .. } => role,
            PromptView::Audio { role, .. } => role,
        }
    }

    pub open spec fn is_system(self) -> bool {
        self.role() == AILanguageModelPromptRole::System
    }
}

/// One prompt turn. Exactly one content kind is active; the role is present
/// for every kind.
#[derive(Debug, Clone, PartialEq)]
pub enum AILanguageModelPrompt {
    Text { role: AILanguageModelPromptRole, content: String },
    Image { role: AILanguageModelPromptRole, content: Vec<u8> },
    Audio { role: AILanguageModelPromptRole, content: Vec<u8> },
}

impl DeepView for AILanguageModelPrompt {
    type V = PromptView;

    open spec fn deep_view(&self) -> PromptView {
        match self {
            AILanguageModelPrompt::Text { role, content } => PromptView::Text {
                role: *role,
                content: content@,
            },
            AILanguageModelPrompt::Image { role, content } => PromptView::Image {
                role: *role,
                content: content@,
            },
            AILanguageModelPrompt::Audio { role, content } => PromptView::Audio {
                role: *role,
                content: content@,
            },
        }
    }
}

impl AILanguageModelPrompt {
    /// Whether this turn carries the System role, whatever its content kind.
    pub fn is_system_prompt(&self) -> (r: bool)
        ensures
            r == self.deep_view().is_system(),
    {
        let role = match self {
            AILanguageModelPrompt::Text { role, .. } => role,
            AILanguageModelPrompt::Image { role, .. } => role,
            AILanguageModelPrompt::Audio { role, .. } => role,
        };
        *role == AILanguageModelPromptRole::System
    }
}

/// An owned copy of a byte vector.
fn clone_bytes(v: &Vec<u8>) -> (r: Vec<u8>)
    ensures
        r@ == v@,
{
    let mut r: Vec<u8> = Vec::new();
    let mut i: usize = 0;
    while i < v.len()
        invariant
            i <= v.len(),
            r@ == v@.take(i as int),
        decreases v.len() - i,
    {
        r.push(v[i]);
        proof {
            assert(v@.take(i as int + 1) =~= v@.take(i as int).push(v@[i as int]));
        }
        i = i + 1;
    }
    proof {
        assert(v@.take(v@.len() as int) =~= v@);
    }
    r
}

impl AILanguageModelPrompt {
    /// An owned copy of this prompt, with the same model.
    pub fn duplicate(&self) -> (r: Self)
        ensures
            r.deep_view() == self.deep_view(),
    {
        match self {
            AILanguageModelPrompt::Text { role, content } => AILanguageModelPrompt::Text {
                role: *role,
                content: content.clone(),
            },
            AILanguageModelPrompt::Image { role, content } => AILanguageModelPrompt::Image {
                role: *role,
                content: clone_bytes(content),
            },
            AILanguageModelPrompt::Audio { role, content } => AILanguageModelPrompt::Audio {
                role: *role,
                content: clone_bytes(content),
            },
        }
    }
}

/// Model of one expected-input declaration.
pub struct ExpectedInputView {
    pub kind: ExpectedInputKind,
    pub languages: Seq<Seq<char>>,
}

/// The content kind an expected-input declaration announces.
#[derive(Debug, Clone, Copy, PartialEq, Eq, Structural)]
pub enum ExpectedInputKind {
    Text,
    Image,
    Audio,
}

/// A declaration of the content kind and languages a session will send.
#[derive(Debug, Clone, PartialEq)]
pub enum AILanguageModelExpectedInput {
    Text { languages: Vec<String> },
    Image { languages: Vec<String> },
    Audio { languages: Vec<String> },
}

impl DeepView for AILanguageModelExpectedInput {
    type V = ExpectedInputView;

    open spec fn deep_view(&self) -> ExpectedInputView {
        match self {
            AILanguageModelExpectedInput::Text { languages } => ExpectedInputView {
                kind: ExpectedInputKind::Text,
                languages: languages.deep_view(),
            },
            AILanguageModelExpectedInput::Image { languages } => ExpectedInputView {
                kind: ExpectedInputKind::Image,
                languages: languages.deep_view(),
            },
            AILanguageModelExpectedInput::Audio { languages } => ExpectedInputView {
                kind: ExpectedInputKind::Audio,
                languages: languages.deep_view(),
            },
        }
    }
}

/// Mathematical model of the creation options.
pub struct CreateOptionsView {
    pub temperature_bits: u32,
    pub top_k: u32,
    pub expected_inputs: Seq<ExpectedInputView>,
    pub system_prompt: Option<Seq<char>>,
    pub initial_prompts: Seq<PromptView>,
}

/// Aggregate creation options of a language-model session.
///
/// The sampling temperature is carried opaquely as the bit pattern of an
/// IEEE-754 single-precision number: this crate never computes with it, it
/// only hands it through to the backend request.
#[derive(Debug, Default, Clone, PartialEq)]
pub struct AILanguageModelCreateOptions {
    pub temperature_bits: u32,
    pub top_k: u32,
    pub expected_inputs: Vec<AILanguageModelExpectedInput>,
    pub system_prompt: Option<String>,
    pub initial_prompts: Vec<AILanguageModelPrompt>,
}

impl DeepView for AILanguageModelCreateOptions {
    type V = CreateOptionsView;

    open spec fn deep_view(&self) -> CreateOptionsView {
        CreateOptionsView {
            temperature_bits: self.temperature_bits,
            top_k: self.top_k,
            expected_inputs: self.expected_inputs.deep_view(),
            system_prompt: self.system_prompt.deep_view(),
            initial_prompts: self.initial_prompts.deep_view(),
        }
    }
}

/// Static per-provider limits, exposed for client introspection.
///
/// Temperature and top-p limits are carried as IEEE-754 single-precision bit
/// patterns, as in [`AILanguageModelCreateOptions`].
#[derive(Debug, Default, Clone, Copy, PartialEq, Eq, Structural)]
pub struct AILanguageModelCapabilities {
    pub max_temperature_bits: u32,
    pub max_top_k: u32,
    pub default_temperature_bits: u32,
    pub default_top_k: u32,
    pub default_top_p_bits: u32,
    pub max_tokens: u32,
}

/// Model of one unit of a streaming response.
pub struct ResponseChunkView {
    pub text: Option<Seq<char>>,
    pub finished: bool,
}

/// One unit of a streaming response: an optional text fragment and a flag
/// marking the final chunk. A finished chunk may carry no text.
#[derive(Debug, Default, Clone, PartialEq)]
pub struct AILanguageModelResponsChunk {
    pub text: Option<String>,
    pub finished: bool,
}

impl DeepView for AILanguageModelResponsChunk {
    type V = ResponseChunkView;

    open spec fn deep_view(&self) -> ResponseChunkView {
        ResponseChunkView { text: self.text.deep_view(), finished: self.finished }
    }
}

/// How many of the prompts carry the System role.
pub open spec fn num_system_prompts(s: Seq<PromptView>) -> nat
    decreases s.len(),
{
    if s.len() == 0 {
        0
    } else {
        (if s[0].is_system() {
            1nat
        } else {
            0nat
        }) + num_system_prompts(s.drop_first())
    }
}

/// The first prompt that carries the System role.
pub open spec fn first_system_prompt(s: Seq<PromptView>) -> PromptView
    recommends
        num_system_prompts(s) > 0,
    decreases s.len(),
{
    if s.len() == 0 {
        arbitrary()
    } else if s[0].is_system() {
        s[0]
    } else {
        first_system_prompt(s.drop_first())
    }
}

/// The effective system prompt of the given options, resolved from the two
/// possible sources: the explicit field and the System-role initial prompts.
pub open spec fn resolve_spec(o: CreateOptionsView) -> Result<
    Option<Seq<char>>,
    SystemPromptErrorKind,
> {
    let n = num_system_prompts(o.initial_prompts);
    if o.system_prompt is Some {
        if n > 0 {
            Err(SystemPromptErrorKind::AlreadySet)
        } else {
            Ok(o.system_prompt)
        }
    } else if n > 1 {
        Err(SystemPromptErrorKind::TooMany)
    } else if n == 0 {
        Ok(None)
    } else {
        match first_system_prompt(o.initial_prompts) {
            PromptView::Text { content, .. } => Ok(Some(content)),
            _ => Err(SystemPromptErrorKind::NotText),
        }
    }
}

/// How an executable resolver outcome must relate to [`resolve_spec`].
pub open spec fn resolve_result_matches(
    o: CreateOptionsView,
    r: Result<Option<String>, AILanguageModelError>,
) -> bool {
    match r {
        Ok(s) => resolve_spec(o) == Ok::<Option<Seq<char>>, SystemPromptErrorKind>(s.deep_view()),
        Err(e) => {
            &&& e matches AILanguageModelError::SystemPromptError(k)
            &&& resolve_spec(o) == Err::<Option<Seq<char>>, SystemPromptErrorKind>(k)
        },
    }
}

impl AILanguageModelCreateOptions {
    /// Resolve the effective system prompt (the resolver of the core).
    ///
    /// Exactly one of the two sources may be populated: the explicit field
    /// wins only when no System-role initial prompt exists; without the
    /// explicit field a single System-role text prompt supplies the value.
    pub fn system_prompt_text(&self) -> (r: Result<Option<String>, AILanguageModelError>)
        ensures
            resolve_result_matches(self.deep_view(), r),
    {
        let ghost pv = self.initial_prompts.deep_view();
        let n = self.initial_prompts.len();
        let mut count: usize = 0;
        let mut first: Option<usize> = None;
        let mut i: usize = 0;
        proof {
            assert(pv.skip(0) =~= pv);
        }
        while i < n
            invariant
                n == self.initial_prompts.len(),
                pv == self.initial_prompts.deep_view(),
                i <= n,
                count <= i,
                count + num_system_prompts(pv.skip(i as int)) == num_system_prompts(pv),
                first is None ==> count == 0,
                count == 0 ==> num_system_prompts(pv) == num_system_prompts(pv.skip(i as int)),
                count == 0 ==> first_system_prompt(pv) == first_system_prompt(pv.skip(i as int)),
                first matches Some(j) ==> j < i && pv[j as int].is_system() && pv[j as int]
                    == first_system_prompt(pv) && count >= 1,
            decreases n - i,
        {
            proof {
                assert(pv.skip(i as int).drop_first() =~= pv.skip(i + 1));
                assert(pv.skip(i as int)[0] == pv[i as int]);
            }
            if self.initial_prompts[i].is_system_prompt() {
                if first.is_none() {
                    first = Some(i);
                }
                count = count + 1;
            }
            i = i + 1;
        }
        proof {
            assert(pv.skip(n as int) =~= Seq::<PromptView>::empty());
        }

        if self.system_prompt.is_some() {
            if count > 0 {
                return Err(AILanguageModelError::SystemPromptError(
                    SystemPromptErrorKind::AlreadySet,
                ));
            }
            return Ok(self.system_prompt.clone());
        }

        if count > 1 {
            return Err(AILanguageModelError::SystemPromptError(SystemPromptErrorKind::TooMany));
        }

        let j = match first {
            Some(j) => j,
            None => {
                return Ok(None);
            },
        };

        match &self.initial_prompts[j] {
            AILanguageModelPrompt::Text { content, .. } => Ok(Some(content.clone())),
            _ => Err(AILanguageModelError::SystemPromptError(SystemPromptErrorKind::NotText)),
        }
    }
}

/// There is a System-role prompt exactly when the count is positive.
pub proof fn lemma_num_system_prompts_exists(s: Seq<PromptView>)
    ensures
        num_system_prompts(s) > 0 <==> exists|i: int| 0 <= i < s.len() && s[i].is_system(),
    decreases s.len(),
{
    if s.len() > 0 {
        lemma_num_system_prompts_exists(s.drop_first());
        if s[0].is_system() {
        } else if num_system_prompts(s.drop_first()) > 0 {
            let i = choose|i: int|
                0 <= i < s.drop_first().len() && s.drop_first()[i].is_system();
            assert(s[i + 1].is_system());
        } else {
            assert forall|i: int| 0 <= i < s.len() implies !s[i].is_system() by {
                if i > 0 {
                    assert(s.drop_first()[i - 1] == s[i]);
                }
            }
        }
    }
}

/// The first System-role prompt is itself a System-role element of the list.
pub proof fn lemma_first_system_prompt_in(s: Seq<PromptView>)
    requires
        num_system_prompts(s) > 0,
    ensures
        exists|i: int| 0 <= i < s.len() && s[i] == first_system_prompt(s)
            && s[i].is_system(),
    decreases s.len(),
{
    if s[0].is_system() {
        assert(s[0] == first_system_prompt(s));
    } else {
        lemma_first_system_prompt_in(s.drop_first());
        let i = choose|i: int|
            0 <= i < s.drop_first().len() && s.drop_first()[i] == first_system_prompt(
                s.drop_first(),
            ) && s.drop_first()[i].is_system();
        assert(s[i + 1] == first_system_prompt(s));
    }
}

/// With both an explicit system prompt and a System-role initial prompt,
/// resolution fails: the two sources are in conflict.
pub proof fn lemma_resolve_already_set(o: CreateOptionsView)
    requires
        o.system_prompt is Some,
        exists|i: int| 0 <= i < o.initial_prompts.len() && o.initial_prompts[i].is_system(),
    ensures
        resolve_spec(o) == Err::<Option<Seq<char>>, SystemPromptErrorKind>(
            SystemPromptErrorKind::AlreadySet,
        ),
{
    lemma_num_system_prompts_exists(o.initial_prompts);
}

/// With no explicit system prompt and two or more System-role initial
/// prompts, resolution fails: only one system prompt is allowed.
pub proof fn lemma_resolve_too_many(o: CreateOptionsView)
    requires
        o.system_prompt is None,
        num_system_prompts(o.initial_prompts) >= 2,
    ensures
        resolve_spec(o) == Err::<Option<Seq<char>>, SystemPromptErrorKind>(
            SystemPromptErrorKind::TooMany,
        ),
{
}

/// With no explicit system prompt and exactly one System-role initial prompt
/// that is not a text prompt, resolution fails: a system prompt must be text.
pub proof fn lemma_resolve_not_text(o: CreateOptionsView)
    requires
        o.system_prompt is None,
        num_system_prompts(o.initial_prompts) == 1,
        forall|i: int| 0 <= i < o.initial_prompts.len() && o.initial_prompts[i].is_system()
            ==> !(o.initial_prompts[i] is Text),
    ensures
        resolve_spec(o) == Err::<Option<Seq<char>>, SystemPromptErrorKind>(
            SystemPromptErrorKind::NotText,
        ),
{
    lemma_first_system_prompt_in(o.initial_prompts);
}

/// With no system-prompt source at all, resolution returns `None`.
pub proof fn lemma_resolve_none(o: CreateOptionsView)
    requires
        o.system_prompt is None,
        num_system_prompts(o.initial_prompts) == 0,
    ensures
        resolve_spec(o) == Ok::<Option<Seq<char>>, SystemPromptErrorKind>(None),
{
}

} // verus!
