//! Gemma-style prompt template, used only for local token counting.

use vstd::prelude::*;

use crate::error::{AILanguageModelError, AILanguageModelResult};
use crate::types::{
    AILanguageModelCreateOptions, AILanguageModelPrompt, AILanguageModelPromptRole,
    CreateOptionsView, PromptView, resolve_spec,
};

verus! {

/// Only text turns with the User or Assistant role are rendered.
pub open spec fn turn_is_eligible(p: PromptView) -> bool {
    &&& p is Text
    &&& (p.role() == AILanguageModelPromptRole::User || p.role()
        == AILanguageModelPromptRole::Assistant)
}

/// The template role label of an eligible turn.
pub open spec fn turn_role_name(p: PromptView) -> Seq<char> {
    if p.role() == AILanguageModelPromptRole::User {
        "user"@
    } else {
        "model"@
    }
}

/// One rendered turn. The resolved system prompt, when present, is inserted
/// after the role line and before the turn's own content.
pub open spec fn gemma_turn(sys: Option<Seq<char>>, p: PromptView) -> Seq<char>
    recommends
        turn_is_eligible(p),
{
    "<start_of_turn>"@ + turn_role_name(p) + "\n"@ + (match sys {
        Some(s) => s + "\n\n"@,
        None => Seq::<char>::empty(),
    }) + p->Text_content + "<end_of_turn>\n"@
}

/// The rendered conversation: one block per eligible turn, with the system
/// prompt hosted by the first rendered turn only. When no turn is eligible
/// the result is empty and the system prompt is dropped.
pub open spec fn gemma_render(sys: Option<Seq<char>>, prompts: Seq<PromptView>) -> Seq<char>
    decreases prompts.len(),
{
    if prompts.len() == 0 {
        Seq::<char>::empty()
    } else if turn_is_eligible(prompts[0]) {
        gemma_turn(sys, prompts[0]) + gemma_render(None, prompts.drop_first())
    } else {
        gemma_render(sys, prompts.drop_first())
    }
}

/// With no eligible turn at all, the rendering is empty — even when a system
/// prompt is present, it has no host turn and is dropped.
pub proof fn lemma_gemma_render_no_eligible_turn(sys: Option<Seq<char>>, prompts: Seq<PromptView>)
    requires
        forall|i: int| 0 <= i < prompts.len() ==> !turn_is_eligible(prompts[i]),
    ensures
        gemma_render(sys, prompts) == Seq::<char>::empty(),
    decreases prompts.len(),
{
    if prompts.len() > 0 {
        assert(forall|i: int|
            0 <= i < prompts.drop_first().len() ==> prompts.drop_first()[i] == prompts[i + 1]);
        lemma_gemma_render_no_eligible_turn(sys, prompts.drop_first());
    }
}

/// How an executable rendering outcome must relate to [`gemma_render`].
pub open spec fn render_result_matches(
    o: CreateOptionsView,
    inputs: Seq<PromptView>,
    r: Result<String, AILanguageModelError>,
) -> bool {
    match r {
        Ok(s) => {
            &&& resolve_spec(o) matches Ok(sys)
            &&& s@ == gemma_render(sys, inputs)
        },
        Err(e) => {
            &&& e matches AILanguageModelError::SystemPromptError(k)
            &&& resolve_spec(o) == Err::<Option<Seq<char>>, crate::error::SystemPromptErrorKind>(k)
        },
    }
}

/// Render the whole conversation through the Gemma template: the resolved
/// system prompt, then one delimited block per eligible turn of `inputs`.
pub fn build_gemma_prompt(
    create_options: &AILanguageModelCreateOptions,
    inputs: &[AILanguageModelPrompt],
) -> (r: AILanguageModelResult<String>)
    ensures
        render_result_matches(create_options.deep_view(), inputs.deep_view(), r),
{
    let resolved = match create_options.system_prompt_text() {
        Ok(s) => s,
        Err(e) => {
            return Err(e);
        },
    };
    let ghost sys0 = resolved.deep_view();
    let ghost iv = inputs.deep_view();

    let mut prompt = String::new();
    let mut system_prompt = resolved;
    let mut i: usize = 0;
    proof {
        assert(iv.skip(0) =~= iv);
    }
    while i < inputs.len()
        invariant
            iv == inputs.deep_view(),
            i <= inputs.len(),
            prompt@ + gemma_render(system_prompt.deep_view(), iv.skip(i as int)) == gemma_render(
                sys0,
                iv,
            ),
        decreases inputs.len() - i,
    {
        let ghost prompt0 = prompt@;
        let ghost sysv0 = system_prompt.deep_view();
        proof {
            assert(iv.skip(i as int)[0] == iv[i as int]);
            assert(iv.skip(i as int).drop_first() =~= iv.skip(i as int + 1));
        }
        match &inputs[i] {
            AILanguageModelPrompt::Text { role, content } => {
                let is_user = *role == AILanguageModelPromptRole::User;
                let is_assistant = *role == AILanguageModelPromptRole::Assistant;
                if is_user || is_assistant {
                    prompt.append("<start_of_turn>");
                    prompt.append(if is_user {
                        "user"
                    } else {
                        "model"
                    });
                    prompt.append("\n");
                    match &system_prompt {
                        Some(s) => {
                            prompt.append(s.as_str());
                            prompt.append("\n\n");
                        },
                        None => {},
                    }
                    system_prompt = None;
                    prompt.append(content.as_str());
                    prompt.append("<end_of_turn>\n");
                    proof {
                        assert(turn_is_eligible(iv[i as int]));
                        assert(prompt@ =~= prompt0 + gemma_turn(sysv0, iv[i as int]));
                        assert(gemma_render(sysv0, iv.skip(i as int)) == gemma_turn(
                            sysv0,
                            iv[i as int],
                        ) + gemma_render(None, iv.skip(i as int + 1)));
                        assert(prompt@ + gemma_render(None, iv.skip(i as int + 1)) =~= prompt0
                            + gemma_render(sysv0, iv.skip(i as int)));
                    }
                } else {
                    proof {
                        assert(!turn_is_eligible(iv[i as int]));
                    }
                }
            },
            _ => {
                proof {
                    assert(!turn_is_eligible(iv[i as int]));
                }
            },
        }
        i = i + 1;
    }
    proof {
        assert(iv.skip(inputs.deep_view().len() as int) =~= Seq::<PromptView>::empty());
    }
    Ok(prompt)
}

} // verus!
