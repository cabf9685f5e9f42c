use built_in_hybrid_server::codec::deserialize_expected_input;
use built_in_hybrid_server::codec::deserialize_prompt;
use built_in_hybrid_server::codec::serialize_expected_input;
use built_in_hybrid_server::codec::serialize_prompt;
use built_in_hybrid_server::error::AILanguageModelError;
use built_in_hybrid_server::error::SystemPromptErrorKind;
use built_in_hybrid_server::types::AILanguageModelCreateOptions;
use built_in_hybrid_server::types::AILanguageModelExpectedInput;
use built_in_hybrid_server::types::AILanguageModelPrompt;
use built_in_hybrid_server::types::AILanguageModelPromptRole;

#[test]
fn serializes_ai_language_model_prompt_dict() {
    let prompt = AILanguageModelPrompt::Text {
        role: AILanguageModelPromptRole::default(),
        content: "Hello, world!".to_string(),
    };

    assert_eq!(
        serialize_prompt(&prompt),
        r#"{"type":"text","role":"user","content":"Hello, world!"}"#
    );
}

#[test]
fn deserializes_ai_language_model_prompt_dict() {
    let prompt = deserialize_prompt(r#"{"type":"text","role":"user","content":"Hello, world!"}"#)
        .unwrap();

    assert_eq!(
        prompt,
        AILanguageModelPrompt::Text {
            role: AILanguageModelPromptRole::default(),
            content: "Hello, world!".to_string(),
        }
    );
}

#[test]
fn serialize_ai_language_model_expected_input() {
    let input = AILanguageModelExpectedInput::Text {
        languages: vec!["en".to_string()],
    };
    assert_eq!(
        serialize_expected_input(&input),
        r#"{"type":"text","languages":["en"]}"#
    )
}

#[test]
fn deserialize_ai_language_model_expected_input() {
    let input = deserialize_expected_input(r#"{"type":"text","languages":["en"]}"#).unwrap();

    assert_eq!(
        input,
        AILanguageModelExpectedInput::Text {
            languages: vec!["en".to_string()],
        }
    );
}

fn text(role: AILanguageModelPromptRole, content: &str) -> AILanguageModelPrompt {
    AILanguageModelPrompt::Text {
        role,
        content: content.to_string(),
    }
}

fn options_with(
    system_prompt: Option<&str>,
    initial_prompts: Vec<AILanguageModelPrompt>,
) -> AILanguageModelCreateOptions {
    AILanguageModelCreateOptions {
        temperature_bits: 0,
        top_k: 0,
        expected_inputs: vec![],
        system_prompt: system_prompt.map(|s| s.to_string()),
        initial_prompts,
    }
}

#[test]
fn resolver_rejects_two_sources() {
    let options = options_with(
        Some("explicit"),
        vec![text(AILanguageModelPromptRole::System, "initial")],
    );
    let err = options.system_prompt_text().unwrap_err();
    assert!(matches!(
        err,
        AILanguageModelError::SystemPromptError(SystemPromptErrorKind::AlreadySet)
    ));
}

#[test]
fn resolver_rejects_two_initial_system_prompts() {
    let options = options_with(
        None,
        vec![
            text(AILanguageModelPromptRole::System, "one"),
            text(AILanguageModelPromptRole::User, "hi"),
            text(AILanguageModelPromptRole::System, "two"),
        ],
    );
    let err = options.system_prompt_text().unwrap_err();
    assert!(matches!(
        err,
        AILanguageModelError::SystemPromptError(SystemPromptErrorKind::TooMany)
    ));
}

#[test]
fn resolver_rejects_non_text_system_prompt() {
    let options = options_with(
        None,
        vec![AILanguageModelPrompt::Image {
            role: AILanguageModelPromptRole::System,
            content: vec![1, 2, 3],
        }],
    );
    let err = options.system_prompt_text().unwrap_err();
    assert!(matches!(
        err,
        AILanguageModelError::SystemPromptError(SystemPromptErrorKind::NotText)
    ));
}

#[test]
fn resolver_returns_none_without_sources() {
    let options = options_with(None, vec![text(AILanguageModelPromptRole::User, "hi")]);
    assert_eq!(options.system_prompt_text().unwrap(), None);
}

#[test]
fn resolver_returns_explicit_system_prompt() {
    let options = options_with(Some("explicit"), vec![]);
    assert_eq!(
        options.system_prompt_text().unwrap(),
        Some("explicit".to_string())
    );
}

#[test]
fn resolver_returns_single_initial_system_prompt() {
    let options = options_with(
        None,
        vec![
            text(AILanguageModelPromptRole::User, "hi"),
            text(AILanguageModelPromptRole::System, "from history"),
        ],
    );
    assert_eq!(
        options.system_prompt_text().unwrap(),
        Some("from history".to_string())
    );
}

#[test]
fn is_system_prompt_looks_at_the_role_only() {
    assert!(text(AILanguageModelPromptRole::System, "x").is_system_prompt());
    assert!(!text(AILanguageModelPromptRole::User, "x").is_system_prompt());
    let image = AILanguageModelPrompt::Image {
        role: AILanguageModelPromptRole::System,
        content: vec![],
    };
    assert!(image.is_system_prompt());
}

#[test]
fn error_messages_and_status_codes() {
    let already = AILanguageModelError::SystemPromptError(SystemPromptErrorKind::AlreadySet);
    assert_eq!(already.message(), "System prompt is already set.");
    assert_eq!(already.status_code(), 400);

    let too_many = AILanguageModelError::SystemPromptError(SystemPromptErrorKind::TooMany);
    assert_eq!(too_many.message(), "Only one system prompt is allowed.");

    let not_text = AILanguageModelError::SystemPromptError(SystemPromptErrorKind::NotText);
    assert_eq!(not_text.message(), "System prompt is not a text prompt.");

    let input = AILanguageModelError::PromptInputError("Unsupported input type");
    assert_eq!(input.message(), "Unsupported input type");
    assert_eq!(input.status_code(), 400);

    let provider = AILanguageModelError::ProviderError("backend failed".to_string());
    assert_eq!(provider.message(), "backend failed");
    assert_eq!(provider.status_code(), 500);
}
