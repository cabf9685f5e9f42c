use built_in_hybrid_server::AILanguageModel;
use built_in_hybrid_server::CountTokens;
use built_in_hybrid_server::error::AILanguageModelError;
use built_in_hybrid_server::gemini::GeminiProvider;
use built_in_hybrid_server::gemini::GeminiRole;
use built_in_hybrid_server::gemini::first_candidate_text;
use built_in_hybrid_server::stream::GeminiCandidate;
use built_in_hybrid_server::template::build_gemma_prompt;
use built_in_hybrid_server::types::AILanguageModelCreateOptions;
use built_in_hybrid_server::types::AILanguageModelPrompt;
use built_in_hybrid_server::types::AILanguageModelPromptRole;

fn text(role: AILanguageModelPromptRole, content: &str) -> AILanguageModelPrompt {
    AILanguageModelPrompt::Text {
        role,
        content: content.to_string(),
    }
}

fn options_with(
    system_prompt: Option<&str>,
    initial_prompts: Vec<AILanguageModelPrompt>,
) -> AILanguageModelCreateOptions {
    AILanguageModelCreateOptions {
        temperature_bits: 1.0f32.to_bits(),
        top_k: 3,
        expected_inputs: vec![],
        system_prompt: system_prompt.map(|s| s.to_string()),
        initial_prompts,
    }
}

// A small word-level tokenizer, enough to exercise local token counting.
fn test_tokenizer() -> tokenizers::Tokenizer {
    let spec = r#"{"version":"1.0","truncation":null,"padding":null,"added_tokens":[],"normalizer":null,"pre_tokenizer":{"type":"Whitespace"},"post_processor":null,"decoder":null,"model":{"type":"WordLevel","vocab":{"[UNK]":0,"hello":1,"world":2},"unk_token":"[UNK]"}}"#;
    tokenizers::Tokenizer::from_bytes(spec.as_bytes()).unwrap()
}

#[test]
fn request_keeps_history_before_inputs() {
    let provider = GeminiProvider::new(
        test_tokenizer(),
        options_with(None, vec![text(AILanguageModelPromptRole::Assistant, "hi")]),
    );
    let request = provider
        .build_gemini_request(&[text(AILanguageModelPromptRole::User, "hello")])
        .unwrap();

    assert_eq!(request.contents.len(), 2);
    assert_eq!(request.contents[0].role, GeminiRole::Model);
    assert_eq!(request.contents[0].text, "hi");
    assert_eq!(request.contents[1].role, GeminiRole::User);
    assert_eq!(request.contents[1].text, "hello");
    assert_eq!(request.system_instruction, None);
    assert_eq!(request.temperature_bits, 1.0f32.to_bits());
    assert_eq!(request.top_k, 3);
}

#[test]
fn request_attaches_resolved_system_prompt_and_skips_system_turns() {
    let provider = GeminiProvider::new(
        test_tokenizer(),
        options_with(None, vec![text(AILanguageModelPromptRole::System, "be kind")]),
    );
    let request = provider
        .build_gemini_request(&[text(AILanguageModelPromptRole::User, "hello")])
        .unwrap();

    assert_eq!(request.system_instruction, Some("be kind".to_string()));
    assert_eq!(request.contents.len(), 1);
    assert_eq!(request.contents[0].role, GeminiRole::User);
}

#[test]
fn request_rejects_non_text_input() {
    let provider = GeminiProvider::new(test_tokenizer(), options_with(None, vec![]));
    let err = provider
        .build_gemini_request(&[
            text(AILanguageModelPromptRole::User, "fine"),
            AILanguageModelPrompt::Image {
                role: AILanguageModelPromptRole::User,
                content: vec![1, 2, 3],
            },
        ])
        .unwrap_err();
    assert!(matches!(err, AILanguageModelError::PromptInputError(_)));
}

#[test]
fn request_propagates_resolver_error() {
    let provider = GeminiProvider::new(
        test_tokenizer(),
        options_with(
            Some("explicit"),
            vec![text(AILanguageModelPromptRole::System, "initial")],
        ),
    );
    let err = provider.build_gemini_request(&[]).unwrap_err();
    assert!(matches!(err, AILanguageModelError::SystemPromptError(_)));
}

#[test]
fn capabilities_record() {
    let capabilities = GeminiProvider::capabilities();
    assert_eq!(capabilities.max_temperature_bits, 1.0f32.to_bits());
    assert_eq!(capabilities.default_temperature_bits, 1.0f32.to_bits());
    assert_eq!(capabilities.default_top_p_bits, 0.95f32.to_bits());
    assert_eq!(capabilities.max_top_k, 40);
    assert_eq!(capabilities.default_top_k, 3);
    assert_eq!(capabilities.max_tokens, 1_048_576);
}

#[test]
fn create_options_replaces_the_options() {
    let mut provider = GeminiProvider::new(test_tokenizer(), options_with(None, vec![]));
    provider.create_options(options_with(Some("later"), vec![]));
    let request = provider.build_gemini_request(&[]).unwrap();
    assert_eq!(request.system_instruction, Some("later".to_string()));
}

#[test]
fn first_candidate_text_picks_the_first() {
    let candidates = vec![
        GeminiCandidate {
            text: Some("first".to_string()),
            finish_reason: None,
        },
        GeminiCandidate {
            text: Some("second".to_string()),
            finish_reason: Some("STOP".to_string()),
        },
    ];
    assert_eq!(first_candidate_text(&candidates).unwrap(), "first");
}

#[test]
fn first_candidate_text_defaults_to_empty() {
    let candidates = vec![GeminiCandidate {
        text: None,
        finish_reason: Some("STOP".to_string()),
    }];
    assert_eq!(first_candidate_text(&candidates).unwrap(), "");
}

#[test]
fn first_candidate_text_fails_without_candidates() {
    let err = first_candidate_text(&vec![]).unwrap_err();
    assert!(matches!(err, AILanguageModelError::ProviderError(_)));
}

#[test]
fn count_tokens_counts_the_rendered_template() {
    let provider = GeminiProvider::new(test_tokenizer(), options_with(None, vec![]));
    let count = provider
        .count_tokens(&[text(AILanguageModelPromptRole::User, "hello world")])
        .unwrap();
    // "<start_of_turn>user\nhello world<end_of_turn>\n" tokenized word-wise
    assert!(count > 2);
}

#[test]
fn count_tokens_propagates_resolver_error() {
    let provider = GeminiProvider::new(
        test_tokenizer(),
        options_with(
            Some("explicit"),
            vec![text(AILanguageModelPromptRole::System, "initial")],
        ),
    );
    let err = provider.count_tokens(&[]).unwrap_err();
    assert!(matches!(err, AILanguageModelError::SystemPromptError(_)));
}

#[test]
fn gemma_template_renders_system_prompt_once() {
    let options = options_with(Some("S"), vec![]);
    let rendered = build_gemma_prompt(
        &options,
        &[
            text(AILanguageModelPromptRole::User, "a"),
            text(AILanguageModelPromptRole::Assistant, "b"),
        ],
    )
    .unwrap();
    assert_eq!(
        rendered,
        "<start_of_turn>user\nS\n\na<end_of_turn>\n<start_of_turn>model\nb<end_of_turn>\n"
    );
}

#[test]
fn gemma_template_drops_system_prompt_without_turns() {
    let options = options_with(Some("S"), vec![]);
    let rendered = build_gemma_prompt(&options, &[]).unwrap();
    assert_eq!(rendered, "");
}

#[test]
fn gemma_template_skips_ineligible_turns() {
    let options = options_with(None, vec![]);
    let rendered = build_gemma_prompt(
        &options,
        &[
            AILanguageModelPrompt::Image {
                role: AILanguageModelPromptRole::User,
                content: vec![9],
            },
            text(AILanguageModelPromptRole::User, "a"),
        ],
    )
    .unwrap();
    assert_eq!(rendered, "<start_of_turn>user\na<end_of_turn>\n");
}
