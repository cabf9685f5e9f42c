use built_in_hybrid_server::codec::deserialize_expected_input;
use built_in_hybrid_server::codec::deserialize_prompt;
use built_in_hybrid_server::codec::serialize_expected_input;
use built_in_hybrid_server::codec::serialize_prompt;
use built_in_hybrid_server::types::AILanguageModelExpectedInput;
use built_in_hybrid_server::types::AILanguageModelPrompt;
use built_in_hybrid_server::types::AILanguageModelPromptRole;

#[test]
fn escapes_text_content() {
    let prompt = AILanguageModelPrompt::Text {
        role: AILanguageModelPromptRole::Assistant,
        content: "a\"b\\c\nd\u{1}e".to_string(),
    };
    let json = serialize_prompt(&prompt);
    assert_eq!(
        json,
        "{\"type\":\"text\",\"role\":\"assistant\",\"content\":\"a\\\"b\\\\c\\nd\\u0001e\"}"
    );
    assert_eq!(deserialize_prompt(&json).unwrap(), prompt);
}

#[test]
fn text_round_trip_with_system_role() {
    let prompt = AILanguageModelPrompt::Text {
        role: AILanguageModelPromptRole::System,
        content: "be \t terse \r\n \u{8}\u{c}".to_string(),
    };
    let json = serialize_prompt(&prompt);
    assert_eq!(deserialize_prompt(&json).unwrap(), prompt);
}

#[test]
fn image_base64_full_group() {
    let prompt = AILanguageModelPrompt::Image {
        role: AILanguageModelPromptRole::User,
        content: vec![77, 97, 110],
    };
    let json = serialize_prompt(&prompt);
    assert_eq!(json, r#"{"type":"image","role":"user","content":"TWFu"}"#);
    assert_eq!(deserialize_prompt(&json).unwrap(), prompt);
}

#[test]
fn image_base64_one_byte_padding() {
    let prompt = AILanguageModelPrompt::Image {
        role: AILanguageModelPromptRole::User,
        content: vec![77],
    };
    let json = serialize_prompt(&prompt);
    assert_eq!(json, r#"{"type":"image","role":"user","content":"TQ=="}"#);
    assert_eq!(deserialize_prompt(&json).unwrap(), prompt);
}

#[test]
fn audio_base64_two_byte_padding() {
    let prompt = AILanguageModelPrompt::Audio {
        role: AILanguageModelPromptRole::User,
        content: vec![77, 97],
    };
    let json = serialize_prompt(&prompt);
    assert_eq!(json, r#"{"type":"audio","role":"user","content":"TWE="}"#);
    assert_eq!(deserialize_prompt(&json).unwrap(), prompt);
}

#[test]
fn audio_round_trip_all_byte_values() {
    let bytes: Vec<u8> = (0u8..=255u8).collect();
    let prompt = AILanguageModelPrompt::Audio {
        role: AILanguageModelPromptRole::Assistant,
        content: bytes,
    };
    let json = serialize_prompt(&prompt);
    assert_eq!(deserialize_prompt(&json).unwrap(), prompt);
}

#[test]
fn rejects_malformed_prompts() {
    assert_eq!(deserialize_prompt(""), None);
    assert_eq!(deserialize_prompt("garbage"), None);
    assert_eq!(
        deserialize_prompt(r#"{"type":"video","role":"user","content":"x"}"#),
        None
    );
    assert_eq!(
        deserialize_prompt(r#"{"type":"text","role":"narrator","content":"x"}"#),
        None
    );
    // unterminated string body
    assert_eq!(deserialize_prompt(r#"{"type":"text","role":"user","content":"x"#), None);
    // trailing data after the closing brace
    assert_eq!(
        deserialize_prompt(r#"{"type":"text","role":"user","content":"x"} "#),
        None
    );
    // the reader is canonical: a non-canonical escape is rejected
    assert_eq!(
        deserialize_prompt(r#"{"type":"text","role":"user","content":"\u0041"}"#),
        None
    );
    // invalid base64 in binary content
    assert_eq!(
        deserialize_prompt(r#"{"type":"image","role":"user","content":"a"}"#),
        None
    );
}

#[test]
fn expected_input_round_trip() {
    let input = AILanguageModelExpectedInput::Audio {
        languages: vec!["en".to_string(), "fr".to_string(), "de".to_string()],
    };
    let json = serialize_expected_input(&input);
    assert_eq!(json, r#"{"type":"audio","languages":["en","fr","de"]}"#);
    assert_eq!(deserialize_expected_input(&json).unwrap(), input);
}

#[test]
fn expected_input_empty_languages() {
    let input = AILanguageModelExpectedInput::Image { languages: vec![] };
    let json = serialize_expected_input(&input);
    assert_eq!(json, r#"{"type":"image","languages":[]}"#);
    assert_eq!(deserialize_expected_input(&json).unwrap(), input);
}

#[test]
fn rejects_malformed_expected_inputs() {
    assert_eq!(deserialize_expected_input(""), None);
    assert_eq!(
        deserialize_expected_input(r#"{"type":"text","languages":["en",]}"#),
        None
    );
    assert_eq!(
        deserialize_expected_input(r#"{"type":"text","languages":["en"]"#),
        None
    );
    assert_eq!(
        deserialize_expected_input(r#"{"type":"pdf","languages":[]}"#),
        None
    );
}
