use built_in_hybrid_server::codec::serialize_prompt;
use built_in_hybrid_server::types::AILanguageModelPrompt;
use built_in_hybrid_server::types::AILanguageModelPromptRole;

#[test]
pub fn test_prompt_text() {
    let prompt = AILanguageModelPrompt::Text {
        role: AILanguageModelPromptRole::default(),
        content: "Hello, world!".to_string(),
    };

    assert_eq!(
        serialize_prompt(&prompt),
        r#"{"type":"text","role":"user","content":"Hello, world!"}"#
    );
}
