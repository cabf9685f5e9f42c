use built_in_hybrid_server::origins::origin_allowed;
use built_in_hybrid_server::origins::str_starts_with;
use built_in_hybrid_server::prompt_dict::AILanguageModelPromptDict;
use built_in_hybrid_server::prompt_dict::AILanguageModelPromptRole;
use built_in_hybrid_server::prompt_dict::AILanguageModelPromptType;

#[test]
fn prefix_test() {
    assert!(str_starts_with("/language-model/prompt", "/language-model"));
    assert!(!str_starts_with("/language", "/language-model"));
    assert!(!str_starts_with("/summarizer/prompt", "/language-model"));
}

#[test]
fn unguarded_paths_always_pass() {
    let accepted: Vec<String> = vec![];
    assert!(origin_allowed("/summarizer/prompt", None, &accepted));
}

#[test]
fn guarded_paths_require_known_origin() {
    let accepted = vec!["https://example.test".to_string()];
    let good = "https://example.test".to_string();
    let bad = "https://evil.test".to_string();
    assert!(origin_allowed("/language-model/prompt", Some(&good), &accepted));
    assert!(!origin_allowed("/language-model/prompt", Some(&bad), &accepted));
    assert!(!origin_allowed("/language-model/prompt", None, &accepted));
}

#[test]
fn flat_prompt_dict_defaults() {
    let dict = AILanguageModelPromptDict::default();
    assert_eq!(dict.role, AILanguageModelPromptRole::User);
    assert_eq!(dict._type, AILanguageModelPromptType::Text);
    assert_eq!(dict.content, "");
}
