use built_in_hybrid_server::summarizer::PromptRequest;
use built_in_hybrid_server::summarizer::SummarizerOptions;
use built_in_hybrid_server::summarizer::SummaryFormat;
use built_in_hybrid_server::summarizer::SummaryLength;
use built_in_hybrid_server::summarizer::SummaryType;
use built_in_hybrid_server::summarizer::build_system_prompt;

#[test]
fn default_options() {
    let options = SummarizerOptions::default();
    assert_eq!(options.summary_type, SummaryType::TLDR);
    assert_eq!(options.summary_format, SummaryFormat::PlainText);
    assert_eq!(options.summary_length, SummaryLength::Medium);
    assert_eq!(options.shared_context, "")
}

#[test]
fn builds_the_default_summarizer_prompt() {
    let options = SummarizerOptions::default();
    let prompt = build_system_prompt("Hello", &options);
    let expected = "You are a skilled assistant that accurately summarizes content provided in \
                    the 'TEXT' section.Summarize the text as if explaining it to someone with a \
                    very short attention span.\nThe summary must fit within one short paragraph.\
                    \nThe summary must not contain any formatting or markup language.TEXT:\nHello";
    assert_eq!(prompt, expected);
}

#[test]
fn builds_a_headline_prompt() {
    let options = SummarizerOptions {
        shared_context: String::new(),
        summary_type: SummaryType::Headline,
        summary_format: SummaryFormat::Markdown,
        summary_length: SummaryLength::Long,
    };
    let prompt = build_system_prompt("Body", &options);
    let expected = "You are a skilled copy editor crafting headlines to capture attention and \
                    convey the essence of the content provided in the 'TEXT' section.Generate a \
                    headline that effectively summarizes the main point of the text.\nThe \
                    headline must be detailed, using a maximum of 22 words, and comprehensively \
                    capture the key themes of the text.\nThe summary must be in valid Markdown \
                    syntax.TEXT:\nBody";
    assert_eq!(prompt, expected);
}

#[test]
fn prompt_request_carries_input_and_options() {
    let request = PromptRequest {
        input: "Some text".to_string(),
        options: SummarizerOptions::default(),
    };
    let prompt = build_system_prompt(&request.input, &request.options);
    assert!(prompt.ends_with("TEXT:\nSome text"));
}

#[test]
fn key_points_short_prompt_mentions_three_bullets() {
    let options = SummarizerOptions {
        shared_context: String::new(),
        summary_type: SummaryType::KeyPoints,
        summary_format: SummaryFormat::PlainText,
        summary_length: SummaryLength::Short,
    };
    let prompt = build_system_prompt("", &options);
    assert!(prompt.contains("no more than 3 bullet points"));
    assert!(prompt.contains("bulleted list"));
}
