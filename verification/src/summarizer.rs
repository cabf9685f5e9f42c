//! Summarizer options and the system prompt derived from them.

use vstd::prelude::*;

verus! {

/// What kind of summary is requested.
#[derive(Debug, Default, Clone, Copy, PartialEq, Eq, Structural)]
pub enum SummaryType {
    Headline,
    #[default]
    TLDR,
    KeyPoints,
    Teaser,
}

/// The output markup the summary must use.
#[derive(Debug, Default, Clone, Copy, PartialEq, Eq, Structural)]
pub enum SummaryFormat {
    #[default]
    PlainText,
    Markdown,
}

/// How long the summary may be.
#[derive(Debug, Default, Clone, Copy, PartialEq, Eq, Structural)]
pub enum SummaryLength {
    Short,
    #[default]
    Medium,
    Long,
}

/// Model of the summarizer options.
pub struct SummarizerOptionsView {
    pub shared_context: Seq<char>,
    pub summary_type: SummaryType,
    pub summary_format: SummaryFormat,
    pub summary_length: SummaryLength,
}

/// Options of one summarizer request.
#[derive(Debug, Default)]
pub struct SummarizerOptions {
    pub shared_context: String,
    pub summary_type: SummaryType,
    pub summary_format: SummaryFormat,
    pub summary_length: SummaryLength,
}

impl DeepView for SummarizerOptions {
    type V = SummarizerOptionsView;

    open spec fn deep_view(&self) -> SummarizerOptionsView {
        SummarizerOptionsView {
            shared_context: self.shared_context@,
            summary_type: self.summary_type,
            summary_format: self.summary_format,
            summary_length: self.summary_length,
        }
    }
}

/// One summarizer request: the input text to summarize and the options.
#[derive(Debug)]
pub struct PromptRequest {
    pub input: String,
    pub options: SummarizerOptions,
}

/// The opening sentence of the system prompt, by summary type.
pub open spec fn summary_opening(t: SummaryType) -> Seq<char> {
    match t {
        SummaryType::Headline => "You are a skilled copy editor crafting headlines to capture attention and convey the essence of the content provided in the 'TEXT' section."@,
        _ => "You are a skilled assistant that accurately summarizes content provided in the 'TEXT' section."@,
    }
}

/// The task instruction of the system prompt, by summary type.
pub open spec fn summary_task(t: SummaryType) -> Seq<char> {
    match t {
        SummaryType::TLDR => "Summarize the text as if explaining it to someone with a very short attention span.\n"@,
        SummaryType::KeyPoints => "Extract the main points of the text and present them as a bulleted list.\n"@,
        SummaryType::Teaser => "Craft an enticing summary that encourages the user to read the full text.\n"@,
        SummaryType::Headline => "Generate a headline that effectively summarizes the main point of the text.\n"@,
    }
}

/// The length constraint of the system prompt, by summary length and type.
pub open spec fn summary_constraint(l: SummaryLength, t: SummaryType) -> Seq<char> {
    match (l, t) {
        (SummaryLength::Short, SummaryType::TLDR) => "The summary must fit within one sentence."@,
        (SummaryLength::Medium, SummaryType::TLDR) => "The summary must fit within one short paragraph."@,
        (SummaryLength::Long, SummaryType::TLDR) => "The summary must fit within one paragraph."@,
        (SummaryLength::Short, SummaryType::KeyPoints) => "The summary must consist of no more than 3 bullet points."@,
        (SummaryLength::Medium, SummaryType::KeyPoints) => "The summary must consist of no more than 5 bullet points."@,
        (SummaryLength::Long, SummaryType::KeyPoints) => "The summary must consist of no more than 7 bullet points."@,
        (SummaryLength::Short, SummaryType::Teaser) => "The summary must fit within one sentence."@,
        (SummaryLength::Medium, SummaryType::Teaser) => "The summary must fit within one short paragraph."@,
        (SummaryLength::Long, SummaryType::Teaser) => "The summary must fit within one paragraph."@,
        (SummaryLength::Short, SummaryType::Headline) => "The headline must be concise, using a maximum of 12 words, and capture the essence of the text."@,
        (SummaryLength::Medium, SummaryType::Headline) => "The headline must be concise, using a maximum of 17 words, and capture the essence of the text."@,
        (SummaryLength::Long, SummaryType::Headline) => "The headline must be detailed, using a maximum of 22 words, and comprehensively capture the key themes of the text."@,
    }
}

/// The format constraint of the system prompt.
pub open spec fn summary_format_rule(f: SummaryFormat) -> Seq<char> {
    match f {
        SummaryFormat::Markdown => "The summary must be in valid Markdown syntax."@,
        SummaryFormat::PlainText => "The summary must not contain any formatting or markup language."@,
    }
}

/// The full summarizer system prompt: opening, task, length constraint, a
/// newline, format constraint, and the input under a `TEXT:` header.
pub open spec fn system_prompt_spec(input: Seq<char>, o: SummarizerOptionsView) -> Seq<char> {
    summary_opening(o.summary_type) + summary_task(o.summary_type) + summary_constraint(
        o.summary_length,
        o.summary_type,
    ) + "\n"@ + summary_format_rule(o.summary_format) + "TEXT:\n"@ + input
}

/// Build the summarizer system prompt for the given input text and options.
pub fn build_system_prompt(input: &str, options: &SummarizerOptions) -> (r: String)
    ensures
        r@ == system_prompt_spec(input@, options.deep_view()),
{
    let mut system_prompt = String::new();
    system_prompt.append(
        match options.summary_type {
            SummaryType::Headline => "You are a skilled copy editor crafting headlines to capture attention and convey the essence of the content provided in the 'TEXT' section.",
            _ => "You are a skilled assistant that accurately summarizes content provided in the 'TEXT' section.",
        },
    );

    system_prompt.append(
        match options.summary_type {
            SummaryType::TLDR => "Summarize the text as if explaining it to someone with a very short attention span.\n",
            SummaryType::KeyPoints => "Extract the main points of the text and present them as a bulleted list.\n",
            SummaryType::Teaser => "Craft an enticing summary that encourages the user to read the full text.\n",
            SummaryType::Headline => "Generate a headline that effectively summarizes the main point of the text.\n",
        },
    );

    system_prompt.append(
        match (options.summary_length, options.summary_type) {
            (SummaryLength::Short, SummaryType::TLDR) => "The summary must fit within one sentence.",
            (SummaryLength::Medium, SummaryType::TLDR) => "The summary must fit within one short paragraph.",
            (SummaryLength::Long, SummaryType::TLDR) => "The summary must fit within one paragraph.",
            (SummaryLength::Short, SummaryType::KeyPoints) => "The summary must consist of no more than 3 bullet points.",
            (SummaryLength::Medium, SummaryType::KeyPoints) => "The summary must consist of no more than 5 bullet points.",
            (SummaryLength::Long, SummaryType::KeyPoints) => "The summary must consist of no more than 7 bullet points.",
            (SummaryLength::Short, SummaryType::Teaser) => "The summary must fit within one sentence.",
            (SummaryLength::Medium, SummaryType::Teaser) => "The summary must fit within one short paragraph.",
            (SummaryLength::Long, SummaryType::Teaser) => "The summary must fit within one paragraph.",
            (SummaryLength::Short, SummaryType::Headline) => "The headline must be concise, using a maximum of 12 words, and capture the essence of the text.",
            (SummaryLength::Medium, SummaryType::Headline) => "The headline must be concise, using a maximum of 17 words, and capture the essence of the text.",
            (SummaryLength::Long, SummaryType::Headline) => "The headline must be detailed, using a maximum of 22 words, and comprehensively capture the key themes of the text.",
        },
    );

    system_prompt.append("\n");

    system_prompt.append(
        match options.summary_format {
            SummaryFormat::Markdown => "The summary must be in valid Markdown syntax.",
            SummaryFormat::PlainText => "The summary must not contain any formatting or markup language.",
        },
    );

    system_prompt.append("TEXT:\n");
    system_prompt.append(input);

    proof {
        assert(system_prompt@ =~= system_prompt_spec(input@, options.deep_view()));
    }
    system_prompt
}

} // verus!
