//! What the model is told, and the forced calls that need no agent.

use vstd::prelude::*;
use crate::harness::llm::CompletionRequest;
use crate::harness::llm::CompletionResponse;
use crate::harness::llm::first_call;
use crate::harness::llm::Message;
use crate::harness::llm::RequestView;
use crate::harness::llm::ResponseView;
use crate::harness::llm::ToolSpec;
use crate::harness::llm::ToolSpecView;
use crate::harness::llm::user_text_view;
use crate::harness::tool::schema_of;
use crate::harness::tool::schema_view;
use crate::notes::domain::CapturedItem;
use crate::notes::domain::CapturedItemView;
use crate::notes::pipeline::document::build_document_offer;
use crate::notes::pipeline::document::BuildDocumentTool;
use crate::text::concat2;
use crate::text::concat3;
use crate::text::join;
use crate::text::joined;
use crate::views::option_view;
use crate::views::seq_views;

verus! {

/// The instructions of the extraction at the end of a session.
pub const EXTRACTION_PROMPT: &'static str = "You turn the transcript of one field-work session into structured records. Use the tools to record every clearly-stated item, every person mentioned and, when there is enough substance, one report. Record only what was actually said; never invent names, prices, quantities or dates. Use update_memory for durable facts and corrections only. When everything is recorded, answer with one short sentence and call no more tools.";

/// The instructions of a pass while the session is recording.
pub const LIVE_PROMPT: &'static str = "You listen in on a field-work session that is still being recorded. Lift clearly-stated items out of the new transcript with add_item as they come up. Skip anything that is already captured and anything that is not complete yet; the end of the session is processed separately. When nothing more is clear, answer with one short sentence and call no more tools.";

/// The instructions of the summary.
pub const SUMMARY_PROMPT: &'static str = "You summarize one field-work session for the person who walked it. Two or three plain sentences: what was looked at, what was decided, what is still open. Only what was said. Call write_summary exactly once.";

/// The instructions of the document, up to the template.
pub const DOCUMENT_PROMPT: &'static str = "You write up one field-work session as a structured document. Put an amount on a line only when the number was spoken. Call build_document exactly once. The template is: ";

/// What comes before the memory.
pub const MEMORY_LEAD: &'static str = "\n\nWhat you know about this user:\n";

/// Instructions with the memory behind them; alone when there is none.
pub open spec fn with_memory(instructions: Seq<char>, memory: Seq<char>) -> Seq<char> {
    if memory.len() == 0 {
        instructions
    } else {
        instructions + MEMORY_LEAD@ + memory
    }
}

/// Puts the memory behind the instructions.
pub(crate) fn add_memory(instructions: &str, memory: &str) -> (r: String)
    ensures
        r@ == with_memory(instructions@, memory@),
{
    if memory.unicode_len() == 0 {
        instructions.to_string()
    } else {
        concat3(instructions, MEMORY_LEAD, memory)
    }
}

/// The line of an item that was already captured.
pub open spec fn captured_line(item: CapturedItemView) -> Seq<char> {
    "- ["@ + item.kind + "] "@ + item.text
}

/// The lines of the items, the last one first.
pub open spec fn captured_lines(items: Seq<CapturedItemView>) -> Seq<Seq<char>> {
    Seq::new(items.len(), |i: int| captured_line(items[items.len() - 1 - i]))
}

/// The items that were already captured, newest first, so that a cut takes the
/// oldest.
pub(crate) fn format_already_captured(items: &Vec<CapturedItem>) -> (r: String)
    ensures
        r@ == joined(captured_lines(seq_views(items@)), "\n"@),
{
    let mut lines: Vec<String> = Vec::new();
    let mut left: usize = items.len();
    while left > 0
        invariant
            left <= items.len(),
            lines.len() + left == items.len(),
            forall|k: int|
                0 <= k < lines.len() ==> (#[trigger] lines@[k])@ == captured_line(
                    items@[items.len() - 1 - k]@,
                ),
        decreases left,
    {
        left = left - 1;
        let mut line = concat3("- [", items[left].kind.as_str(), "] ");
        line.append(items[left].text.as_str());
        lines.push(line);
    }
    assert(seq_views(lines@) =~= captured_lines(seq_views(items@)));
    join(&lines, "\n")
}

/// The tool of the forced summary.
pub const WRITE_SUMMARY: &'static str = "write_summary";

/// What it is for, in words for the model.
pub const WRITE_SUMMARY_DESCRIPTION: &'static str = "Write the summary of the session.";

/// The schema of its input, as JSON text.
pub const WRITE_SUMMARY_SCHEMA: &'static str = "{\"type\":\"object\",\"properties\":{\"summary\":{\"type\":\"string\",\"minLength\":1}},\"required\":[\"summary\"]}";

/// How it is offered to the model.
pub open spec fn write_summary_offer() -> ToolSpecView {
    ToolSpecView {
        name: WRITE_SUMMARY@,
        description: WRITE_SUMMARY_DESCRIPTION@,
        input_schema: schema_view(WRITE_SUMMARY_SCHEMA@),
    }
}

/// A request that forces the one tool it offers.
pub open spec fn forced_request(
    system: Seq<char>,
    user: Seq<char>,
    tool: ToolSpecView,
    max_tokens: u32,
) -> RequestView {
    RequestView {
        system,
        messages: seq![user_text_view(user)],
        tools: seq![tool],
        max_tokens,
        tool_choice: Some(tool.name),
    }
}

/// Makes a request that forces the one tool it offers.
fn force(system: String, user: String, tool: ToolSpec, max_tokens: u32) -> (r: CompletionRequest)
    ensures
        r@ == forced_request(system@, user@, tool@, max_tokens),
{
    let choice = tool.name.clone();
    let mut messages: Vec<Message> = Vec::new();
    messages.push(Message::user_text(user));
    let mut tools: Vec<ToolSpec> = Vec::new();
    tools.push(tool);
    let r = CompletionRequest {
        system,
        messages,
        tools,
        max_tokens,
        tool_choice: Some(choice),
    };
    proof {
        let want = forced_request(system@, user@, tool@, max_tokens);
        assert(r@.messages =~= want.messages);
        assert(r@.tools =~= want.tools);
    }
    r
}

/// The request of the forced summary.
pub open spec fn summary_request(transcript: Seq<char>, max_tokens: u32) -> RequestView {
    forced_request(
        SUMMARY_PROMPT@,
        "Summarize this session.\n\n"@ + transcript,
        write_summary_offer(),
        max_tokens,
    )
}

/// The summary that an answer holds, if it called the tool for it.
pub open spec fn summary_in(resp: ResponseView) -> Option<Seq<char>> {
    match first_call(resp.content, WRITE_SUMMARY@) {
        Some(input) => input.get_text("summary"@),
        None => None,
    }
}

/// Asks for the summary.
pub(crate) fn ask_summary(transcript: &str, max_tokens: u32) -> (r: CompletionRequest)
    ensures
        r@ == summary_request(transcript@, max_tokens),
{
    force(
        SUMMARY_PROMPT.to_string(),
        concat2("Summarize this session.\n\n", transcript),
        ToolSpec {
            name: WRITE_SUMMARY.to_string(),
            description: WRITE_SUMMARY_DESCRIPTION.to_string(),
            input_schema: schema_of(WRITE_SUMMARY_SCHEMA),
        },
        max_tokens,
    )
}

/// Reads the summary out of an answer.
pub(crate) fn read_summary(resp: &CompletionResponse) -> (r: Option<String>)
    ensures
        option_view(r) == summary_in(resp@),
{
    match resp.find_call(WRITE_SUMMARY) {
        Some(input) => match input.get_str("summary") {
            Some(s) => Some(s.to_string()),
            None => None,
        },
        None => None,
    }
}

/// The request of the forced document.
pub open spec fn document_request(
    template: Seq<char>,
    memory: Seq<char>,
    transcript: Seq<char>,
    max_tokens: u32,
) -> RequestView {
    forced_request(
        with_memory(DOCUMENT_PROMPT@ + template + "."@, memory),
        "Build the document for this session.\n\n"@ + transcript,
        build_document_offer(),
        max_tokens,
    )
}

/// Asks for the document.
pub(crate) fn ask_document(template: &str, memory: &str, transcript: &str, max_tokens: u32) -> (r:
    CompletionRequest)
    ensures
        r@ == document_request(template@, memory@, transcript@, max_tokens),
{
    let instructions = concat3(DOCUMENT_PROMPT, template, ".");
    force(
        add_memory(instructions.as_str(), memory),
        concat2("Build the document for this session.\n\n", transcript),
        BuildDocumentTool::spec(),
        max_tokens,
    )
}

} // verus!
