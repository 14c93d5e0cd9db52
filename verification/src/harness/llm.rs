//! The conversation with a language model, as plain data.

use vstd::prelude::*;
use crate::json::Json;
use crate::json::JsonView;
use crate::text::text_eq;
use crate::views::option_view;
use crate::views::seq_views;

verus! {

/// Who speaks.
#[derive(Clone, Copy, Debug, PartialEq, Eq, Structural)]
pub enum Role {
    User,
    Assistant,
}

/// Why the model stopped.
#[derive(Clone, Copy, Debug, PartialEq, Eq, Structural)]
pub enum StopReason {
    EndTurn,
    ToolUse,
    MaxTokens,
    Other,
}

/// One block of a message.
#[derive(Clone, Debug, PartialEq)]
pub enum ContentBlock {
    Text { text: String },
    ToolUse { id: String, name: String, input: Json },
    ToolResult { tool_use_id: String, content: String, is_error: bool },
}

/// The mathematical counterpart of [`ContentBlock`].
pub enum BlockView {
    Text { text: Seq<char> },
    ToolUse { id: Seq<char>, name: Seq<char>, input: JsonView },
    ToolResult { tool_use_id: Seq<char>, content: Seq<char>, is_error: bool },
}

impl View for ContentBlock {
    type V = BlockView;

    open spec fn view(&self) -> BlockView {
        match self {
            ContentBlock::Text { text } => BlockView::Text { text: text@ },
            ContentBlock::ToolUse { id, name, input } => BlockView::ToolUse {
                id: id@,
                name: name@,
                input: input@,
            },
            ContentBlock::ToolResult { tool_use_id, content, is_error } => BlockView::ToolResult {
                tool_use_id: tool_use_id@,
                content: content@,
                is_error: *is_error,
            },
        }
    }
}

/// One message of the conversation.
#[derive(Clone, Debug, PartialEq)]
pub struct Message {
    pub role: Role,
    pub content: Vec<ContentBlock>,
}

/// The mathematical counterpart of [`Message`].
#[verifier::ext_equal]
pub struct MessageView {
    pub role: Role,
    pub content: Seq<BlockView>,
}

impl View for Message {
    type V = MessageView;

    open spec fn view(&self) -> MessageView {
        MessageView { role: self.role, content: seq_views(self.content@) }
    }
}

/// A message of the user with one text block.
pub open spec fn user_text_view(text: Seq<char>) -> MessageView {
    MessageView { role: Role::User, content: seq![BlockView::Text { text }] }
}

impl Message {
    /// A message of the user with one text block.
    pub fn user_text(text: String) -> (r: Message)
        ensures
            r@ == user_text_view(text@),
    {
        let r = Message { role: Role::User, content: vec![ContentBlock::Text { text }] };
        assert(r@.content =~= user_text_view(text@).content);
        r
    }
}

/// How a tool is offered to the model.
#[derive(Clone, Debug, PartialEq)]
pub struct ToolSpec {
    pub name: String,
    pub description: String,
    pub input_schema: Json,
}

/// The mathematical counterpart of [`ToolSpec`].
pub struct ToolSpecView {
    pub name: Seq<char>,
    pub description: Seq<char>,
    pub input_schema: JsonView,
}

impl View for ToolSpec {
    type V = ToolSpecView;

    open spec fn view(&self) -> ToolSpecView {
        ToolSpecView {
            name: self.name@,
            description: self.description@,
            input_schema: self.input_schema@,
        }
    }
}

/// Tokens spent.
#[derive(Clone, Copy, Debug, PartialEq, Eq, Structural)]
pub struct Usage {
    pub input_tokens: u64,
    pub output_tokens: u64,
}

/// The sum of two counts, held at the largest count there is.
pub open spec fn saturating_sum(a: u64, b: u64) -> u64 {
    if a + b > u64::MAX {
        u64::MAX
    } else {
        (a + b) as u64
    }
}

/// The tokens of two calls together.
pub open spec fn usage_sum(a: Usage, b: Usage) -> Usage {
    Usage {
        input_tokens: saturating_sum(a.input_tokens, b.input_tokens),
        output_tokens: saturating_sum(a.output_tokens, b.output_tokens),
    }
}

/// No tokens at all.
pub open spec fn no_usage() -> Usage {
    Usage { input_tokens: 0, output_tokens: 0 }
}

impl Default for Usage {
    fn default() -> (r: Usage)
        ensures
            r == no_usage(),
    {
        Usage { input_tokens: 0, output_tokens: 0 }
    }
}

impl Usage {
    /// Adds the tokens of another call.
    pub fn add(&mut self, other: &Usage)
        ensures
            *final(self) == usage_sum(*old(self), *other),
    {
        self.input_tokens = self.input_tokens.saturating_add(other.input_tokens);
        self.output_tokens = self.output_tokens.saturating_add(other.output_tokens);
    }
}

/// What is sent to the model.
#[derive(Clone, Debug, PartialEq)]
pub struct CompletionRequest {
    pub system: String,
    pub messages: Vec<Message>,
    pub tools: Vec<ToolSpec>,
    pub max_tokens: u32,
    /// The tool that the model is made to call, if any.
    pub tool_choice: Option<String>,
}

/// The mathematical counterpart of [`CompletionRequest`].
#[verifier::ext_equal]
pub struct RequestView {
    pub system: Seq<char>,
    pub messages: Seq<MessageView>,
    pub tools: Seq<ToolSpecView>,
    pub max_tokens: u32,
    pub tool_choice: Option<Seq<char>>,
}

impl View for CompletionRequest {
    type V = RequestView;

    open spec fn view(&self) -> RequestView {
        RequestView {
            system: self.system@,
            messages: seq_views(self.messages@),
            tools: seq_views(self.tools@),
            max_tokens: self.max_tokens,
            tool_choice: option_view(self.tool_choice),
        }
    }
}

/// What the model answers.
#[derive(Clone, Debug, PartialEq)]
pub struct CompletionResponse {
    pub content: Vec<ContentBlock>,
    pub stop_reason: StopReason,
    pub usage: Usage,
}

/// The mathematical counterpart of [`CompletionResponse`].
#[verifier::ext_equal]
pub struct ResponseView {
    pub content: Seq<BlockView>,
    pub stop_reason: StopReason,
    pub usage: Usage,
}

impl View for CompletionResponse {
    type V = ResponseView;

    open spec fn view(&self) -> ResponseView {
        ResponseView {
            content: seq_views(self.content@),
            stop_reason: self.stop_reason,
            usage: self.usage,
        }
    }
}

/// The input of the first call of a tool in an answer.
pub open spec fn first_call(content: Seq<BlockView>, tool: Seq<char>) -> Option<JsonView>
    decreases content.len(),
{
    if content.len() == 0 {
        None
    } else {
        match content[0] {
            BlockView::ToolUse { id, name, input } => if name == tool {
                Some(input)
            } else {
                first_call(content.drop_first(), tool)
            },
            _ => first_call(content.drop_first(), tool),
        }
    }
}

impl CompletionResponse {
    /// Finds the first call of the given tool.
    pub fn find_call(&self, tool: &str) -> (r: Option<&Json>)
        ensures
            match r {
                Some(input) => first_call(self@.content, tool@) == Some(input@),
                None => first_call(self@.content, tool@) is None,
            },
    {
        let ghost all = seq_views(self.content@);
        let mut i: usize = 0;
        assert(all.skip(0) =~= all);
        while i < self.content.len()
            invariant
                i <= self.content.len(),
                all == seq_views(self.content@),
                first_call(self@.content, tool@) == first_call(all.skip(i as int), tool@),
            decreases self.content.len() - i,
        {
            assert(all.skip(i as int)[0] == self.content@[i as int]@);
            assert(all.skip(i as int).drop_first() =~= all.skip(i + 1));
            match &self.content[i] {
                ContentBlock::ToolUse { id: _, name, input } => {
                    if text_eq(name.as_str(), tool) {
                        return Some(input);
                    }
                },
                _ => {},
            }
            i = i + 1;
        }
        None
    }
}

} // verus!
