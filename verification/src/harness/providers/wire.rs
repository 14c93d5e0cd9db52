//! The body of a request to the messages endpoint.

use vstd::prelude::*;
use crate::harness::llm::BlockView;
use crate::harness::llm::CompletionRequest;
use crate::harness::llm::ContentBlock;
use crate::harness::llm::Message;
use crate::harness::llm::MessageView;
use crate::harness::llm::RequestView;
use crate::harness::llm::Role;
use crate::harness::llm::ToolSpec;
use crate::harness::llm::ToolSpecView;
use crate::json::field_views;
use crate::json::Json;
use crate::json::JsonView;
use crate::views::seq_views;

verus! {

/// A content block on the wire, told apart by its type.
pub open spec fn wire_block(b: BlockView) -> JsonView {
    match b {
        BlockView::Text { text } => JsonView::Object(
            seq![("text"@, JsonView::Str(text)), ("type"@, JsonView::Str("text"@))],
        ),
        BlockView::ToolUse { id, name, input } => JsonView::Object(
            seq![
                ("id"@, JsonView::Str(id)),
                ("input"@, input),
                ("name"@, JsonView::Str(name)),
                ("type"@, JsonView::Str("tool_use"@)),
            ],
        ),
        BlockView::ToolResult { tool_use_id, content, is_error } => JsonView::Object(
            seq![
                ("content"@, JsonView::Str(content)),
                ("is_error"@, JsonView::Bool(is_error)),
                ("tool_use_id"@, JsonView::Str(tool_use_id)),
                ("type"@, JsonView::Str("tool_result"@)),
            ],
        ),
    }
}

/// Who speaks, on the wire.
pub open spec fn wire_role(role: Role) -> Seq<char> {
    match role {
        Role::User => "user"@,
        Role::Assistant => "assistant"@,
    }
}

/// Content blocks on the wire, in their order.
pub open spec fn wire_blocks(blocks: Seq<BlockView>) -> Seq<JsonView> {
    Seq::new(blocks.len(), |i: int| wire_block(blocks[i]))
}

/// A message on the wire.
pub open spec fn wire_message(m: MessageView) -> JsonView {
    JsonView::Object(
        seq![
            ("content"@, JsonView::Array(wire_blocks(m.content))),
            ("role"@, JsonView::Str(wire_role(m.role))),
        ],
    )
}

/// A tool on the wire.
pub open spec fn wire_tool(t: ToolSpecView) -> JsonView {
    JsonView::Object(
        seq![
            ("description"@, JsonView::Str(t.description)),
            ("input_schema"@, t.input_schema),
            ("name"@, JsonView::Str(t.name)),
        ],
    )
}

/// Messages on the wire, in their order.
pub open spec fn wire_messages(messages: Seq<MessageView>) -> Seq<JsonView> {
    Seq::new(messages.len(), |i: int| wire_message(messages[i]))
}

/// Tools on the wire, in their order.
pub open spec fn wire_tools(tools: Seq<ToolSpecView>) -> Seq<JsonView> {
    Seq::new(tools.len(), |i: int| wire_tool(tools[i]))
}

/// The tool that the model is made to call, on the wire.
pub open spec fn wire_choice(name: Seq<char>) -> JsonView {
    JsonView::Object(seq![("name"@, JsonView::Str(name)), ("type"@, JsonView::Str("tool"@))])
}

/// A request on the wire, for a model. A tool is named only where the model is
/// made to call it.
pub open spec fn wire_request(model: Seq<char>, r: RequestView) -> JsonView {
    let start = seq![
        ("max_tokens"@, JsonView::Uint(r.max_tokens as u64)),
        ("messages"@, JsonView::Array(wire_messages(r.messages))),
        ("model"@, JsonView::Str(model)),
        ("system"@, JsonView::Str(r.system)),
    ];
    let tools = ("tools"@, JsonView::Array(wire_tools(r.tools)));
    match r.tool_choice {
        Some(name) => JsonView::Object(start.push(("tool_choice"@, wire_choice(name))).push(tools)),
        None => JsonView::Object(start.push(tools)),
    }
}

/// Makes an object of its fields.
fn object(fields: Vec<(String, Json)>) -> (r: Json)
    ensures
        r@ == JsonView::Object(field_views(fields@)),
{
    let r = Json::Object(fields);
    proof {
        r.lemma_fields();
    }
    r
}

/// Makes an array of its elements.
fn array(items: Vec<Json>) -> (r: Json)
    ensures
        r@ == JsonView::Array(seq_views(items@)),
{
    let r = Json::Array(items);
    proof {
        r.lemma_fields();
    }
    r
}

/// A text as JSON.
fn string(s: &str) -> (r: Json)
    ensures
        r@ == JsonView::Str(s@),
{
    Json::Str(s.to_string())
}

fn encode_block(block: &ContentBlock) -> (r: Json)
    ensures
        r@ == wire_block(block@),
{
    let fields: Vec<(String, Json)> = match block {
        ContentBlock::Text { text } => vec![
            ("text".to_string(), string(text.as_str())),
            ("type".to_string(), string("text")),
        ],
        ContentBlock::ToolUse { id, name, input } => vec![
            ("id".to_string(), string(id.as_str())),
            ("input".to_string(), input.clone()),
            ("name".to_string(), string(name.as_str())),
            ("type".to_string(), string("tool_use")),
        ],
        ContentBlock::ToolResult { tool_use_id, content, is_error } => vec![
            ("content".to_string(), string(content.as_str())),
            ("is_error".to_string(), Json::Bool(*is_error)),
            ("tool_use_id".to_string(), string(tool_use_id.as_str())),
            ("type".to_string(), string("tool_result")),
        ],
    };
    assert(field_views(fields@) =~= wire_block(block@)->Object_0);
    object(fields)
}

fn encode_message(message: &Message) -> (r: Json)
    ensures
        r@ == wire_message(message@),
{
    let mut blocks: Vec<Json> = Vec::new();
    let mut i: usize = 0;
    while i < message.content.len()
        invariant
            i <= message.content.len(),
            blocks.len() == i,
            forall|k: int| 0 <= k < i ==> (#[trigger] blocks@[k])@ == wire_block(message.content@[k]@),
        decreases message.content.len() - i,
    {
        blocks.push(encode_block(&message.content[i]));
        i = i + 1;
    }
    assert(seq_views(blocks@) =~= wire_blocks(message@.content));
    let role = match message.role {
        Role::User => "user",
        Role::Assistant => "assistant",
    };
    let fields: Vec<(String, Json)> = vec![
        ("content".to_string(), array(blocks)),
        ("role".to_string(), string(role)),
    ];
    assert(field_views(fields@) =~= wire_message(message@)->Object_0);
    object(fields)
}

fn encode_tool(tool: &ToolSpec) -> (r: Json)
    ensures
        r@ == wire_tool(tool@),
{
    let fields: Vec<(String, Json)> = vec![
        ("description".to_string(), string(tool.description.as_str())),
        ("input_schema".to_string(), tool.input_schema.clone()),
        ("name".to_string(), string(tool.name.as_str())),
    ];
    assert(field_views(fields@) =~= wire_tool(tool@)->Object_0);
    object(fields)
}

/// Makes the body of a request, for a model.
pub fn encode_request(model: &str, req: &CompletionRequest) -> (r: Json)
    ensures
        r@ == wire_request(model@, req@),
{
    let mut messages: Vec<Json> = Vec::new();
    let mut i: usize = 0;
    while i < req.messages.len()
        invariant
            i <= req.messages.len(),
            messages.len() == i,
            forall|k: int| 0 <= k < i ==> (#[trigger] messages@[k])@ == wire_message(req.messages@[k]@),
        decreases req.messages.len() - i,
    {
        messages.push(encode_message(&req.messages[i]));
        i = i + 1;
    }
    assert(seq_views(messages@) =~= wire_messages(req@.messages));
    let mut tools: Vec<Json> = Vec::new();
    i = 0;
    while i < req.tools.len()
        invariant
            i <= req.tools.len(),
            tools.len() == i,
            forall|k: int| 0 <= k < i ==> (#[trigger] tools@[k])@ == wire_tool(req.tools@[k]@),
        decreases req.tools.len() - i,
    {
        tools.push(encode_tool(&req.tools[i]));
        i = i + 1;
    }
    assert(seq_views(tools@) =~= wire_tools(req@.tools));
    let mut fields: Vec<(String, Json)> = vec![
        ("max_tokens".to_string(), Json::Uint(req.max_tokens as u64)),
        ("messages".to_string(), array(messages)),
        ("model".to_string(), string(model)),
        ("system".to_string(), string(req.system.as_str())),
    ];
    if let Some(name) = &req.tool_choice {
        let choice: Vec<(String, Json)> = vec![
            ("name".to_string(), string(name.as_str())),
            ("type".to_string(), string("tool")),
        ];
        assert(field_views(choice@) =~= wire_choice(name@)->Object_0);
        fields.push(("tool_choice".to_string(), object(choice)));
    }
    fields.push(("tools".to_string(), array(tools)));
    assert(field_views(fields@) =~= wire_request(model@, req@)->Object_0);
    object(fields)
}

} // verus!
