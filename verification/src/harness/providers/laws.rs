//! What goes over the wire, read as the endpoint reads it.

use vstd::prelude::*;
use crate::harness::error::HarnessError;
use crate::harness::error::HarnessErrorView;
use crate::harness::llm::BlockView;
use crate::harness::llm::CompletionRequest;
use crate::harness::llm::CompletionResponse;
use crate::harness::llm::MessageView;
use crate::harness::llm::Role;
use crate::harness::llm::ToolSpecView;
use crate::harness::providers::anthropic::AnthropicProvider;
use crate::harness::providers::anthropic::header_views;
use crate::harness::providers::wire::wire_block;
use crate::harness::providers::wire::wire_choice;
use crate::harness::providers::wire::wire_message;
use crate::harness::providers::wire::wire_tool;
use crate::json::field_of;
use crate::json::Json;
use crate::json::JsonView;

verus! {

/// A block says of what kind it is, and holds what was said, called or answered.
pub proof fn law_blocks_are_told_apart(b: BlockView)
    ensures
        match b {
            BlockView::Text { text } => {
                &&& wire_block(b).get("type"@) == Some(JsonView::Str("text"@))
                &&& wire_block(b).get("text"@) == Some(JsonView::Str(text))
            },
            BlockView::ToolUse { id, name, input } => {
                &&& wire_block(b).get("type"@) == Some(JsonView::Str("tool_use"@))
                &&& wire_block(b).get("id"@) == Some(JsonView::Str(id))
                &&& wire_block(b).get("name"@) == Some(JsonView::Str(name))
                &&& wire_block(b).get("input"@) == Some(input)
            },
            BlockView::ToolResult { tool_use_id, content, is_error } => {
                &&& wire_block(b).get("type"@) == Some(JsonView::Str("tool_result"@))
                &&& wire_block(b).get("tool_use_id"@) == Some(JsonView::Str(tool_use_id))
                &&& wire_block(b).get("content"@) == Some(JsonView::Str(content))
                &&& wire_block(b).get("is_error"@) == Some(JsonView::Bool(is_error))
            },
        },
{
    reveal_with_fuel(field_of, 5);
    reveal_strlit("text");
    reveal_strlit("type");
    reveal_strlit("id");
    reveal_strlit("input");
    reveal_strlit("name");
    reveal_strlit("content");
    reveal_strlit("is_error");
    reveal_strlit("tool_use_id");
    assert("text"@[1] == 'e' && "type"@[1] == 'y' && "name"@[0] == 'n');
    assert("id"@.len() == 2 && "input"@.len() == 5 && "content"@.len() == 7);
    assert("is_error"@.len() == 8 && "tool_use_id"@.len() == 11 && "type"@.len() == 4);
    assert("text"@.len() == 4 && "name"@.len() == 4);
}

/// A message says who speaks and holds all blocks, in their order.
pub proof fn law_messages_keep_their_blocks(m: MessageView)
    ensures
        wire_message(m).get("role"@) == Some(
            JsonView::Str(
                if m.role == Role::User {
                    "user"@
                } else {
                    "assistant"@
                },
            ),
        ),
        wire_message(m).get("content"@) matches Some(JsonView::Array(blocks)) && blocks.len()
            == m.content.len() && forall|i: int|
            0 <= i < blocks.len() ==> #[trigger] blocks[i] == wire_block(m.content[i]),
{
    reveal_with_fuel(field_of, 3);
    reveal_strlit("content");
    reveal_strlit("role");
    assert("content"@.len() == 7 && "role"@.len() == 4);
}

/// A tool is offered with its name, its purpose and the schema of its input.
pub proof fn law_tools_are_offered_whole(t: ToolSpecView)
    ensures
        wire_tool(t).get("name"@) == Some(JsonView::Str(t.name)),
        wire_tool(t).get("description"@) == Some(JsonView::Str(t.description)),
        wire_tool(t).get("input_schema"@) == Some(t.input_schema),
{
    reveal_with_fuel(field_of, 4);
    reveal_strlit("name");
    reveal_strlit("description");
    reveal_strlit("input_schema");
    assert("name"@.len() == 4 && "description"@.len() == 11 && "input_schema"@.len() == 12);
}

/// A request names the model of the provider and its budget, holds the whole
/// conversation and all tools, and forces a tool only where one is to be called.
pub proof fn law_body(p: &AnthropicProvider, req: &CompletionRequest, body: Json)
    requires
        call_ensures(AnthropicProvider::body, (p, req), body),
    ensures
        body@.get("model"@) == Some(JsonView::Str(p@.model)),
        body@.get("max_tokens"@) == Some(JsonView::Uint(req@.max_tokens as u64)),
        body@.get("system"@) == Some(JsonView::Str(req@.system)),
        body@.get("messages"@) matches Some(JsonView::Array(all)) && all.len()
            == req@.messages.len() && forall|i: int|
            0 <= i < all.len() ==> #[trigger] all[i] == wire_message(req@.messages[i]),
        body@.get("tools"@) matches Some(JsonView::Array(all)) && all.len() == req@.tools.len()
            && forall|i: int|
            0 <= i < all.len() ==> #[trigger] all[i] == wire_tool(req@.tools[i]),
        req@.tool_choice is None ==> body@.get("tool_choice"@) is None,
        req@.tool_choice matches Some(name) ==> {
            let choice = body@.get("tool_choice"@)->0;
            &&& body@.get("tool_choice"@) is Some
            &&& choice.get("type"@) == Some(JsonView::Str("tool"@))
            &&& choice.get("name"@) == Some(JsonView::Str(name))
        },
{
    reveal_with_fuel(field_of, 7);
    reveal_strlit("max_tokens");
    reveal_strlit("messages");
    reveal_strlit("model");
    reveal_strlit("system");
    reveal_strlit("tool_choice");
    reveal_strlit("tools");
    reveal_strlit("name");
    reveal_strlit("type");
    assert("model"@[0] == 'm' && "tools"@[0] == 't' && "name"@[0] == 'n' && "type"@[0] == 't');
    assert("max_tokens"@.len() == 10 && "messages"@.len() == 8 && "system"@.len() == 6);
    assert("tool_choice"@.len() == 11 && "model"@.len() == 5 && "tools"@.len() == 5);
    assert(req@.tool_choice matches Some(name) ==> wire_choice(name).get("type"@) == Some(
        JsonView::Str("tool"@),
    ));
}

/// A request goes to the host's message path, with the key of the provider.
pub proof fn law_url_and_headers(
    p: &AnthropicProvider,
    url: String,
    headers: Vec<(&'static str, String)>,
)
    requires
        call_ensures(AnthropicProvider::url, (p,), url),
        call_ensures(AnthropicProvider::headers, (p,), headers),
    ensures
        p@.base_url.is_prefix_of(url@),
        url@.skip(p@.base_url.len() as int) == "/v1/messages"@,
        headers@.len() == 3,
        headers@[0].0@ == "x-api-key"@ && headers@[0].1@ == p@.api_key,
        headers@[1].0@ == "authorization"@ && headers@[1].1@ == "Bearer "@ + p@.api_key,
        headers@[2].0@ == "anthropic-version"@ && headers@[2].1@ == "2023-06-01"@,
{
    assert(url@.skip(p@.base_url.len() as int) =~= "/v1/messages"@);
    let views = header_views(headers@);
    assert(views.len() == 3);
    assert(views[0].0 == headers@[0].0@ && views[0].1 == headers@[0].1@);
    assert(views[1].0 == headers@[1].0@ && views[1].1 == headers@[1].1@);
    assert(views[2].0 == headers@[2].0@ && views[2].1 == headers@[2].1@);
}

/// An answer is taken only from a reply that succeeded and could be read. Every
/// other is a failure of the provider that holds the text of the reply.
pub proof fn law_settle(
    success: bool,
    status: &str,
    text: &str,
    decoded: Result<CompletionResponse, String>,
    r: Result<CompletionResponse, HarnessError>,
)
    requires
        call_ensures(AnthropicProvider::settle, (success, status, text, decoded), r),
    ensures
        r is Ok <==> success && decoded is Ok,
        r matches Ok(resp) ==> resp@ == decoded->Ok_0@,
        r matches Err(e) ==> (e@ matches HarnessErrorView::Provider(message) && text@.len()
            <= message.len() && message.skip(message.len() - text@.len()) == text@),
{
    if let Err(e) = r {
        let message = e@->Provider_0;
        assert(message.skip(message.len() - text@.len()) =~= text@);
    }
}

/// A provider asks the model that it was made for, on the usual host unless told
/// otherwise.
pub proof fn law_provider_is_what_it_was_made(
    api_key: String,
    model: String,
    base_url: String,
    p: AnthropicProvider,
    q: AnthropicProvider,
)
    requires
        call_ensures(AnthropicProvider::new, (api_key, model), p),
        call_ensures(AnthropicProvider::with_base_url, (p, base_url), q),
    ensures
        p@.api_key == api_key@ && q@.api_key == api_key@,
        p@.model == model@ && q@.model == model@,
        p@.base_url == "https://api.anthropic.com"@,
        q@.base_url == base_url@,
{
}

} // verus!
