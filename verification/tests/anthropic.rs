//! What is sent to the model's service and what is made of its answer.

use murmur::harness::error::HarnessError;
use murmur::harness::llm::{
    CompletionRequest, CompletionResponse, ContentBlock, Message, Role, StopReason, ToolSpec, Usage,
};
use murmur::harness::providers::anthropic::AnthropicProvider;
use murmur::json::Json;

fn answer() -> CompletionResponse {
    CompletionResponse {
        content: vec![ContentBlock::Text { text: "hi there".into() }],
        stop_reason: StopReason::EndTurn,
        usage: Usage { input_tokens: 42, output_tokens: 7 },
    }
}

#[test]
fn api_error_maps_to_provider_error_with_body() {
    let err = AnthropicProvider::settle(
        false,
        "401 Unauthorized",
        r#"{"type":"error","error":{"type":"authentication_error","message":"invalid x-api-key"}}"#,
        Err("missing field `content`".into()),
    )
    .unwrap_err();
    match err {
        HarnessError::Provider(msg) => {
            assert!(msg.contains("401"));
            assert!(msg.contains("invalid x-api-key"));
        }
        other => panic!("wrong error: {other:?}"),
    }
}

#[test]
fn request_goes_to_the_messages_endpoint_with_the_key() {
    let provider = AnthropicProvider::new("sk-test".into(), "haiku-4-5-20251001".into());
    assert_eq!(provider.url(), "https://api.anthropic.com/v1/messages");
    let provider = provider.with_base_url("http://127.0.0.1:8080".into());
    assert_eq!(provider.url(), "http://127.0.0.1:8080/v1/messages");
    assert_eq!(provider.model(), "haiku-4-5-20251001");
    let headers = provider.headers();
    assert!(headers.contains(&("x-api-key", "sk-test".to_string())));
    assert!(headers.contains(&("anthropic-version", "2023-06-01".to_string())));
    assert!(headers.contains(&("authorization", "Bearer sk-test".to_string())));
}

#[test]
fn decoded_answer_is_handed_on() {
    let resp = AnthropicProvider::settle(true, "200 OK", "{}", Ok(answer())).unwrap();
    assert_eq!(resp, answer());
}

#[test]
fn undecodable_answer_is_a_provider_error() {
    let err = AnthropicProvider::settle(true, "200 OK", "<html>", Err("expected value".into()))
        .unwrap_err();
    assert!(matches!(&err, HarnessError::Provider(msg) if msg.contains("expected value")));
}

#[test]
fn request_body_has_the_shape_of_the_endpoint() {
    let provider = AnthropicProvider::new("sk-test".into(), "haiku-4-5-20251001".into());
    let request = CompletionRequest {
        system: "sys".into(),
        messages: vec![
            Message::user_text("hello".into()),
            Message {
                role: Role::Assistant,
                content: vec![ContentBlock::ToolUse {
                    id: "tu_9".into(),
                    name: "echo".into(),
                    input: Json::parse(r#"{"text": "x"}"#).unwrap(),
                }],
            },
            Message {
                role: Role::User,
                content: vec![ContentBlock::ToolResult {
                    tool_use_id: "tu_9".into(),
                    content: "x".into(),
                    is_error: false,
                }],
            },
        ],
        tools: vec![ToolSpec {
            name: "echo".into(),
            description: "d".into(),
            input_schema: Json::parse(r#"{"type": "object"}"#).unwrap(),
        }],
        max_tokens: 256,
        tool_choice: None,
    };
    let body = provider.body(&request);
    assert_eq!(body.get_str("model"), Some("haiku-4-5-20251001"));
    assert_eq!(body.get_str("system"), Some("sys"));
    assert_eq!(body.get("max_tokens").unwrap().as_u64(), Some(256));
    let messages = body.get("messages").unwrap().as_array().unwrap();
    assert_eq!(messages[0].get_str("role"), Some("user"));
    assert_eq!(messages[0].render(), r#"{"content":[{"text":"hello","type":"text"}],"role":"user"}"#);
    assert_eq!(
        messages[1].render(),
        r#"{"content":[{"id":"tu_9","input":{"text":"x"},"name":"echo","type":"tool_use"}],"role":"assistant"}"#
    );
    assert_eq!(
        messages[2].render(),
        r#"{"content":[{"content":"x","is_error":false,"tool_use_id":"tu_9","type":"tool_result"}],"role":"user"}"#
    );
    let tools = body.get("tools").unwrap().as_array().unwrap();
    assert_eq!(tools[0].get_str("name"), Some("echo"));
    assert!(body.get("tool_choice").is_none());
    let forced = provider.body(&CompletionRequest { tool_choice: Some("echo".into()), ..request });
    assert_eq!(forced.get("tool_choice").unwrap().render(), r#"{"name":"echo","type":"tool"}"#);
}
