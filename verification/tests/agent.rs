//! The agent loop, its tools and the scripted model.

use murmur::harness::agent::{Agent, AgentConfig, AgentStep, RunError, TurnOutcome};
use murmur::harness::error::HarnessError;
use murmur::harness::llm::{
    CompletionRequest, CompletionResponse, ContentBlock, Message, Role, StopReason, ToolSpecView,
    Usage,
};
use murmur::harness::mock::MockProvider;
use murmur::harness::tool::{Tool, ToolRegistry};
use murmur::json::Json;

fn json(text: &str) -> Json {
    Json::parse(text).unwrap()
}

fn usage1() -> Usage {
    Usage { input_tokens: 10, output_tokens: 20 }
}

fn text_end(s: &str) -> CompletionResponse {
    CompletionResponse {
        content: vec![ContentBlock::Text { text: s.into() }],
        stop_reason: StopReason::EndTurn,
        usage: usage1(),
    }
}

fn tool_call(name: &str, input: Json) -> CompletionResponse {
    CompletionResponse {
        content: vec![ContentBlock::ToolUse { id: "tu_1".into(), name: name.into(), input }],
        stop_reason: StopReason::ToolUse,
        usage: usage1(),
    }
}

/// Keeps every call in the environment and gives a fixed reply.
#[derive(Clone)]
struct Recorder {
    reply: Result<String, String>,
}

impl Tool for Recorder {
    type Env = Vec<Json>;

    fn offered(self) -> ToolSpecView {
        unreachable!()
    }

    fn name(&self) -> &str {
        "recorder"
    }
    fn description(&self) -> &str {
        "records calls"
    }
    fn input_schema(&self) -> Json {
        json(r#"{"type": "object"}"#)
    }
    fn execute(&mut self, env: &mut Vec<Json>, input: &Json) -> Result<String, HarnessError> {
        env.push(input.clone());
        self.reply
            .clone()
            .map_err(|m| HarnessError::Tool { name: "recorder".into(), message: m })
    }
}

fn config() -> AgentConfig {
    AgentConfig { system_prompt: "you are a field agent".into(), max_turns: 5, max_tokens: 1000 }
}

fn drive<T: Tool>(
    agent: Agent<T>,
    messages: Vec<Message>,
    env: &mut T::Env,
    provider: &mut MockProvider,
) -> Result<TurnOutcome, RunError> {
    let mut step = agent.run(messages);
    loop {
        step = match step {
            AgentStep::Ask(run) => {
                let reply = provider.complete(run.request().clone());
                run.advance(env, reply)
            }
            AgentStep::Done { outcome, .. } => return outcome,
        };
    }
}

fn recording(reply: Result<String, String>) -> ToolRegistry<Recorder> {
    let mut reg = ToolRegistry::new();
    reg.register(Recorder { reply });
    reg
}

#[test]
fn text_only_response_ends_the_loop() {
    let mut provider = MockProvider::new(vec![text_end("done")]);
    let agent: Agent<Recorder> = Agent::new(ToolRegistry::new(), config());
    let out = drive(agent, vec![Message::user_text("hi".into())], &mut Vec::new(), &mut provider)
        .unwrap();
    assert_eq!(out.text, "done");
    assert_eq!(out.usage, usage1());
    let reqs = provider.requests();
    assert_eq!(reqs.len(), 1);
    assert_eq!(reqs[0].system, "you are a field agent");
}

#[test]
fn tool_call_executes_and_result_feeds_back() {
    let mut calls = Vec::new();
    let mut provider = MockProvider::new(vec![
        tool_call("recorder", json(r#"{"x": 1}"#)),
        text_end("all done"),
    ]);
    let agent = Agent::new(recording(Ok("saved".into())), config());
    let out = drive(agent, vec![Message::user_text("go".into())], &mut calls, &mut provider)
        .unwrap();

    assert_eq!(out.text, "all done");
    assert_eq!(calls.as_slice(), &[json(r#"{"x": 1}"#)]);
    // usage accumulated over two provider calls
    assert_eq!(out.usage, Usage { input_tokens: 20, output_tokens: 40 });

    // second request must carry assistant tool_use then user tool_result
    let reqs = provider.requests();
    assert_eq!(reqs.len(), 2);
    let second = &reqs[1];
    let assistant = &second.messages[second.messages.len() - 2];
    let user = &second.messages[second.messages.len() - 1];
    assert_eq!(assistant.role, Role::Assistant);
    assert!(matches!(&assistant.content[0], ContentBlock::ToolUse { name, .. } if name == "recorder"));
    assert_eq!(
        user.content[0],
        ContentBlock::ToolResult {
            tool_use_id: "tu_1".into(),
            content: "saved".into(),
            is_error: false,
        }
    );
}

#[test]
fn failing_tool_becomes_error_result_not_abort() {
    let mut provider = MockProvider::new(vec![
        tool_call("recorder", json("{}")),
        text_end("recovered"),
    ]);
    let agent = Agent::new(recording(Err("disk full".into())), config());
    let out = drive(agent, vec![Message::user_text("go".into())], &mut Vec::new(), &mut provider)
        .unwrap();
    assert_eq!(out.text, "recovered");
    let reqs = provider.requests();
    let user = reqs[1].messages.last().unwrap();
    assert!(matches!(
        &user.content[0],
        ContentBlock::ToolResult { is_error: true, content, .. } if content.contains("disk full")
    ));
    assert!(matches!(
        &user.content[0],
        ContentBlock::ToolResult { content, .. } if content == "tool 'recorder' failed: disk full"
    ));
}

#[test]
fn unknown_tool_becomes_error_result() {
    let mut provider = MockProvider::new(vec![tool_call("ghost", json("{}")), text_end("ok")]);
    let agent: Agent<Recorder> = Agent::new(ToolRegistry::new(), config());
    let out = drive(agent, vec![Message::user_text("go".into())], &mut Vec::new(), &mut provider)
        .unwrap();
    assert_eq!(out.text, "ok");
    let reqs = provider.requests();
    let user = reqs[1].messages.last().unwrap();
    assert!(matches!(
        &user.content[0],
        ContentBlock::ToolResult { is_error: true, content, .. } if content.contains("ghost")
    ));
}

#[test]
fn max_turns_aborts() {
    // always answers with a tool call; max_turns = 5 → 5 responses then error
    let responses = (0..5).map(|_| tool_call("recorder", json("{}"))).collect();
    let mut provider = MockProvider::new(responses);
    let agent = Agent::new(recording(Ok("again".into())), config());
    let err = drive(agent, vec![Message::user_text("go".into())], &mut Vec::new(), &mut provider)
        .unwrap_err();
    assert!(matches!(err.source, HarnessError::MaxTurns(5)));
    assert_eq!(provider.requests().len(), 5);
    // what was spent is not lost
    assert_eq!(err.usage, Usage { input_tokens: 50, output_tokens: 100 });
}

#[test]
fn no_turns_at_all_is_an_error_without_a_request() {
    let agent: Agent<Recorder> =
        Agent::new(ToolRegistry::new(), AgentConfig { max_turns: 0, ..config() });
    let mut provider = MockProvider::new(vec![text_end("unused")]);
    let err = drive(agent, vec![Message::user_text("go".into())], &mut Vec::new(), &mut provider)
        .unwrap_err();
    assert!(matches!(err.source, HarnessError::MaxTurns(0)));
    assert_eq!(err.source.to_text(), "agent exceeded max turns (0)");
    assert!(provider.requests().is_empty());
}

#[test]
fn failed_call_carries_the_cost_of_earlier_ones() {
    let mut provider = MockProvider::new(vec![tool_call("recorder", json("{}"))]);
    let agent = Agent::new(recording(Ok("ok".into())), config());
    let err = drive(agent, vec![Message::user_text("go".into())], &mut Vec::new(), &mut provider)
        .unwrap_err();
    assert!(matches!(&err.source, HarnessError::Provider(m) if m == "mock script exhausted"));
    assert_eq!(err.usage, usage1());
}

#[test]
fn several_calls_of_one_answer_run_in_order() {
    let answer = CompletionResponse {
        content: vec![
            ContentBlock::Text { text: "working".into() },
            ContentBlock::ToolUse { id: "a".into(), name: "recorder".into(), input: json("1") },
            ContentBlock::ToolUse { id: "b".into(), name: "ghost".into(), input: json("2") },
            ContentBlock::ToolUse { id: "c".into(), name: "recorder".into(), input: json("3") },
        ],
        stop_reason: StopReason::ToolUse,
        usage: usage1(),
    };
    let end = CompletionResponse {
        content: vec![
            ContentBlock::Text { text: "one".into() },
            ContentBlock::Text { text: "two".into() },
        ],
        stop_reason: StopReason::EndTurn,
        usage: usage1(),
    };
    let mut calls = Vec::new();
    let mut provider = MockProvider::new(vec![answer, end]);
    let agent = Agent::new(recording(Ok("ok".into())), config());
    let out = drive(agent, vec![Message::user_text("go".into())], &mut calls, &mut provider)
        .unwrap();
    assert_eq!(calls, vec![json("1"), json("3")]);
    assert_eq!(out.text, "one\ntwo");
    let results = &provider.requests()[1].messages.last().unwrap().content;
    let ids: Vec<&str> = results
        .iter()
        .map(|b| match b {
            ContentBlock::ToolResult { tool_use_id, .. } => tool_use_id.as_str(),
            _ => panic!("expected a result"),
        })
        .collect();
    assert_eq!(ids, vec!["a", "b", "c"]);
    assert_eq!(out.messages.len(), 4);
}

struct Echo {
    name: String,
}

impl Tool for Echo {
    type Env = ();

    fn offered(self) -> ToolSpecView {
        unreachable!()
    }

    fn name(&self) -> &str {
        &self.name
    }
    fn description(&self) -> &str {
        "echoes the input back"
    }
    fn input_schema(&self) -> Json {
        json(r#"{"type": "object", "properties": {"text": {"type": "string"}}, "required": ["text"]}"#)
    }
    fn execute(&mut self, _env: &mut (), input: &Json) -> Result<String, HarnessError> {
        Ok(input.get_str("text").unwrap_or_default().to_string())
    }
}

fn echo(name: &str) -> Echo {
    Echo { name: name.to_string() }
}

#[test]
fn dispatches_by_name() {
    let mut reg = ToolRegistry::new();
    reg.register(echo("echo"));
    let out = reg.execute(&mut (), "echo", &json(r#"{"text": "hi"}"#)).unwrap();
    assert_eq!(out, "hi");
}

#[test]
fn unknown_tool_is_an_error() {
    let mut reg: ToolRegistry<Echo> = ToolRegistry::new();
    let err = reg.execute(&mut (), "nope", &json("{}")).unwrap_err();
    assert!(matches!(&err, HarnessError::UnknownTool(n) if n == "nope"));
    assert_eq!(err.to_text(), "unknown tool: nope");
}

#[test]
fn specs_lists_registered_tools() {
    let mut reg = ToolRegistry::new();
    reg.register(echo("echo"));
    let specs = reg.specs();
    assert_eq!(specs.len(), 1);
    assert_eq!(specs[0].name, "echo");
    assert_eq!(specs[0].description, "echoes the input back");
}

#[test]
fn tools_are_listed_by_name_and_replaced_by_name() {
    let mut reg = ToolRegistry::new();
    reg.register(echo("m"));
    reg.register(echo("z"));
    reg.register(echo("a"));
    reg.register(echo("m"));
    let names: Vec<String> = reg.specs().into_iter().map(|s| s.name).collect();
    assert_eq!(names, vec!["a", "m", "z"]);
}

fn text_response(s: &str) -> CompletionResponse {
    CompletionResponse {
        content: vec![ContentBlock::Text { text: s.into() }],
        stop_reason: StopReason::EndTurn,
        usage: Usage { input_tokens: 1, output_tokens: 1 },
    }
}

#[test]
fn returns_scripted_responses_in_order_and_records_requests() {
    let mut mock = MockProvider::new(vec![text_response("one"), text_response("two")]);
    let req = CompletionRequest {
        system: "sys".into(),
        messages: vec![Message::user_text("hi".into())],
        tools: vec![],
        max_tokens: 100,
        tool_choice: None,
    };
    let r1 = mock.complete(req.clone()).unwrap();
    let r2 = mock.complete(req.clone()).unwrap();
    assert_eq!(r1.content, vec![ContentBlock::Text { text: "one".into() }]);
    assert_eq!(r2.content, vec![ContentBlock::Text { text: "two".into() }]);
    assert_eq!(mock.requests().len(), 2);
    assert_eq!(mock.requests()[0].system, "sys");
}

#[test]
fn errors_when_script_is_exhausted() {
    let mut mock = MockProvider::new(vec![]);
    let req = CompletionRequest {
        system: String::new(),
        messages: vec![],
        tools: vec![],
        max_tokens: 1,
        tool_choice: None,
    };
    let err = mock.complete(req).unwrap_err();
    assert!(matches!(err, HarnessError::Provider(_)));
}

struct SaveItem;

impl Tool for SaveItem {
    type Env = ();

    fn offered(self) -> ToolSpecView {
        unreachable!()
    }

    fn name(&self) -> &str {
        "save_item"
    }
    fn description(&self) -> &str {
        "saves a captured item"
    }
    fn input_schema(&self) -> Json {
        json(r#"{"type": "object", "properties": {"title": {"type": "string"}}, "required": ["title"]}"#)
    }
    fn execute(&mut self, _env: &mut (), input: &Json) -> Result<String, HarnessError> {
        Ok(format!("saved: {}", input.get_str("title").unwrap_or("?")))
    }
}

#[test]
fn tool_result_reaches_the_transcript() {
    let mut provider = MockProvider::new(vec![
        CompletionResponse {
            content: vec![ContentBlock::ToolUse {
                id: "tu_1".into(),
                name: "save_item".into(),
                input: json(r#"{"title": "bark mulch — front beds"}"#),
            }],
            stop_reason: StopReason::ToolUse,
            usage: Usage { input_tokens: 20, output_tokens: 15 },
        },
        CompletionResponse {
            content: vec![ContentBlock::Text { text: "logged the mulch".into() }],
            stop_reason: StopReason::EndTurn,
            usage: Usage { input_tokens: 30, output_tokens: 10 },
        },
    ]);
    let mut tools = ToolRegistry::new();
    tools.register(SaveItem);
    let agent = Agent::new(
        tools,
        AgentConfig {
            system_prompt: "extract items from field transcripts".into(),
            max_turns: 4,
            max_tokens: 512,
        },
    );
    let out = drive(
        agent,
        vec![Message::user_text("front beds need mulch, call it three yards".into())],
        &mut (),
        &mut provider,
    )
    .unwrap();
    assert_eq!(out.text, "logged the mulch");
    assert_eq!(out.usage.input_tokens, 50);
    assert_eq!(out.usage.output_tokens, 25);
    assert!(out.messages.iter().any(|m| m.content.iter().any(|b| matches!(
        b,
        ContentBlock::ToolResult { content, .. } if content == "saved: bark mulch — front beds"
    ))));
}

#[test]
fn whole_run_counts_every_reply_and_keeps_the_conversation() {
    let mut calls = Vec::new();
    let mut provider = MockProvider::new(vec![
        tool_call("recorder", json(r#"{"x": 1}"#)),
        tool_call("recorder", json(r#"{"x": 2}"#)),
        text_end("all done"),
    ]);
    let input = vec![Message::user_text("go".into()), Message::user_text("now".into())];
    let agent = Agent::new(recording(Ok("saved".into())), config());
    let out = drive(agent, input.clone(), &mut calls, &mut provider).unwrap();
    assert_eq!(out.usage, Usage { input_tokens: 30, output_tokens: 60 });
    assert!(provider.requests().len() <= config().max_turns);
    assert_eq!(out.messages.len(), input.len() + 2 * 3 - 1);
    assert_eq!(&out.messages[..2], input.as_slice());
    assert_eq!(out.messages[2].content, tool_call("recorder", json(r#"{"x": 1}"#)).content);
    assert_eq!(out.messages[4].content, tool_call("recorder", json(r#"{"x": 2}"#)).content);
    assert_eq!(out.messages[6].content, text_end("all done").content);
}
