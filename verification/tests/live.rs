//! Passes over a transcript while it is still being recorded.

use murmur::harness::error::HarnessError;
use murmur::harness::llm::{CompletionResponse, ContentBlock, StopReason, Usage};
use murmur::harness::memory::store::{MemoryStore, SavesView};
use murmur::harness::memory::{FactSource, Memory};
use murmur::harness::mock::MockProvider;
use murmur::json::Json;
use murmur::notes::domain::ItemSource;
use murmur::notes::error::CoreError;
use murmur::notes::pipeline::live::{LiveExtractOutcome, LiveExtractor, LiveStep};
use murmur::notes::pipeline::workspace::Workspace;
use murmur::notes::store::Store;

fn json(text: &str) -> Json {
    Json::parse(text).unwrap()
}

struct NullMemoryStore;

impl MemoryStore for NullMemoryStore {
    fn saves(self) -> SavesView {
        unreachable!()
    }
    fn load(&self) -> Result<Memory, HarnessError> {
        Ok(Memory::default())
    }
    fn save(&mut self, _m: &Memory) -> Result<(), HarnessError> {
        Ok(())
    }
}

fn tool_use(name: &str, input: Json) -> CompletionResponse {
    CompletionResponse {
        content: vec![ContentBlock::ToolUse { id: "tu_1".into(), name: name.into(), input }],
        stop_reason: StopReason::ToolUse,
        usage: Usage { input_tokens: 30, output_tokens: 8 },
    }
}

fn end_turn(text: &str) -> CompletionResponse {
    CompletionResponse {
        content: vec![ContentBlock::Text { text: text.into() }],
        stop_reason: StopReason::EndTurn,
        usage: Usage { input_tokens: 10, output_tokens: 2 },
    }
}

struct Rig {
    extractor: LiveExtractor,
    work: Workspace<NullMemoryStore>,
    provider: MockProvider,
}

impl Rig {
    fn maybe_extract(&mut self) -> Result<LiveExtractOutcome, CoreError> {
        let mut step = self.extractor.maybe_extract(&mut self.work)?;
        loop {
            step = match step {
                LiveStep::Ask(run) => {
                    let reply = self.provider.complete(run.request().clone());
                    run.advance(&mut self.extractor, &mut self.work, reply)?
                }
                LiveStep::Done(outcome) => return Ok(outcome),
            };
        }
    }
}

fn rig(store: Store, memory: Memory, responses: Vec<CompletionResponse>, sid: &str) -> Rig {
    Rig {
        extractor: LiveExtractor::new(sid),
        work: Workspace { store, memory, memory_store: NullMemoryStore },
        provider: MockProvider::new(responses),
    }
}

/// Recording session with `transcript`, plus a store and memory.
/// `min_new_chars` is dropped to 1 so short test transcripts trigger.
fn extractor_with(responses: Vec<CompletionResponse>, transcript: &str) -> (Rig, String) {
    let mut store = Store::open_in_memory("device-a").unwrap();
    let session = store.start_session(None).unwrap();
    if !transcript.is_empty() {
        store.append_transcript(&session.id, transcript).unwrap();
    }
    let mut rig = rig(store, Memory::default(), responses, &session.id);
    rig.extractor.min_new_chars = 1;
    (rig, session.id)
}

#[test]
fn extracts_items_and_advances_cursor() {
    let (mut rig, sid) = extractor_with(
        vec![
            tool_use("add_item", json(r#"{"kind": "todo", "text": "order lumber"}"#)),
            end_turn("captured"),
        ],
        "we need to order lumber for the deck",
    );
    assert_eq!(rig.extractor.cursor(), 0);
    let outcome = rig.maybe_extract().unwrap();
    assert_eq!(
        outcome,
        LiveExtractOutcome::Extracted {
            items_added: 1,
            usage: Usage { input_tokens: 40, output_tokens: 10 },
        }
    );
    // cursor advanced to the transcript length in chars
    assert_eq!(rig.extractor.cursor(), "we need to order lumber for the deck".chars().count());

    let store = &rig.work.store;
    let items = store.list_items_for_session(&sid).unwrap();
    assert_eq!(items.len(), 1);
    assert_eq!(items[0].kind, "todo");
    assert_eq!(items[0].source, ItemSource::Live);
    // the live pass is billed to the session under its own purpose
    let usage = store.list_llm_usage_for_session(&sid).unwrap();
    assert_eq!(usage.len(), 1);
    assert_eq!(usage[0].purpose, "live_extraction");
    assert_eq!(usage[0].input_tokens, 40);
}

#[test]
fn skips_when_too_little_new_transcript() {
    // default min_new_chars (120) with a 5-char transcript → no call
    let mut store = Store::open_in_memory("device-a").unwrap();
    let session = store.start_session(None).unwrap();
    store.append_transcript(&session.id, "hi ok").unwrap();
    let mut rig = rig(store, Memory::default(), vec![], &session.id);
    let outcome = rig.maybe_extract().unwrap();
    assert_eq!(outcome, LiveExtractOutcome::Skipped);
    assert!(rig.provider.requests().is_empty(), "no LLM call when below the floor");
    assert_eq!(rig.extractor.cursor(), 0);
}

#[test]
fn skips_when_no_new_transcript_since_last_pass() {
    let (mut rig, _sid) = extractor_with(
        vec![
            tool_use("add_item", json(r#"{"kind": "todo", "text": "x"}"#)),
            end_turn("ok"),
        ],
        "order lumber for the deck today",
    );
    assert!(matches!(rig.maybe_extract().unwrap(), LiveExtractOutcome::Extracted { .. }));
    // no new transcript appended → second pass skips
    assert_eq!(rig.maybe_extract().unwrap(), LiveExtractOutcome::Skipped);
    assert_eq!(rig.provider.requests().len(), 2);
}

#[test]
fn skips_when_not_recording() {
    // end the session first: process()'s domain, not the extractor's
    let (mut rig, sid) = extractor_with(vec![], "a long enough transcript to clear the floor");
    rig.work.store.end_and_record_session(&sid).unwrap();
    let outcome = rig.maybe_extract().unwrap();
    assert_eq!(outcome, LiveExtractOutcome::Skipped, "not recording → no live pass");
    assert_eq!(rig.extractor.cursor(), 0);
}

#[test]
fn provider_error_is_swallowed_and_cursor_held() {
    // empty script → first complete() errors: RunError carries zero usage
    let (mut rig, sid) = extractor_with(vec![], "order lumber for the deck today");
    let outcome = rig.maybe_extract().unwrap();
    assert_eq!(outcome, LiveExtractOutcome::Failed { usage: Usage::default() });
    // cursor NOT advanced → next tick retries the same window
    assert_eq!(rig.extractor.cursor(), 0);
    let store = &rig.work.store;
    // no tokens burned → no usage row (a zero row would be noise)
    assert!(store.list_llm_usage_for_session(&sid).unwrap().is_empty());
    assert!(store.list_items_for_session(&sid).unwrap().is_empty());
}

#[test]
fn mid_run_failure_logs_partial_usage_and_holds_cursor() {
    // one tool_use response, then the script is exhausted → the agent loops
    // for a second turn and the provider errors. RunError carries the first
    // turn's usage AND the add_item already wrote one live item.
    let (mut rig, sid) = extractor_with(
        vec![tool_use("add_item", json(r#"{"kind": "todo", "text": "order lumber"}"#))],
        "order lumber for the deck today",
    );
    let outcome = rig.maybe_extract().unwrap();
    assert_eq!(
        outcome,
        LiveExtractOutcome::Failed { usage: Usage { input_tokens: 30, output_tokens: 8 } }
    );
    assert_eq!(rig.extractor.cursor(), 0, "cursor held so the window retries");

    let store = &rig.work.store;
    // the item the failing pass already wrote stays on the board
    assert_eq!(store.list_items_for_session(&sid).unwrap().len(), 1);
    // partial spend is logged
    let usage = store.list_llm_usage_for_session(&sid).unwrap();
    assert_eq!(usage.len(), 1);
    assert_eq!(usage[0].purpose, "live_extraction");
    assert_eq!(usage[0].input_tokens, 30);
}

#[test]
fn already_captured_list_is_in_the_user_message() {
    let mut store = Store::open_in_memory("device-a").unwrap();
    let session = store.start_session(None).unwrap();
    store.append_transcript(&session.id, "still need to order the lumber today").unwrap();
    store.add_item(&session.id, "todo", "order lumber").unwrap();
    let mut rig = rig(store, Memory::default(), vec![end_turn("noted")], &session.id);
    rig.extractor.min_new_chars = 1;
    rig.maybe_extract().unwrap();
    let reqs = rig.provider.requests();
    assert!(matches!(
        &reqs[0].messages[0].content[0],
        ContentBlock::Text { text }
            if text.contains("already captured") && text.contains("order lumber")
    ));
}

#[test]
fn memory_reaches_the_live_system_prompt() {
    let mut store = Store::open_in_memory("device-a").unwrap();
    let session = store.start_session(None).unwrap();
    store.append_transcript(&session.id, "talk about the french drain regrade").unwrap();
    let mut memory = Memory::default();
    memory.remember_from("vocabulary", "french drain", 1, FactSource::Stated, None);
    let mut rig = rig(store, memory, vec![end_turn("nothing new")], &session.id);
    rig.extractor.min_new_chars = 1;
    rig.maybe_extract().unwrap();
    let reqs = rig.provider.requests();
    assert!(reqs[0].system.contains("french drain"));
    // and the new transcript reached the user message
    assert!(matches!(
        &reqs[0].messages[0].content[0],
        ContentBlock::Text { text } if text.contains("french drain regrade")
    ));
}

#[test]
fn long_backlog_is_read_window_by_window() {
    let backlog = "abcdefghijklmnopqrstuvwxyz";
    let (mut rig, _sid) = extractor_with(vec![end_turn("a"), end_turn("b"), end_turn("c")], backlog);
    rig.extractor.transcript_window_tokens = 3;
    assert!(matches!(rig.maybe_extract().unwrap(), LiveExtractOutcome::Extracted { .. }));
    assert_eq!(rig.extractor.cursor(), 12);
    rig.maybe_extract().unwrap();
    assert_eq!(rig.extractor.cursor(), 24);
    rig.maybe_extract().unwrap();
    assert_eq!(rig.extractor.cursor(), 26);
    let shown: Vec<bool> = ["abcdefghijkl", "mnopqrstuvwx", "yz"]
        .iter()
        .zip(rig.provider.requests())
        .map(|(part, req)| matches!(
            &req.messages[0].content[0],
            ContentBlock::Text { text } if text.contains(part)
        ))
        .collect();
    assert_eq!(shown, vec![true, true, true]);
}

#[test]
fn item_that_arrives_after_the_end_is_refused() {
    let (mut rig, sid) = extractor_with(vec![], "order lumber for the deck today");
    let LiveStep::Ask(run) = rig.extractor.maybe_extract(&mut rig.work).unwrap() else {
        panic!("expected a request")
    };
    rig.work.store.end_and_record_session(&sid).unwrap();
    let reply = tool_use("add_item", json(r#"{"kind": "todo", "text": "order lumber"}"#));
    let step = run.advance(&mut rig.extractor, &mut rig.work, Ok(reply)).unwrap();
    let LiveStep::Ask(run) = step else { panic!("expected a second request") };
    let results = &run.request().messages.last().unwrap().content;
    assert!(matches!(
        &results[0],
        ContentBlock::ToolResult { is_error: true, content, .. }
            if content.contains("no longer recording")
    ));
    assert!(rig.work.store.list_items_for_session(&sid).unwrap().is_empty());
}

#[test]
fn unknown_session_is_an_error_of_the_pass() {
    let store = Store::open_in_memory("device-a").unwrap();
    let mut rig = rig(store, Memory::default(), vec![], "nope");
    assert!(matches!(
        rig.maybe_extract(),
        Err(CoreError::NotFound { entity: "session", .. })
    ));
}
