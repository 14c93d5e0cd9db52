//! When a memory is rewritten, and what is kept if the rewrite fails.

use murmur::clock::Clock;
use murmur::harness::error::HarnessError;
use murmur::harness::llm::{CompletionResponse, ContentBlock, StopReason, Usage};
use murmur::harness::memory::store::{MemoryStore, SavesView};
use murmur::harness::memory::Memory;
use murmur::harness::mock::MockProvider;
use murmur::json::Json;
use murmur::notes::coordinator::{ReflectionCoordinator, ReflectionStep};
use murmur::notes::error::CoreError;
use murmur::notes::pipeline::workspace::Workspace;
use murmur::notes::store::Store;
use murmur::ratio::Ratio;

fn json(text: &str) -> Json {
    Json::parse(text).unwrap()
}

/// Records every save so tests can assert the snapshot-then-swap order.
struct SpyMemoryStore {
    saved: Vec<Memory>,
    /// The save, counted from one, that fails.
    fails_at: usize,
}

impl MemoryStore for SpyMemoryStore {
    fn saves(self) -> SavesView {
        unreachable!()
    }
    fn load(&self) -> Result<Memory, HarnessError> {
        Ok(Memory::default())
    }
    fn save(&mut self, m: &Memory) -> Result<(), HarnessError> {
        self.saved.push(m.clone());
        if self.saved.len() == self.fails_at {
            return Err(HarnessError::Provider("disk full".into()));
        }
        Ok(())
    }
}

fn write_memory_response(sections: &str) -> CompletionResponse {
    CompletionResponse {
        content: vec![ContentBlock::ToolUse {
            id: "tu_1".into(),
            name: "write_memory".into(),
            input: json(&format!("{{\"sections\": {sections}}}")),
        }],
        stop_reason: StopReason::ToolUse,
        usage: Usage { input_tokens: 200, output_tokens: 40 },
    }
}

fn store_with_ended_session() -> Store {
    let mut s = Store::open_in_memory("device-a").unwrap().with_clock(Clock::Fixed(1000));
    let session = s.start_session(None).unwrap();
    s.append_transcript(&session.id, "walked the deck with Dev").unwrap();
    s.end_and_record_session(&session.id).unwrap();
    s
}

struct Rig {
    coordinator: ReflectionCoordinator,
    work: Workspace<SpyMemoryStore>,
    provider: MockProvider,
}

impl Rig {
    fn maybe_reflect(&mut self) -> Result<Option<Ratio>, CoreError> {
        match self.coordinator.maybe_reflect(&mut self.work)? {
            ReflectionStep::Skip => Ok(None),
            ReflectionStep::Ask(run) => {
                let reply = self.provider.complete(run.request());
                run.advance(&mut self.work, reply).map(Some)
            }
        }
    }
}

fn coordinator_with(responses: Vec<CompletionResponse>, store: Store) -> Rig {
    Rig {
        coordinator: ReflectionCoordinator::new(),
        work: Workspace {
            store,
            memory: Memory::default(),
            memory_store: SpyMemoryStore { saved: Vec::new(), fails_at: 0 },
        },
        provider: MockProvider::new(responses),
    }
}

#[test]
fn reflects_when_policy_says_so() {
    let mut rig = coordinator_with(
        vec![write_memory_response(r#"{"people": ["Dev — framer"]}"#)],
        store_with_ended_session(),
    );
    let churn = rig.maybe_reflect().unwrap();
    assert!(churn.is_some());

    // memory swapped
    assert_eq!(rig.work.memory.section_texts("people"), vec!["Dev — framer"]);
    // snapshot-then-swap: first save is the PRE-reflection memory (empty),
    // second is the new one
    let saves = &rig.work.memory_store.saved;
    assert_eq!(saves.len(), 2);
    assert!(saves[0].sections().is_empty());
    assert_eq!(saves[1].section_texts("people"), vec!["Dev — framer"]);

    // signals recorded + cost logged
    let store = &rig.work.store;
    let signals = store.reflection_signals().unwrap();
    assert_eq!(signals.completed_reflections, 1);
    assert_eq!(signals.sessions_since_reflection, 0);
    assert_eq!(store.usage_totals().unwrap(), (200, 40));
}

#[test]
fn second_call_after_success_is_skipped() {
    let mut rig = coordinator_with(
        vec![write_memory_response(r#"{"people": ["Dev — framer"]}"#)],
        store_with_ended_session(),
    );
    assert!(rig.maybe_reflect().unwrap().is_some());
    // reset signals stop the second call: no reflection, no extra saves
    let churn = rig.maybe_reflect().unwrap();
    assert!(churn.is_none());
    assert_eq!(
        rig.work.memory_store.saved.len(),
        2,
        "only the first run's snapshot + swap saves"
    );
}

#[test]
fn skips_when_policy_says_no() {
    // fresh store: zero sessions since reflection -> policy false
    let store = Store::open_in_memory("device-a").unwrap();
    let mut rig = coordinator_with(vec![], store);
    let churn = rig.maybe_reflect().unwrap();
    assert!(churn.is_none());
    assert!(rig.work.memory_store.saved.is_empty(), "no saves when skipped");
}

#[test]
fn skips_when_no_activity() {
    // a completed-session counter without any ended session content
    // (e.g. all sessions tombstoned since): policy says yes, activity is empty
    let mut s = Store::open_in_memory("device-a").unwrap().with_clock(Clock::Fixed(1000));
    let session = s.start_session(None).unwrap();
    s.end_and_record_session(&session.id).unwrap(); // empty transcript -> blank activity entry skipped
    let mut rig = coordinator_with(vec![], s);
    let churn = rig.maybe_reflect().unwrap();
    assert!(churn.is_none());
    assert!(rig.work.memory_store.saved.is_empty());
}

#[test]
fn engine_failure_leaves_memory_and_signals_untouched() {
    // engine errors (no write_memory in response)
    let bad = CompletionResponse {
        content: vec![ContentBlock::Text { text: "refused".into() }],
        stop_reason: StopReason::EndTurn,
        usage: Usage::default(),
    };
    let mut rig = coordinator_with(vec![bad], store_with_ended_session());
    let err = rig.maybe_reflect().unwrap_err();
    assert!(matches!(err, CoreError::Agent(_)));
    assert!(rig.work.memory.sections().is_empty(), "memory not swapped");
    // only the pre-reflection snapshot save happened
    assert_eq!(rig.work.memory_store.saved.len(), 1);
    let signals = rig.work.store.reflection_signals().unwrap();
    assert_eq!(signals.completed_reflections, 0, "failed reflection is not recorded");
}

/// A content failure (post-completion — write_memory has malformed sections)
/// returns an error, leaves memory and signals untouched, AND records a
/// "reflection" usage row for the tokens that were burned.
#[test]
fn content_failure_with_real_usage_records_cost() {
    // Provider call succeeds (real usage), but write_memory sections is not an object.
    let malformed = CompletionResponse {
        content: vec![ContentBlock::ToolUse {
            id: "tu_1".into(),
            name: "write_memory".into(),
            input: json(r#"{ "sections": "not an object" }"#),
        }],
        stop_reason: StopReason::ToolUse,
        usage: Usage { input_tokens: 200, output_tokens: 40 },
    };
    let mut rig = coordinator_with(vec![malformed], store_with_ended_session());
    let err = rig.maybe_reflect().unwrap_err();
    assert!(matches!(err, CoreError::Agent(_)));

    // memory and signals untouched
    assert!(rig.work.memory.sections().is_empty(), "memory not swapped");
    let store = &rig.work.store;
    assert_eq!(
        store.reflection_signals().unwrap().completed_reflections,
        0,
        "failed reflection is not counted"
    );
    // but the burned tokens must appear as a "reflection" usage row
    assert_eq!(
        store.usage_totals().unwrap(),
        (200, 40),
        "post-completion failure usage must be logged"
    );
}

#[test]
fn failed_snapshot_asks_nothing() {
    let mut rig = coordinator_with(vec![], store_with_ended_session());
    rig.work.memory_store.fails_at = 1;
    assert!(rig.maybe_reflect().is_err());
    assert!(rig.provider.requests().is_empty());
    assert_eq!(rig.work.store.reflection_signals().unwrap().completed_reflections, 0);
}

#[test]
fn failed_second_save_leaves_the_reflection_due() {
    let mut rig = coordinator_with(
        vec![write_memory_response(r#"{"people": ["Dev — framer"]}"#)],
        store_with_ended_session(),
    );
    rig.work.memory_store.fails_at = 2;
    let before = rig.work.store.reflection_signals().unwrap();
    assert!(matches!(rig.maybe_reflect(), Err(CoreError::Agent(_))));
    // the new memory is in use, though it could not be kept
    assert_eq!(rig.work.memory.section_texts("people"), vec!["Dev — framer"]);
    let after = rig.work.store.reflection_signals().unwrap();
    assert_eq!(after.completed_reflections, 0);
    assert_eq!(after.sessions_since_reflection, before.sessions_since_reflection);
}

#[test]
fn request_shows_the_activity_since_the_last_reflection() {
    let mut rig = coordinator_with(
        vec![write_memory_response(r#"{"people": []}"#)],
        store_with_ended_session(),
    );
    let churn = rig.maybe_reflect().unwrap();
    assert_eq!(churn, Some(Ratio { num: 0, den: 1 }));
    let request = &rig.provider.requests()[0];
    assert_eq!(request.tool_choice.as_deref(), Some("write_memory"));
    assert!(matches!(
        &request.messages[0].content[0],
        ContentBlock::Text { text } if text.contains("walked the deck with Dev")
    ));
}
