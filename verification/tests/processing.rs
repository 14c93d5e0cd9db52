//! Processing a recorded session into items, a summary and a document.

use murmur::harness::error::HarnessError;
use murmur::harness::llm::{CompletionResponse, ContentBlock, StopReason, Usage};
use murmur::harness::memory::store::{MemoryStore, SavesView};
use murmur::harness::memory::{FactSource, Memory};
use murmur::harness::mock::MockProvider;
use murmur::json::Json;
use murmur::notes::domain::{ItemSource, SessionStatus};
use murmur::notes::error::CoreError;
use murmur::notes::pipeline::processor::{
    doc_kind_for_template, ProcessOutcome, ProcessStep, SessionProcessor,
};
use murmur::notes::pipeline::queue::{PendingStep, Processed};
use murmur::notes::pipeline::workspace::Workspace;
use murmur::notes::store::Store;

fn json(text: &str) -> Json {
    Json::parse(text).unwrap()
}

/// Memory store stub — these tests don't touch disk.
struct NullMemoryStore;

impl MemoryStore for NullMemoryStore {
    fn saves(self) -> SavesView {
        unreachable!()
    }
    fn load(&self) -> Result<Memory, HarnessError> {
        Ok(Memory::default())
    }
    fn save(&mut self, _m: &Memory) -> Result<(), HarnessError> {
        Ok(())
    }
}

struct Rig {
    processor: SessionProcessor,
    work: Workspace<NullMemoryStore>,
    provider: MockProvider,
}

impl Rig {
    fn process(&mut self, session_id: &str) -> Result<ProcessOutcome, CoreError> {
        let mut step = self.processor.process(&mut self.work, session_id);
        loop {
            step = match step {
                ProcessStep::Ask(run) => {
                    let reply = self.provider.complete(run.request().clone());
                    run.advance(&mut self.work, reply)
                }
                ProcessStep::Done(outcome) => return outcome,
            };
        }
    }

    fn process_pending(&mut self) -> Result<Vec<Processed>, CoreError> {
        let mut step = self.processor.process_pending(&mut self.work)?;
        loop {
            step = match step {
                PendingStep::Ask(run) => {
                    let reply = self.provider.complete(run.request().clone());
                    run.advance(&mut self.work, reply)
                }
                PendingStep::Done(results) => return Ok(results),
            };
        }
    }
}

fn rig_with(store: Store, memory: Memory, responses: Vec<CompletionResponse>) -> Rig {
    Rig {
        processor: SessionProcessor::new(),
        work: Workspace { store, memory, memory_store: NullMemoryStore },
        provider: MockProvider::new(responses),
    }
}

fn processor_with(responses: Vec<CompletionResponse>) -> (Rig, String) {
    let mut store = Store::open_in_memory("device-a").unwrap();
    let session = store.start_session(None).unwrap();
    store
        .append_transcript(&session.id, "we need lumber. call Dev the framer.")
        .unwrap();
    store.end_and_record_session(&session.id).unwrap();
    (rig_with(store, Memory::default(), responses), session.id)
}

fn tool_use(name: &str, input: Json) -> CompletionResponse {
    CompletionResponse {
        content: vec![ContentBlock::ToolUse { id: "tu_1".into(), name: name.into(), input }],
        stop_reason: StopReason::ToolUse,
        usage: Usage { input_tokens: 100, output_tokens: 20 },
    }
}

fn end_turn(text: &str) -> CompletionResponse {
    CompletionResponse {
        content: vec![ContentBlock::Text { text: text.into() }],
        stop_reason: StopReason::EndTurn,
        usage: Usage { input_tokens: 50, output_tokens: 10 },
    }
}

fn summary_response(text: &str) -> CompletionResponse {
    tool_use("write_summary", json(&format!("{{\"summary\": \"{text}\"}}")))
}

/// A minimal successful `build_document` response: every run that succeeds
/// makes this forced call last.
fn document_response() -> CompletionResponse {
    tool_use(
        "build_document",
        json(r#"{"total_kind": "sum", "total_label_key": "total", "lines": []}"#),
    )
}

#[test]
fn processes_a_session_end_to_end() {
    let (mut rig, sid) = processor_with(vec![
        tool_use("add_item", json(r#"{"kind": "todo", "text": "order lumber"}"#)),
        tool_use("upsert_contact", json(r#"{"name": "Dev", "trade": "framer"}"#)),
        end_turn("done"),
        summary_response("Ordered lumber; Dev handles framing."),
        document_response(),
    ]);
    let outcome = rig.process(&sid).unwrap();
    assert_eq!(outcome.session.status, SessionStatus::Processed);
    assert_eq!(outcome.session.summary.as_deref(), Some("Ordered lumber; Dev handles framing."));
    // usage: 100+20, 100+20, 50+10 agent + 100+20 summary + 100+20 build_document
    assert_eq!(outcome.usage, Usage { input_tokens: 450, output_tokens: 90 });

    let store = &rig.work.store;
    assert_eq!(store.list_items_for_session(&sid).unwrap().len(), 1);
    assert_eq!(store.list_contacts().unwrap().len(), 1);
    let usage_rows = store.list_llm_usage_for_session(&sid).unwrap();
    assert_eq!(usage_rows.len(), 1);
    assert_eq!(usage_rows[0].purpose, "processing");
    assert_eq!(usage_rows[0].input_tokens, 450);
    let artifacts = store.list_artifacts_for_session(&sid).unwrap();
    assert!(artifacts.iter().any(|a| a.kind == "document"), "phase B built a document artifact");
}

#[test]
fn processes_and_builds_a_document_artifact() {
    let (mut rig, sid) = processor_with(vec![
        end_turn("nothing to extract"),
        summary_response("Walked the site."),
        document_response(),
    ]);
    rig.process(&sid).unwrap();
    let store = &rig.work.store;
    let artifacts = store.list_artifacts_for_session(&sid).unwrap();
    assert!(artifacts.iter().any(|a| a.kind == "document"), "phase B built a document artifact");
    // one folded usage row (purpose stays "processing" across all phases)
    let usage_rows = store.list_llm_usage_for_session(&sid).unwrap();
    assert_eq!(usage_rows.len(), 1);
    assert_eq!(usage_rows[0].purpose, "processing");
}

#[test]
fn failure_marks_failed_and_still_logs_usage() {
    // agent pass succeeds, summary response has no tool call -> Provider error
    let (mut rig, sid) = processor_with(vec![
        end_turn("nothing to extract"),
        end_turn("I refuse to call tools"),
    ]);
    let err = rig.process(&sid).unwrap_err();
    assert!(matches!(err, CoreError::Agent(_)));
    let store = &rig.work.store;
    assert_eq!(store.get_session(&sid).unwrap().status, SessionStatus::Failed);
    let usage_rows = store.list_llm_usage_for_session(&sid).unwrap();
    assert_eq!(usage_rows.len(), 1, "cost is logged even on failure");
    // agent pass (50) + summary call that skipped the tool (50) — the
    // failed summary call still cost tokens and they must be counted
    assert_eq!(usage_rows[0].input_tokens, 100);
    assert_eq!(usage_rows[0].output_tokens, 20);
}

#[test]
fn retry_after_failure_does_not_duplicate_outputs() {
    let (mut rig, sid) = processor_with(vec![
        // attempt 1: extracts one item, then summary fails
        tool_use("add_item", json(r#"{"kind": "todo", "text": "order lumber"}"#)),
        end_turn("done"),
        end_turn("no summary tool"),
        // attempt 2: extracts the same item again, summary succeeds
        tool_use("add_item", json(r#"{"kind": "todo", "text": "order lumber"}"#)),
        end_turn("done"),
        summary_response("Lumber ordered."),
        document_response(),
    ]);
    assert!(rig.process(&sid).is_err());
    rig.process(&sid).unwrap();
    let store = &rig.work.store;
    assert_eq!(
        store.list_items_for_session(&sid).unwrap().len(),
        1,
        "attempt 1's item was cleared before retry"
    );
}

#[test]
fn live_item_survives_a_failed_process_then_is_swapped_on_retry() {
    let mut store = Store::open_in_memory("device-a").unwrap();
    let session = store.start_session(None).unwrap();
    store.add_item_with_source(&session.id, "todo", "live capture", ItemSource::Live).unwrap();
    store.append_transcript(&session.id, "order the framing lumber today").unwrap();
    store.end_and_record_session(&session.id).unwrap();
    let sid = session.id.clone();
    // attempt 1 fails (summary returns no tool); attempt 2 succeeds.
    let mut rig = rig_with(store, Memory::default(), vec![
        end_turn("no extraction"), end_turn("no summary tool"),
        tool_use("add_item", json(r#"{"kind":"todo","text":"order 12 2x10s"}"#)),
        end_turn("done"),
        summary_response("Lumber ordered."),
        document_response(),
    ]);
    assert!(rig.process(&sid).is_err());
    // the live board survived the failure.
    assert_eq!(rig.work.store.list_items_for_session(&sid).unwrap().len(), 1);
    rig.process(&sid).unwrap();
    // swap: live capture gone, exactly the authoritative item remains.
    let items = rig.work.store.list_items_for_session(&sid).unwrap();
    assert_eq!(items.len(), 1);
    assert_eq!(items[0].text, "order 12 2x10s");
    assert_eq!(items[0].source, ItemSource::Authoritative);
}

/// Repeated FAILED retries must not accumulate duplicate
/// authoritative todos. The clear at the start bounds them to one in-flight
/// attempt while the live board (safety net) and manual items persist.
#[test]
fn repeated_failed_retries_do_not_accumulate_authoritative_dupes() {
    let mut store = Store::open_in_memory("device-a").unwrap();
    let session = store.start_session(None).unwrap();
    let sid = session.id.clone();
    store.add_item_with_source(&sid, "todo", "live capture", ItemSource::Live).unwrap();
    store.add_item_with_source(&sid, "note", "manual note", ItemSource::Manual).unwrap();
    store.append_transcript(&sid, "order the framing lumber today").unwrap();
    store.end_and_record_session(&sid).unwrap();

    // Two attempts that extract one authoritative item then fail on summary,
    // then a success.
    let mut rig = rig_with(store, Memory::default(), vec![
        tool_use("add_item", json(r#"{"kind":"todo","text":"order lumber"}"#)),
        end_turn("done"), end_turn("no summary tool"),          // attempt 1 fails
        tool_use("add_item", json(r#"{"kind":"todo","text":"order lumber"}"#)),
        end_turn("done"), end_turn("no summary tool"),          // attempt 2 fails
        tool_use("add_item", json(r#"{"kind":"todo","text":"order 12 2x10s"}"#)),
        end_turn("done"), summary_response("Lumber ordered."), document_response(),  // attempt 3 succeeds
    ]);

    let auth = |s: &Store| s.list_items_for_session(&sid).unwrap()
        .into_iter().filter(|i| i.source == ItemSource::Authoritative).count();
    let live = |s: &Store| s.list_items_for_session(&sid).unwrap()
        .into_iter().any(|i| i.source == ItemSource::Live);

    assert!(rig.process(&sid).is_err());
    { let s = &rig.work.store;
      assert!(live(s), "live board survives failure #1");
      assert_eq!(auth(s), 1, "one attempt's authoritative items after failure #1"); }

    assert!(rig.process(&sid).is_err());
    { let s = &rig.work.store;
      assert!(live(s), "live board survives failure #2");
      assert_eq!(auth(s), 1, "still one attempt's worth — the entry clear bounds dupes"); }

    rig.process(&sid).unwrap();
    let s = &rig.work.store;
    let items = s.list_items_for_session(&sid).unwrap();
    assert_eq!(items.len(), 2, "exactly this-run authoritative + the manual entry");
    assert!(items.iter().any(|i| i.text == "order 12 2x10s" && i.source == ItemSource::Authoritative));
    assert!(items.iter().any(|i| i.text == "manual note" && i.source == ItemSource::Manual));
    assert!(!items.iter().any(|i| i.source == ItemSource::Live), "live board swapped out on success");
}

/// A document number is a scarce, user-visible sequence (EST-0047). A run
/// that fails before phase B never built a document, so it must not consume
/// a number — otherwise the retry shows a gap (EST-0048 with no 0047).
#[test]
fn failed_attempt_does_not_burn_a_document_number() {
    let (mut rig, sid) = processor_with(vec![
        // attempt 1: extracts an item, then the summary call returns no tool
        tool_use("add_item", json(r#"{"kind": "todo", "text": "order lumber"}"#)),
        end_turn("done"),
        end_turn("no summary tool"),
        // attempt 2: succeeds all the way through phase B
        tool_use("add_item", json(r#"{"kind": "todo", "text": "order lumber"}"#)),
        end_turn("done"),
        summary_response("Lumber ordered."),
        document_response(),
    ]);
    assert!(rig.process(&sid).is_err());
    rig.process(&sid).unwrap();
    let store = &rig.work.store;
    let doc = store
        .list_artifacts_for_session(&sid)
        .unwrap()
        .into_iter()
        .find(|a| a.kind == "document")
        .unwrap();
    let v = json(&doc.body);
    assert_eq!(v.get("doc_number").unwrap().as_u64(), Some(1), "a failed attempt before phase B must not burn a number");
}

#[test]
fn recording_session_is_rejected() {
    let (mut rig, _sid) = processor_with(vec![]);
    let recording = rig.work.store.start_session(None).unwrap();
    let err = rig.process(&recording.id).unwrap_err();
    assert!(matches!(err, CoreError::InvalidState(_)));
}

#[test]
fn memory_reaches_the_system_prompt() {
    let mut store = Store::open_in_memory("device-a").unwrap();
    let session = store.start_session(None).unwrap();
    store.append_transcript(&session.id, "talk about the french drain").unwrap();
    store.end_and_record_session(&session.id).unwrap();
    let mut memory = Memory::default();
    memory.remember_from("vocabulary", "french drain", 1, FactSource::Stated, None);
    let mut rig = rig_with(
        store,
        memory,
        vec![end_turn("done"), summary_response("s"), document_response()],
    );
    rig.process(&session.id).unwrap();
    let reqs = rig.provider.requests();
    assert!(reqs[0].system.contains("french drain"));
}

#[test]
fn unknown_session_is_not_found() {
    let (mut rig, _sid) = processor_with(vec![]);
    let err = rig.process("no-such-session").unwrap_err();
    assert!(matches!(err, CoreError::NotFound { entity: "session", .. }));
}

/// MaxTurns burns real tokens and those tokens must appear in the usage row
/// even though the agent never returned a successful TurnOutcome.
#[test]
fn max_turns_logs_partial_usage() {
    // agent pass: one tool_use response with real usage, then MaxTurns fires
    // max_turns = 1 so the loop fires after the first tool_use response
    let (mut rig, sid) = processor_with(vec![
        tool_use("add_item", json(r#"{"kind": "todo", "text": "order lumber"}"#)),
    ]);
    rig.processor.max_turns = 1;

    let err = rig.process(&sid).unwrap_err();
    assert!(matches!(err, CoreError::Agent(HarnessError::MaxTurns(1))));

    let store = &rig.work.store;
    assert_eq!(store.get_session(&sid).unwrap().status, SessionStatus::Failed);
    let usage_rows = store.list_llm_usage_for_session(&sid).unwrap();
    assert_eq!(usage_rows.len(), 1, "usage logged even when agent hits MaxTurns");
    // exact tokens from the one scripted tool_use response
    assert_eq!(usage_rows[0].input_tokens, 100);
    assert_eq!(usage_rows[0].output_tokens, 20);
}

/// A failed session stays Failed and process_pending does NOT re-pull it on
/// a second call — only AwaitingProcessing sessions are drained.
#[test]
fn process_pending_does_not_retry_failed_sessions() {
    let (mut rig, sid) = processor_with(vec![
        end_turn("nothing to extract"),
        end_turn("no summary tool"), // summary call returns no tool → Provider error
    ]);
    // First drain: session goes Failed
    let results1 = rig.process_pending().unwrap();
    assert_eq!(results1.len(), 1);
    assert!(results1[0].1.is_err());
    assert_eq!(
        rig.work.store.get_session(&sid).unwrap().status,
        SessionStatus::Failed
    );

    // Second drain: nothing in AwaitingProcessing → empty
    let results2 = rig.process_pending().unwrap();
    assert!(
        results2.is_empty(),
        "failed session must not be re-pulled by a second process_pending call"
    );
}

/// Empty (or whitespace-only) transcripts never reach the LLM — the real
/// Anthropic API rejects empty content blocks. The session is processed
/// directly with a placeholder summary and zero usage.
#[test]
fn empty_transcript_skips_llm_and_processes_with_placeholder() {
    let mut store = Store::open_in_memory("device-a").unwrap();
    let session = store.start_session(None).unwrap();
    store.end_and_record_session(&session.id).unwrap();
    let mut rig = rig_with(store, Memory::default(), vec![]);
    let outcome = rig.process(&session.id).unwrap();
    assert_eq!(outcome.session.status, SessionStatus::Processed);
    assert_eq!(outcome.session.summary.as_deref(), Some("(empty session)"));
    assert_eq!(outcome.usage, Usage::default());
    assert!(rig.provider.requests().is_empty(), "no LLM calls for an empty session");
}

#[test]
fn whitespace_only_transcript_also_skips_llm() {
    let mut store = Store::open_in_memory("device-a").unwrap();
    let session = store.start_session(None).unwrap();
    store.append_transcript(&session.id, "  \n\t  ").unwrap();
    store.end_and_record_session(&session.id).unwrap();
    let mut rig = rig_with(store, Memory::default(), vec![]);
    let outcome = rig.process(&session.id).unwrap();
    assert_eq!(outcome.session.summary.as_deref(), Some("(empty session)"));
    assert!(rig.provider.requests().is_empty());
}

#[test]
fn process_pending_on_empty_queue_is_ok_and_empty() {
    let store = Store::open_in_memory("device-a").unwrap();
    let mut rig = rig_with(store, Memory::default(), vec![]);
    assert!(rig.process_pending().unwrap().is_empty());
}

#[test]
fn process_pending_drains_the_queue_and_survives_failures() {
    let mut store = Store::open_in_memory("device-a").unwrap();
    let a = store.start_session(None).unwrap();
    store.append_transcript(&a.id, "session a words").unwrap();
    store.end_and_record_session(&a.id).unwrap();
    let b = store.start_session(None).unwrap();
    store.append_transcript(&b.id, "session b words").unwrap();
    store.end_and_record_session(&b.id).unwrap();
    // still recording — must be untouched
    let c = store.start_session(None).unwrap();

    // queue order is reverse-chron (b first): b succeeds, a fails on summary
    let mut rig = rig_with(store, Memory::default(), vec![
        end_turn("done b"),
        summary_response("B done."),
        document_response(),
        end_turn("done a"),
        end_turn("no summary tool"),
    ]);

    let results = rig.process_pending().unwrap();
    assert_eq!(results.len(), 2);
    assert!(results.iter().any(|(id, r)| id == &b.id && r.is_ok()));
    assert!(results.iter().any(|(id, r)| id == &a.id && r.is_err()));

    let store = &rig.work.store;
    assert_eq!(store.get_session(&b.id).unwrap().status, SessionStatus::Processed);
    assert_eq!(store.get_session(&a.id).unwrap().status, SessionStatus::Failed);
    assert_eq!(store.get_session(&c.id).unwrap().status, SessionStatus::Recording);
}

#[test]
fn empty_session_spends_no_document_number() {
    let mut store = Store::open_in_memory("device-a").unwrap();
    let session = store.start_session(None).unwrap();
    store.end_and_record_session(&session.id).unwrap();
    let mut rig = rig_with(store, Memory::default(), vec![]);
    let outcome = rig.process(&session.id).unwrap();
    assert_eq!(outcome.document_artifact_id, None);
    assert_eq!(rig.work.store.mint_document_number("report").unwrap(), 1);
}

#[test]
fn failed_document_keeps_the_board_and_the_number() {
    let (mut rig, sid) = processor_with(vec![
        end_turn("done"),
        summary_response("s"),
        tool_use("build_document", json(r#"{"lines": []}"#)),
    ]);
    assert!(matches!(rig.process(&sid), Err(CoreError::Agent(_))));
    let store = &mut rig.work.store;
    assert_eq!(store.get_session(&sid).unwrap().status, SessionStatus::Failed);
    assert_eq!(store.usage_totals().unwrap(), (250, 50));
    assert!(store.latest_document_artifact(&sid).unwrap().is_none());
    assert_eq!(store.mint_document_number("report").unwrap(), 1);
}

#[test]
fn processed_session_is_not_processed_again() {
    let (mut rig, sid) = processor_with(vec![
        end_turn("done"),
        summary_response("first"),
        document_response(),
    ]);
    let document = rig.process(&sid).unwrap().document_artifact_id.unwrap();
    assert_eq!(rig.work.store.latest_document_artifact(&sid).unwrap().unwrap().id, document);
    assert!(matches!(rig.process(&sid), Err(CoreError::InvalidState(_))));
    assert_eq!(rig.provider.requests().len(), 3);
    assert_eq!(rig.work.store.mint_document_number("report").unwrap(), 2);
}

#[test]
fn forced_calls_name_their_tool_and_their_budget() {
    let (mut rig, sid) = processor_with(vec![
        end_turn("done"),
        summary_response("s"),
        document_response(),
    ]);
    rig.process(&sid).unwrap();
    let requests = rig.provider.requests();
    assert_eq!(requests.len(), 3);
    assert_eq!(requests[0].tool_choice, None);
    assert_eq!(requests[0].max_tokens, 4096);
    assert_eq!(requests[1].tool_choice.as_deref(), Some("write_summary"));
    assert_eq!(requests[1].max_tokens, 512);
    assert_eq!(requests[2].tool_choice.as_deref(), Some("build_document"));
    assert_eq!(requests[2].max_tokens, 1024);
    let names: Vec<&str> = requests[0].tools.iter().map(|t| t.name.as_str()).collect();
    assert_eq!(names, vec!["add_item", "update_memory", "upsert_contact", "write_report"]);
}

#[test]
fn template_decides_the_kind_of_document() {
    assert_eq!(doc_kind_for_template(Some("landscape")), "estimate");
    assert_eq!(doc_kind_for_template(Some("inspection")), "inspection");
    assert_eq!(doc_kind_for_template(Some("field")), "report");
    assert_eq!(doc_kind_for_template(None), "report");
}

#[test]
fn learned_fact_names_the_session() {
    let (mut rig, sid) = processor_with(vec![
        tool_use(
            "update_memory",
            json(r#"{"op": "remember", "section": "people", "text": "Dev — framer"}"#),
        ),
        end_turn("done"),
        summary_response("s"),
        document_response(),
    ]);
    rig.process(&sid).unwrap();
    let entry = &rig.work.memory.section("people").unwrap()[0];
    assert_eq!(entry.text, "Dev — framer");
    assert_eq!(entry.session.as_deref(), Some(sid.as_str()));
}

#[test]
fn new_run_on_a_numbered_session_keeps_its_number() {
    let mut store = Store::open_in_memory("device-a").unwrap();
    let sid = store.start_session(None).unwrap().id;
    store.append_transcript(&sid, "walked the site").unwrap();
    store.end_and_record_session(&sid).unwrap();
    store.mint_document_number("report").unwrap();
    let earlier = store
        .mint_document_number_and_add_artifact(&sid, "report", None, json(r#"{"lines": []}"#))
        .unwrap();
    assert_eq!(earlier.title, "report #2");
    let mut rig = rig_with(
        store,
        Memory::default(),
        vec![end_turn("done"), summary_response("s"), document_response()],
    );
    let document = rig.process(&sid).unwrap().document_artifact_id.unwrap();
    assert_ne!(document, earlier.id);
    let artifact = rig.work.store.get_artifact(&document).unwrap();
    assert_eq!(artifact.title, "report #2");
    assert_eq!(json(&artifact.body).get("doc_number").unwrap().as_u64(), Some(2));
    assert_eq!(rig.work.store.mint_document_number("report").unwrap(), 3);
}

#[test]
fn queue_goes_on_past_failures_and_empty_sessions() {
    let mut store = Store::open_in_memory("device-a").unwrap();
    let mut ids = Vec::new();
    for words in ["first words", "", "third words"] {
        let id = store.start_session(None).unwrap().id;
        store.append_transcript(&id, words).unwrap();
        store.end_and_record_session(&id).unwrap();
        ids.push(id);
    }
    // newest first: the third fails, the second is empty, the first succeeds
    let mut rig = rig_with(
        store,
        Memory::default(),
        vec![
            end_turn("done"),
            end_turn("no summary tool"),
            end_turn("done"),
            summary_response("s"),
            document_response(),
        ],
    );
    let PendingStep::Ask(run) = rig.processor.process_pending(&mut rig.work).unwrap() else {
        panic!("expected a request")
    };
    assert_eq!(run.session_id(), ids[2]);
    let results = rig.process_pending().unwrap();
    let order: Vec<&String> = results.iter().map(|(id, _)| id).collect();
    assert_eq!(order, vec![&ids[2], &ids[1], &ids[0]]);
    assert!(results[0].1.is_err());
    assert!(results[1].1.is_ok());
    assert!(results[2].1.is_ok());
}

#[test]
fn whole_processing_leaves_what_was_noted_by_hand_and_what_it_made() {
    let (mut rig, sid) = processor_with(vec![
        tool_use("add_item", json(r#"{"kind": "todo", "text": "order lumber"}"#)),
        tool_use("add_item", json(r#"{"kind": "todo"}"#)),
        tool_use("add_item", json(r#"{"kind": "note", "text": "call Dev"}"#)),
        end_turn("done"),
        summary_response("s"),
        document_response(),
    ]);
    let store = &mut rig.work.store;
    let other = store.start_session(None).unwrap().id;
    let elsewhere = store.add_item(&other, "todo", "elsewhere").unwrap();
    let by_hand = store.add_item(&sid, "note", "by hand").unwrap();
    store.add_item_with_source(&sid, "todo", "live", ItemSource::Live).unwrap();
    store.add_item_with_source(&sid, "todo", "earlier", ItemSource::Authoritative).unwrap();
    let outcome = rig.process(&sid).unwrap();
    // 5 calls of 100 + 20 and one of 50 + 10
    assert_eq!(outcome.usage, Usage { input_tokens: 550, output_tokens: 110 });
    let store = &rig.work.store;
    let board = store.list_items_for_session(&sid).unwrap();
    let texts: Vec<&str> = board.iter().map(|i| i.text.as_str()).collect();
    assert_eq!(texts, ["by hand", "order lumber", "call Dev"]);
    assert_eq!(board[0], by_hand);
    assert!(board[1..].iter().all(|i| i.source == ItemSource::Authoritative));
    assert_eq!(store.list_items_for_session(&other).unwrap(), vec![elsewhere]);
    let log = store.list_llm_usage_for_session(&sid).unwrap();
    assert_eq!(log.len(), 1);
    assert_eq!((log[0].input_tokens, log[0].output_tokens), (550, 110));
}
