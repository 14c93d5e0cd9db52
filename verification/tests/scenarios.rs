//! A session from live passes through processing.

use murmur::harness::error::HarnessError;
use murmur::harness::llm::{CompletionResponse, ContentBlock, StopReason, Usage};
use murmur::harness::memory::store::{MemoryStore, SavesView};
use murmur::harness::memory::Memory;
use murmur::harness::mock::MockProvider;
use murmur::json::Json;
use murmur::notes::domain::{ItemSource, SessionStatus};
use murmur::notes::error::CoreError;
use murmur::notes::pipeline::live::{LiveExtractOutcome, LiveExtractor, LiveStep};
use murmur::notes::pipeline::processor::{ProcessOutcome, ProcessStep, SessionProcessor};
use murmur::notes::pipeline::workspace::Workspace;
use murmur::notes::store::Store;

fn json(text: &str) -> Json {
    Json::parse(text).unwrap()
}

struct NullMemoryStore;

impl MemoryStore for NullMemoryStore {
    fn saves(self) -> SavesView {
        unreachable!()
    }
    fn load(&self) -> Result<Memory, HarnessError> {
        Ok(Memory::default())
    }
    fn save(&mut self, _m: &Memory) -> Result<(), HarnessError> {
        Ok(())
    }
}

fn workspace(store: Store) -> Workspace<NullMemoryStore> {
    Workspace { store, memory: Memory::default(), memory_store: NullMemoryStore }
}

fn tool_use(name: &str, input: Json) -> CompletionResponse {
    CompletionResponse {
        content: vec![ContentBlock::ToolUse { id: "tu".into(), name: name.into(), input }],
        stop_reason: StopReason::ToolUse,
        usage: Usage { input_tokens: 30, output_tokens: 8 },
    }
}

fn end_turn(t: &str) -> CompletionResponse {
    CompletionResponse {
        content: vec![ContentBlock::Text { text: t.into() }],
        stop_reason: StopReason::EndTurn,
        usage: Usage { input_tokens: 10, output_tokens: 2 },
    }
}

fn summary(t: &str) -> CompletionResponse {
    tool_use("write_summary", json(&format!("{{\"summary\": \"{t}\"}}")))
}

fn document() -> CompletionResponse {
    tool_use(
        "build_document",
        json(r#"{"total_kind": "sum", "total_label_key": "total", "lines": []}"#),
    )
}

fn extract(
    live: &mut LiveExtractor,
    work: &mut Workspace<NullMemoryStore>,
    provider: &mut MockProvider,
) -> Result<LiveExtractOutcome, CoreError> {
    let mut step = live.maybe_extract(work)?;
    loop {
        step = match step {
            LiveStep::Ask(run) => {
                let reply = provider.complete(run.request().clone());
                run.advance(live, work, reply)?
            }
            LiveStep::Done(outcome) => return Ok(outcome),
        };
    }
}

fn process(
    work: &mut Workspace<NullMemoryStore>,
    responses: Vec<CompletionResponse>,
    sid: &str,
) -> Result<ProcessOutcome, CoreError> {
    let mut provider = MockProvider::new(responses);
    let mut step = SessionProcessor::new().process(work, sid);
    loop {
        step = match step {
            ProcessStep::Ask(run) => {
                let reply = provider.complete(run.request().clone());
                run.advance(work, reply)
            }
            ProcessStep::Done(outcome) => return outcome,
        };
    }
}

/// Processing that fails after live passes keeps the live board: a passing
/// failure of the model leaves the user what was captured.
#[test]
fn failed_processing_after_live_capture_preserves_live_board() {
    let mut store = Store::open_in_memory("dev").unwrap();
    let session = store.start_session(None).unwrap();
    store.append_transcript(&session.id, "order lumber for the deck framing today").unwrap();
    let sid = session.id.clone();
    let mut work = workspace(store);

    let mut live = LiveExtractor::new(&sid);
    live.min_new_chars = 1;
    let mut provider = MockProvider::new(vec![
        tool_use("add_item", json(r#"{"kind":"todo","text":"order lumber"}"#)),
        end_turn("captured"),
    ]);
    extract(&mut live, &mut work, &mut provider).unwrap();
    assert_eq!(work.store.list_items_for_session(&sid).unwrap().len(), 1);

    work.store.end_and_record_session(&sid).unwrap();
    assert!(process(
        &mut work,
        vec![end_turn("no extraction"), end_turn("no summary tool")],
        &sid
    )
    .is_err());

    let after = work.store.list_items_for_session(&sid).unwrap();
    assert_eq!(after.len(), 1, "live board preserved on processing failure (swap-at-finish)");
    assert_eq!(after[0].source, ItemSource::Live);
    assert_eq!(work.store.get_session(&sid).unwrap().status, SessionStatus::Failed);
}

/// A new extractor reads from the start again, and the list of what is already
/// captured has a budget: its oldest lines are cut. An item that has fallen out
/// of the list is unknown to the pass and can be added a second time.
#[test]
fn restart_after_many_items_re_adds_an_evicted_item() {
    let mut store = Store::open_in_memory("dev").unwrap();
    let session = store.start_session(None).unwrap();
    store
        .append_transcript(
            &session.id,
            "long live session, eighty-plus captured tasks and more talk",
        )
        .unwrap();
    let sid = session.id.clone();
    // Oldest item first (insertion = id order); unique marker so no substring alias.
    store.add_item(&sid, "todo", "oldest evicted marker task").unwrap();
    for n in 1..80 {
        store.add_item(&sid, "todo", &format!("task number {n:02}")).unwrap();
    }
    let mut work = workspace(store);

    let mut provider = MockProvider::new(vec![
        tool_use("add_item", json(r#"{"kind":"todo","text":"oldest evicted marker task"}"#)),
        end_turn("re-captured what looked new"),
    ]);
    let mut live = LiveExtractor::new(&sid);
    live.min_new_chars = 1;
    extract(&mut live, &mut work, &mut provider).unwrap();

    let reqs = provider.requests();
    let user_text = match &reqs[0].messages[0].content[0] {
        ContentBlock::Text { text } => text.clone(),
        other => panic!("expected user text block, got {other:?}"),
    };
    assert!(user_text.contains("already captured"), "the dedup section is present");
    assert!(user_text.contains("task number 79"), "a recent item survives truncation");
    assert!(
        !user_text.contains("oldest evicted marker task"),
        "oldest item was evicted from the dedup window — the restart blindspot"
    );

    let items = work.store.list_items_for_session(&sid).unwrap();
    let dupes = items.iter().filter(|i| i.text == "oldest evicted marker task").count();
    assert_eq!(dupes, 2, "the evicted item was re-added → duplicate on the board");
}

/// One pass covers only its window, so a long transcript takes several.
#[test]
fn long_transcript_needs_multiple_live_passes_to_catch_up() {
    let mut store = Store::open_in_memory("dev").unwrap();
    let session = store.start_session(None).unwrap();
    let big = "word ".repeat(4000); // ~20k chars, well over the 2000-token window
    store.append_transcript(&session.id, &big).unwrap();
    let sid = session.id.clone();
    let total_chars = big.chars().count();
    let mut work = workspace(store);

    // Enough end_turn responses for several passes.
    let responses: Vec<_> = (0..8).map(|_| end_turn("nothing new")).collect();
    let mut provider = MockProvider::new(responses);
    let mut live = LiveExtractor::new(&sid);
    live.min_new_chars = 1;

    extract(&mut live, &mut work, &mut provider).unwrap();
    assert!(live.cursor() < total_chars, "one pass covers only the clamped window");
    // Drive to catch-up.
    let mut passes = 1;
    while live.cursor() < total_chars && passes < 8 {
        extract(&mut live, &mut work, &mut provider).unwrap();
        passes += 1;
    }
    assert_eq!(
        live.cursor(),
        total_chars,
        "cursor reaches transcript end after multi-pass catch-up"
    );
    assert!(passes > 1, "a window-exceeding transcript required {passes} passes");
    assert_eq!(passes, 3);
}

#[test]
fn live_board_is_swapped_by_end_of_session_processing() {
    let mut store = Store::open_in_memory("marcos-phone").unwrap();
    let session = store.start_session(None).unwrap();
    store
        .append_transcript(&session.id, "order twelve two-by-tens for the deck framing today")
        .unwrap();
    let sid = session.id;
    let mut work = workspace(store);

    // Live pass: a CHEAP provider extracts one item onto the board.
    let mut extractor = LiveExtractor::new(&sid);
    extractor.min_new_chars = 1;
    let mut provider = MockProvider::new(vec![
        tool_use("add_item", json(r#"{"kind": "todo", "text": "order twelve 2x10s"}"#)),
        end_turn("captured"),
    ]);
    let outcome = extract(&mut extractor, &mut work, &mut provider).unwrap();
    assert!(matches!(outcome, LiveExtractOutcome::Extracted { items_added: 1, .. }));

    // The live board shows the item; capture its id to prove the swap.
    let live_ids: Vec<String> = work
        .store
        .list_items_for_session(&sid)
        .unwrap()
        .into_iter()
        .map(|i| i.id)
        .collect();
    assert_eq!(live_ids.len(), 1);

    // End recording → queue → process with the (stronger) end-of-session provider.
    work.store.end_and_record_session(&sid).unwrap();
    let processed = process(
        &mut work,
        vec![
            tool_use("add_item", json(r#"{"kind": "todo", "text": "order 12 2x10 joists"}"#)),
            tool_use("add_item", json(r#"{"kind": "safety", "text": "verify ledger attachment"}"#)),
            end_turn("done"),
            summary("Deck framing: lumber ordered."),
            document(),
        ],
        &sid,
    )
    .unwrap();
    assert_eq!(processed.session.status, SessionStatus::Processed);

    // Contract: live items are tombstoned and REPLACED by the authoritative set.
    let s = &work.store;
    let after = s.list_items_for_session(&sid).unwrap();
    assert_eq!(after.len(), 2, "authoritative pass re-created the board");
    for item in &after {
        assert!(!live_ids.contains(&item.id), "live item ids must not survive the swap");
    }
    // Both passes are billed to the session under distinct purposes.
    let purposes: Vec<String> = s
        .list_llm_usage_for_session(&sid)
        .unwrap()
        .into_iter()
        .map(|u| u.purpose)
        .collect();
    assert!(purposes.contains(&"live_extraction".to_string()));
    assert!(purposes.contains(&"processing".to_string()));
}

#[test]
fn live_board_survives_failure_and_swaps_clean_on_success() {
    let mut store = Store::open_in_memory("marcos-phone").unwrap();
    let session = store.start_session(None).unwrap();
    store
        .append_transcript(&session.id, "order twelve two-by-tens for the deck framing today")
        .unwrap();
    let sid = session.id.clone();
    let mut work = workspace(store);

    // Live pass captures one item (cheap provider).
    let mut live = LiveExtractor::new(&sid);
    live.min_new_chars = 1;
    let mut provider = MockProvider::new(vec![
        tool_use("add_item", json(r#"{"kind":"todo","text":"order twelve 2x10s"}"#)),
        end_turn("captured"),
    ]);
    extract(&mut live, &mut work, &mut provider).unwrap();
    let live_id = work.store.list_items_for_session(&sid).unwrap()[0].id.clone();

    work.store.end_and_record_session(&sid).unwrap();

    // Attempt 1 FAILS — board must be UNTOUCHED (still the live item).
    assert!(process(&mut work, vec![end_turn("x"), end_turn("no summary tool")], &sid).is_err());
    let mid = work.store.list_items_for_session(&sid).unwrap();
    assert_eq!(mid.len(), 1, "no clear-at-entry: the board never went blank");
    assert_eq!(mid[0].id, live_id);
    assert_eq!(mid[0].source, ItemSource::Live);

    // Attempt 2 succeeds — swap: live gone, authoritative set present.
    let ok = process(
        &mut work,
        vec![
            tool_use("add_item", json(r#"{"kind":"todo","text":"order 12 2x10 joists"}"#)),
            tool_use("add_item", json(r#"{"kind":"safety","text":"verify ledger attachment"}"#)),
            end_turn("done"),
            summary("Deck framing: lumber ordered."),
            document(),
        ],
        &sid,
    );
    assert_eq!(ok.unwrap().session.status, SessionStatus::Processed);

    let after = work.store.list_items_for_session(&sid).unwrap();
    assert_eq!(after.len(), 2, "authoritative set replaced the live board");
    assert!(after.iter().all(|i| i.id != live_id), "live id did not survive the swap");
    assert!(after.iter().all(|i| i.source == ItemSource::Authoritative));
}
