//! A walk from its beginning to its document, as the host application sees it.

use murmur::bridge::convert::{
    board_item, document_payload, partial_document_from_items, ConvertError, DocumentPayload,
};
use murmur::bridge::engine::{build_providers, EngineConfig, EngineError, MurmurEngine, Providers};
use murmur::bridge::walk::{FinishStep, TickStep, WalkEvent, WalkSession};
use murmur::harness::error::HarnessError;
use murmur::harness::llm::{
    CompletionRequest, CompletionResponse, ContentBlock, StopReason, Usage,
};
use murmur::harness::memory::store::{MemoryStore, SavesView};
use murmur::harness::memory::Memory;
use murmur::harness::mock::MockProvider;
use murmur::json::Json;
use murmur::notes::domain::{ItemSource, SessionStatus};
use murmur::notes::pipeline::live::LiveExtractor;
use murmur::notes::pipeline::workspace::Workspace;
use murmur::notes::store::Store;

fn json(text: &str) -> Json {
    Json::parse(text).unwrap()
}

struct NullMemoryStore;

impl MemoryStore for NullMemoryStore {
    fn saves(self) -> SavesView {
        unreachable!()
    }
    fn load(&self) -> Result<Memory, HarnessError> {
        Ok(Memory::default())
    }
    fn save(&mut self, _m: &Memory) -> Result<(), HarnessError> {
        Ok(())
    }
}

fn tool_use(name: &str, input: Json) -> CompletionResponse {
    CompletionResponse {
        content: vec![ContentBlock::ToolUse { id: "tu".into(), name: name.into(), input }],
        stop_reason: StopReason::ToolUse,
        usage: Usage { input_tokens: 10, output_tokens: 5 },
    }
}

fn add_item(text: &str) -> CompletionResponse {
    tool_use("add_item", json(&format!("{{\"kind\": \"todo\", \"text\": \"{text}\"}}")))
}

fn end_turn(text: &str) -> CompletionResponse {
    CompletionResponse {
        content: vec![ContentBlock::Text { text: text.into() }],
        stop_reason: StopReason::EndTurn,
        usage: Usage { input_tokens: 10, output_tokens: 5 },
    }
}

fn summary_response(text: &str) -> CompletionResponse {
    tool_use("write_summary", json(&format!("{{\"summary\": \"{text}\"}}")))
}

fn document_response() -> CompletionResponse {
    tool_use(
        "build_document",
        json(r#"{"total_kind": "sum", "total_label_key": "total", "lines": []}"#),
    )
}

fn document_response_with_a_gap() -> CompletionResponse {
    tool_use(
        "build_document",
        json(
            r#"{
            "total_kind": "sum",
            "total_label_key": "total",
            "lines": [
                {"title": "Mulch", "qty": "3 CU YD", "amount_cents": 28500},
                {"title": "Haul & disposal", "qty": "× 1"}
            ]
        }"#,
        ),
    )
}

fn config() -> EngineConfig {
    EngineConfig {
        db_path: ":memory:".into(),
        device_id: "dev".into(),
        api_key: "sk-test".into(),
        base_url: None,
        model_live: "haiku-4-5".into(),
        model_processing: "sonnet-4-5".into(),
        model_reflection: "haiku-4-5".into(),
    }
}

fn engine() -> MurmurEngine<NullMemoryStore> {
    let store = Store::open_in_memory("device-a").unwrap();
    MurmurEngine::with_providers(
        store,
        Memory::default(),
        NullMemoryStore,
        build_providers(&config()),
    )
}

/// Appends to the transcript and lets one pass run.
fn append(
    session: &mut WalkSession,
    work: &mut Workspace<NullMemoryStore>,
    live: &mut MockProvider,
    text: &str,
) -> Option<WalkEvent> {
    session.append_transcript(work, text);
    let mut step = session.tick(work);
    loop {
        step = match step {
            TickStep::Ask(run) => {
                let reply = live.complete(run.request().clone());
                session.tick_reply(run, work, reply)
            }
            TickStep::Done(event) => return event,
        };
    }
}

fn finish(
    session: &mut WalkSession,
    work: &mut Workspace<NullMemoryStore>,
    mut reply: impl FnMut(CompletionRequest) -> Result<CompletionResponse, HarnessError>,
) -> (DocumentPayload, Option<WalkEvent>) {
    let mut step = session.finish(work);
    loop {
        step = match step {
            FinishStep::Ask(run) => {
                let reply = reply(run.request().clone());
                session.finish_reply(run, work, reply)
            }
            FinishStep::Done { document, event } => return (document, event),
        };
    }
}

fn workspace(store: Store) -> Workspace<NullMemoryStore> {
    Workspace { store, memory: Memory::default(), memory_store: NullMemoryStore }
}

fn long_text() -> String {
    "order twelve two by tens for the deck framing today. ".repeat(3)
}

#[test]
fn captured_item_projects_to_board_item() {
    let mut store = Store::open_in_memory("device-a").unwrap();
    let session = store.start_session(None).unwrap();
    let item = store
        .add_item_with_source(&session.id, "todo", "order lumber", ItemSource::Live)
        .unwrap();
    let board = board_item(&item);
    assert_eq!(board.id, item.id);
    assert_eq!(board.kind, "todo");
    assert_eq!(board.text, "order lumber");
}

#[test]
fn document_artifact_parses_with_a_gap_line() {
    let mut store = Store::open_in_memory("device-a").unwrap();
    let session = store.start_session(None).unwrap();
    let body = r#"{
        "doc_kind": "estimate",
        "doc_number": 47,
        "job_date_unix": 1000,
        "total_kind": "sum",
        "total_label_key": "total",
        "static_total_cents": null,
        "lines": [
            {"id": "l1", "title": "Mulch", "detail": "", "qty": "3 CU YD", "amount_cents": 28500, "section": null, "is_gap": false},
            {"id": "l2", "title": "Haul", "detail": "", "qty": "", "amount_cents": null, "section": null, "is_gap": true}
        ],
        "queued": false
    }"#;
    let artifact = store.add_artifact(&session.id, "document", "estimate #47", body).unwrap();
    let payload = document_payload(&artifact).unwrap();
    assert_eq!(payload.doc_number, 47);
    assert_eq!(payload.lines.len(), 2);
    assert_eq!(payload.lines[1].amount_cents, None);
    assert!(payload.lines[1].is_gap);
    assert_eq!(payload.lines[0].amount_cents, Some(28500));
    assert_eq!(payload.job_date_unix, 1000);
}

#[test]
fn offline_partial_labels_the_total_truthfully_per_doc_kind() {
    // An inspection has no summable dollar total — the degraded offline
    // document must not claim a "sum"/"total" it cannot compute.
    let insp = partial_document_from_items("inspection", &[], true);
    assert_eq!(insp.total_kind, "static");
    assert_eq!(insp.total_label_key, "findings");
    assert_eq!(insp.static_total_cents, None);
    // A priced estimate does sum its lines — "total" stays correct.
    let est = partial_document_from_items("estimate", &[], true);
    assert_eq!(est.total_kind, "sum");
    assert_eq!(est.total_label_key, "total");
}

#[test]
fn bad_json_body_is_an_error() {
    let mut store = Store::open_in_memory("device-a").unwrap();
    let session = store.start_session(None).unwrap();
    let artifact = store.add_artifact(&session.id, "document", "x", "not json").unwrap();
    assert!(document_payload(&artifact).is_err());
    let ConvertError::BadJson(reason) = document_payload(&artifact).unwrap_err();
    assert!(!reason.is_empty());
    assert_eq!(
        ConvertError::BadJson(reason.clone()).to_text(),
        format!("artifact body is not valid document JSON: {reason}")
    );
}

#[test]
fn config_debug_redacts_the_api_key() {
    let cfg = EngineConfig { api_key: "sk-super-secret".into(), ..config() };
    assert!(!cfg.debug_text().contains("sk-super-secret"), "api key must never be printable");
    assert!(cfg.debug_text().starts_with("EngineConfig { db_path: \":memory:\", device_id: \"dev\""));
    let quoted = EngineConfig { device_id: "a\"b".into(), base_url: Some("u".into()), ..config() };
    assert!(quoted.debug_text().contains(r#"device_id: "a\"b""#));
    assert!(quoted.debug_text().contains(r#"base_url: Some("u")"#));
}

#[test]
fn providers_dedupe_by_model() {
    let providers = build_providers(&config());
    assert_eq!(providers.live, providers.reflection, "same model shares one provider");
    assert_ne!(providers.live, providers.processing);
    assert_eq!(providers.list.len(), 2);
    assert_eq!(providers.list[providers.processing].model(), "sonnet-4-5");
}

#[test]
fn begin_walk_wires_a_working_session() {
    let mut engine = engine();
    let mut live = MockProvider::new(vec![add_item("order lumber"), end_turn("captured")]);
    let mut session = engine.begin_walk(None, "landscape").unwrap();

    // Default min_new_chars (120) — pad past it so the tick actually fires.
    let event = append(&mut session, &mut engine.work, &mut live, &long_text()).unwrap();
    let WalkEvent::BoardUpdated { items } = event;
    assert_eq!(items.len(), 1);
    assert_eq!(items[0].text, "order lumber");
}

#[test]
fn walk_over_an_unknown_job_does_not_begin() {
    let mut engine = engine();
    let EngineError::BeginWalk(reason) =
        engine.begin_walk(Some("nope"), "landscape").unwrap_err();
    assert_eq!(reason, "job not found: nope");
    assert!(engine.work.store.list_sessions().unwrap().is_empty());
}

#[test]
fn append_ticks_live_extractor_and_emits_one_board_snapshot_per_pass() {
    let mut store = Store::open_in_memory("device-a").unwrap();
    let sid = store.start_session(None).unwrap().id;
    let mut work = workspace(store);
    let mut live = MockProvider::new(vec![add_item("order lumber"), end_turn("captured")]);
    let mut extractor = LiveExtractor::new(&sid);
    extractor.min_new_chars = 1;
    let mut session = WalkSession::new(sid.clone(), extractor, Some("landscape".into()));

    let event =
        append(&mut session, &mut work, &mut live, "order twelve two by tens for the deck")
            .unwrap();
    let WalkEvent::BoardUpdated { items } = event;
    assert_eq!(items.len(), 1);
    assert_eq!(items[0].text, "order lumber");

    // A second pass fails on the model: no snapshot, and no store fault.
    let event = append(&mut session, &mut work, &mut live, "more talk");
    assert_eq!(event, None);
    assert_eq!(session.tick_store_fault_count(), 0);
}

#[test]
fn tick_store_fault_is_counted_not_swallowed() {
    let mut store = Store::open_in_memory("device-a").unwrap();
    // A real session for the walk's own transcript writes...
    let sid = store.start_session(None).unwrap().id;
    let mut work = workspace(store);

    // ...but the extractor points at a session that does not exist, so its
    // tick's `get_session` returns NotFound — a genuine store fault that
    // `maybe_extract` surfaces as `Err` (NOT a swallowed model failure).
    let mut extractor = LiveExtractor::new("ghost-session");
    extractor.min_new_chars = 1;
    let mut session = WalkSession::new(sid, extractor, Some("landscape".into()));

    assert_eq!(session.tick_store_fault_count(), 0);
    append(&mut session, &mut work, &mut MockProvider::new(vec![]), "anything at all");
    assert_eq!(
        session.tick_store_fault_count(),
        1,
        "a store fault in the tick must be counted (surfaced), not silently swallowed"
    );
}

#[test]
fn tick_cannot_interleave_with_finish() {
    let mut store = Store::open_in_memory("device-a").unwrap();
    let sid = store.start_session(None).unwrap().id;
    store.add_item_with_source(&sid, "todo", "live capture", ItemSource::Live).unwrap();
    store
        .append_transcript(&sid, "order twelve two by tens for the deck framing today")
        .unwrap();
    let mut work = workspace(store);
    let mut extractor = LiveExtractor::new(&sid);
    extractor.min_new_chars = 1;
    let mut session = WalkSession::new(sid.clone(), extractor, Some("landscape".into()));
    let mut script = MockProvider::new(vec![
        add_item("order 12 2x10s"),
        end_turn("done"),
        summary_response("Lumber ordered."),
        document_response(),
    ]);
    let mut live = MockProvider::new(vec![]);

    // Before every reply of the processing model the host tries a tick. The
    // session no longer records, so each is skipped without a request and the
    // board is never seen empty.
    let mut step = session.finish(&mut work);
    let (payload, event) = loop {
        step = match step {
            FinishStep::Ask(run) => {
                let tick = append(&mut session, &mut work, &mut live, "more talk");
                assert_eq!(tick, None);
                assert!(!work.store.list_items_for_session(&sid).unwrap().is_empty());
                let reply = script.complete(run.request().clone());
                session.finish_reply(run, &mut work, reply)
            }
            FinishStep::Done { document, event } => break (document, event),
        };
    };
    assert_eq!(payload.lines.len(), 0); // the empty-lines document_response
    assert!(live.requests().is_empty());
    let WalkEvent::BoardUpdated { items } = event.unwrap();
    assert!(!items.is_empty(), "no snapshot should ever show an empty board");
}

#[test]
fn begin_append_live_snapshot_finish_document_with_gap() {
    let mut engine = engine();
    let mut live = MockProvider::new(vec![add_item("order lumber"), end_turn("captured")]);
    let mut processing = MockProvider::new(vec![
        add_item("order 12 2x10 joists"),
        end_turn("done"),
        summary_response("Landscape walk: mulch and haul planned."),
        document_response_with_a_gap(),
    ]);

    let mut session = engine.begin_walk(None, "landscape").unwrap();

    // Default min_new_chars (120) — pad past it so the live tick fires.
    let snapshot = append(&mut session, &mut engine.work, &mut live, &long_text()).unwrap();
    let WalkEvent::BoardUpdated { items } = snapshot;
    assert_eq!(items.len(), 1);
    assert_eq!(items[0].text, "order lumber");

    let (payload, event) =
        finish(&mut session, &mut engine.work, |request| processing.complete(request));

    assert_eq!(payload.doc_kind, "estimate", "landscape template maps to the estimate doc_kind");
    assert_eq!(payload.doc_number, 1);
    assert!(!payload.queued);
    assert_eq!(payload.lines.len(), 2);
    assert_eq!(payload.lines[0].amount_cents, Some(28500));
    assert!(!payload.lines[0].is_gap);
    assert_eq!(payload.lines[1].amount_cents, None);
    assert!(payload.lines[1].is_gap, "unheard amount on a dollar template is a gap");

    // Terminal snapshot: the authoritative item replaced the live one (swap).
    let WalkEvent::BoardUpdated { items: terminal } = event.unwrap();
    assert_eq!(terminal.len(), 1);
    assert_eq!(terminal[0].text, "order 12 2x10 joists");
}

#[test]
fn finish_degrades_to_a_partial_queued_document_when_offline() {
    let mut engine = engine();
    let mut live = MockProvider::new(vec![add_item("order lumber"), end_turn("captured")]);
    let mut session = engine.begin_walk(None, "landscape").unwrap();
    append(&mut session, &mut engine.work, &mut live, &long_text()).unwrap();

    let (payload, _) = finish(&mut session, &mut engine.work, |_| {
        Err(HarnessError::Provider("network unreachable".into()))
    });

    assert!(payload.queued, "offline finish returns a queued partial document");
    assert_eq!(payload.lines.len(), 1, "built from the live board — capture is never lost");
    assert_eq!(payload.lines[0].title, "order lumber");
    assert_eq!(payload.lines[0].amount_cents, None);
    assert!(payload.lines[0].is_gap, "an offline partial document is all gaps");
    assert_eq!(
        engine.work.store.get_session(session.session_id()).unwrap().status,
        SessionStatus::Failed
    );
}

#[test]
fn a_tick_mid_finish_never_observes_an_empty_board() {
    let mut engine = engine();
    let mut live = MockProvider::new(vec![add_item("order lumber"), end_turn("captured")]);
    let mut processing = MockProvider::new(vec![
        add_item("order 12 2x10s"),
        end_turn("done"),
        summary_response("Lumber ordered."),
        document_response(),
    ]);
    let mut session = engine.begin_walk(None, "landscape").unwrap();
    let mut events = Vec::new();
    events.extend(append(&mut session, &mut engine.work, &mut live, &long_text()));

    let mut step = session.finish(&mut engine.work);
    loop {
        step = match step {
            FinishStep::Ask(run) => {
                events.extend(append(
                    &mut session,
                    &mut engine.work,
                    &mut live,
                    "more talk mid finish.",
                ));
                let reply = processing.complete(run.request().clone());
                session.finish_reply(run, &mut engine.work, reply)
            }
            FinishStep::Done { event, .. } => {
                events.extend(event);
                break;
            }
        };
    }
    assert_eq!(events.len(), 2);
    for event in &events {
        let WalkEvent::BoardUpdated { items } = event;
        assert!(!items.is_empty(), "no snapshot the UI can observe is ever an empty board");
    }
}

#[test]
fn second_finish_shows_the_board_and_is_not_queued() {
    let mut engine = engine();
    let mut processing =
        MockProvider::new(vec![end_turn("done"), summary_response("s"), document_response()]);
    let mut session = engine.begin_walk(None, "inspection").unwrap();
    session.append_transcript(&mut engine.work, "attic fine");
    let (first, _) = finish(&mut session, &mut engine.work, |r| processing.complete(r));
    assert_eq!(first.doc_kind, "inspection");
    let (second, _) = finish(&mut session, &mut engine.work, |r| processing.complete(r));
    assert_eq!(second.doc_kind, "inspection");
    assert!(!second.queued);
    assert_eq!(processing.requests().len(), 3);
}

#[test]
fn silent_walk_ends_without_a_model() {
    let mut engine = engine();
    let mut session = engine.begin_walk(None, "landscape").unwrap();
    let (payload, _) = finish(&mut session, &mut engine.work, |_| panic!("no request expected"));
    assert!(!payload.queued);
    assert!(payload.lines.is_empty());
    assert_eq!(payload.doc_kind, "estimate");
}

#[test]
fn one_provider_serves_one_model() {
    let one = EngineConfig {
        model_processing: "haiku-4-5".into(),
        base_url: Some("http://localhost:1".into()),
        ..config()
    };
    let Providers { list, live, processing, reflection } = build_providers(&one);
    assert_eq!(list.len(), 1);
    assert_eq!((live, processing, reflection), (0, 0, 0));
    assert_eq!(list[0].url(), "http://localhost:1/v1/messages");
}

#[test]
fn second_finish_shows_the_same_document_and_changes_nothing() {
    let mut engine = engine();
    let mut processing = MockProvider::new(vec![
        add_item("order mulch"),
        end_turn("done"),
        summary_response("s"),
        document_response_with_a_gap(),
    ]);
    let mut session = engine.begin_walk(None, "landscape").unwrap();
    session.append_transcript(&mut engine.work, "three yards of mulch and hauling");
    let (first, _) = finish(&mut session, &mut engine.work, |r| processing.complete(r));
    assert_eq!(first.lines.len(), 2);
    assert_eq!(first.doc_number, 1);
    let before = engine.work.store.get_session(session.session_id()).unwrap();
    for _ in 0..2 {
        let (again, event) = finish(&mut session, &mut engine.work, |_| panic!("no request"));
        assert_eq!(again, first);
        assert!(event.is_none());
    }
    assert_eq!(engine.work.store.get_session(session.session_id()).unwrap(), before);
    assert_eq!(engine.work.store.mint_document_number("estimate").unwrap(), 2);
}

#[test]
fn second_finish_of_a_silent_walk_repeats_the_first() {
    let mut engine = engine();
    let mut session = engine.begin_walk(None, "landscape").unwrap();
    let (first, _) = finish(&mut session, &mut engine.work, |_| panic!("no request"));
    let (second, _) = finish(&mut session, &mut engine.work, |_| panic!("no request"));
    assert_eq!(second, first);
}

#[test]
fn second_finish_after_a_failure_shows_the_board_without_the_queue() {
    let mut engine = engine();
    let mut live = MockProvider::new(vec![add_item("order lumber"), end_turn("captured")]);
    let mut session = engine.begin_walk(None, "landscape").unwrap();
    append(&mut session, &mut engine.work, &mut live, &long_text()).unwrap();
    let (first, _) = finish(&mut session, &mut engine.work, |_| {
        Err(HarnessError::Provider("network unreachable".into()))
    });
    assert!(first.queued);
    let (second, _) = finish(&mut session, &mut engine.work, |_| panic!("no request"));
    assert_eq!(second, DocumentPayload { queued: false, ..first });
}
