//! The tools that write the board, contacts, reports and documents.

use murmur::harness::error::HarnessError;
use murmur::json::Json;
use murmur::notes::domain::ItemSource;
use murmur::notes::pipeline::document::BuildDocumentTool;
use murmur::notes::pipeline::tools::{AddItemTool, UpsertContactTool, WriteReportTool};
use murmur::notes::store::Store;

fn json(text: &str) -> Json {
    Json::parse(text).unwrap()
}

fn line(document: &Json, i: usize) -> &Json {
    &document.get("lines").unwrap().as_array().unwrap()[i]
}

fn shared_store_with_session() -> (Store, String) {
    let mut store = Store::open_in_memory("device-a").unwrap();
    let session = store.start_session(None).unwrap();
    (store, session.id)
}

#[test]
fn add_item_writes_through_store() {
    let (mut store, sid) = shared_store_with_session();
    let mut tool = AddItemTool::new(&sid);
    let out = tool
        .execute(&mut store, &json(r#"{"kind": "todo", "text": "order lumber"}"#))
        .unwrap();
    assert_eq!(out, "added todo: order lumber");
    let items = store.list_items_for_session(&sid).unwrap();
    assert_eq!(items.len(), 1);
    assert_eq!(items[0].kind, "todo");
}

#[test]
fn add_item_rejects_bad_input() {
    let (mut store, sid) = shared_store_with_session();
    let mut tool = AddItemTool::new(&sid);
    let err = tool.execute(&mut store, &json(r#"{"kind": "todo"}"#)).unwrap_err();
    assert!(matches!(err, HarnessError::Tool { .. }));
}

#[test]
fn upsert_contact_writes_through_store() {
    let (mut store, _sid) = shared_store_with_session();
    let tool = UpsertContactTool::new();
    let out = tool
        .execute(&mut store, &json(r#"{"name": "Dev", "trade": "framer"}"#))
        .unwrap();
    assert_eq!(out, "contact saved: Dev");
    let contacts = store.list_contacts().unwrap();
    assert_eq!(contacts.len(), 1);
    assert_eq!(contacts[0].trade.as_deref(), Some("framer"));
}

#[test]
fn write_report_creates_artifact() {
    let (mut store, sid) = shared_store_with_session();
    let tool = WriteReportTool::new(&sid);
    let out = tool
        .execute(&mut store, &json(r###"{"title": "Johnson walk", "body": "## Summary\nDeck."}"###))
        .unwrap();
    assert_eq!(out, "report written: Johnson walk");
    let artifacts = store.list_artifacts_for_session(&sid).unwrap();
    assert_eq!(artifacts.len(), 1);
    assert_eq!(artifacts[0].kind, "report");
}

#[test]
fn store_errors_surface_as_tool_errors() {
    let mut store = Store::open_in_memory("device-a").unwrap();
    let mut tool = AddItemTool::new("no-such-session");
    let err = tool
        .execute(&mut store, &json(r#"{"kind": "todo", "text": "x"}"#))
        .unwrap_err();
    assert!(matches!(err, HarnessError::Tool { .. }));
}

#[test]
fn wrong_typed_field_names_the_type_error() {
    let (mut store, sid) = shared_store_with_session();
    let mut tool = AddItemTool::new(&sid);
    let err = tool
        .execute(&mut store, &json(r#"{"kind": 42, "text": "x"}"#))
        .unwrap_err();
    assert!(
        matches!(&err, HarnessError::Tool { message, .. } if message.contains("must be a string")),
        "got: {}", err.to_text()
    );
}

#[test]
fn invalid_kind_names_the_valid_kinds() {
    let (mut store, sid) = shared_store_with_session();
    let mut tool = AddItemTool::new(&sid);
    let err = tool
        .execute(&mut store, &json(r#"{"kind": "vibe", "text": "x"}"#))
        .unwrap_err();
    assert!(
        matches!(&err, HarnessError::Tool { message, .. }
            if message.contains("todo") && message.contains("price")),
        "error should name the valid kinds, got: {}", err.to_text()
    );
    assert!(store.list_items_for_session(&sid).unwrap().is_empty());
}

#[test]
fn empty_text_is_rejected() {
    let (mut store, sid) = shared_store_with_session();
    let mut tool = AddItemTool::new(&sid);
    let err = tool
        .execute(&mut store, &json(r#"{"kind": "todo", "text": "  "}"#))
        .unwrap_err();
    assert!(
        matches!(&err, HarnessError::Tool { message, .. } if message.contains("must not be empty")),
        "got: {}", err.to_text()
    );
    assert!(store.list_items_for_session(&sid).unwrap().is_empty());
}

#[test]
fn gated_add_item_writes_when_status_matches() {
    let (mut store, sid) = shared_store_with_session();
    let mut tool = AddItemTool::live(&sid);
    let out = tool
        .execute(&mut store, &json(r#"{"kind": "todo", "text": "order lumber"}"#))
        .unwrap();
    assert_eq!(out, "added todo: order lumber");
    assert_eq!(store.list_items_for_session(&sid).unwrap().len(), 1);
}

#[test]
fn gated_add_item_errors_and_writes_nothing_when_status_changed() {
    let (mut store, sid) = shared_store_with_session();
    store.end_and_record_session(&sid).unwrap(); // Recording -> AwaitingProcessing
    let mut tool = AddItemTool::live(&sid);
    let err = tool
        .execute(&mut store, &json(r#"{"kind": "todo", "text": "order lumber"}"#))
        .unwrap_err();
    assert!(
        matches!(&err, HarnessError::Tool { message, .. } if message.contains("no longer recording")),
        "got: {}", err.to_text()
    );
    assert!(store.list_items_for_session(&sid).unwrap().is_empty());
}

#[test]
fn live_tool_writes_live_source_when_recording() {
    let (mut store, sid) = shared_store_with_session();
    let mut tool = AddItemTool::live(&sid);
    tool.execute(&mut store, &json(r#"{"kind":"todo","text":"order lumber"}"#)).unwrap();
    let items = store.list_items_for_session(&sid).unwrap();
    assert_eq!(items[0].source, ItemSource::Live);
}

#[test]
fn authoritative_tool_writes_source_and_records_the_id() {
    let (mut store, sid) = shared_store_with_session();
    let mut tool = AddItemTool::authoritative(&sid);
    tool.execute(&mut store, &json(r#"{"kind":"todo","text":"order lumber"}"#)).unwrap();
    let items = store.list_items_for_session(&sid).unwrap();
    assert_eq!(items[0].source, ItemSource::Authoritative);
    assert_eq!(tool.created_ids().unwrap().as_slice(), &[items[0].id.clone()],
        "the finish tx learns which items this run created");
}

/// The number and the artifact are one transaction: a payload that is refused
/// must not consume a document number.
#[test]
fn malformed_build_document_payload_does_not_burn_a_number() {
    let (mut store, sid) = shared_store_with_session();
    let tool = BuildDocumentTool::new(&sid, "estimate", None);
    // missing total_kind -> validation error, no mint
    let err = tool
        .execute(&mut store, &json(r#"{"total_label_key": "total", "lines": []}"#))
        .unwrap_err();
    assert!(matches!(err, HarnessError::Tool { .. }));
    assert_eq!(
        store.mint_document_number("estimate").unwrap(),
        1,
        "the failed build must not have consumed a number"
    );
}

#[test]
fn build_document_mints_when_no_number_exists() {
    let (mut store, sid) = shared_store_with_session();
    let tool = BuildDocumentTool::new(&sid, "estimate", None);
    tool.execute(&mut store, &json(r#"{
        "total_kind": "sum", "total_label_key": "total",
        "lines": [{"title": "Mulch", "amount_cents": 28500}]
    }"#))
    .unwrap();
    let doc = store.latest_document_artifact(&sid).unwrap().unwrap();
    let v = json(&doc.body);
    assert_eq!(v.get("doc_number").unwrap().as_u64(), Some(1), "first mint for this kind");
    assert_eq!(store.mint_document_number("estimate").unwrap(), 2, "sequence advanced");
}

#[test]
fn build_document_writes_structured_json_artifact_with_gaps() {
    let (mut store, sid) = shared_store_with_session();
    let tool = BuildDocumentTool::new(&sid, "estimate", Some(47));
    let out = tool.execute(&mut store, &json(r#"{
        "total_kind": "sum",
        "total_label_key": "total",
        "lines": [
            {"title":"Bark mulch — front beds","detail":"DELIVERED + INSTALLED","qty":"3 CU YD","amount_cents":28500},
            {"title":"Haul & disposal","detail":"NOT HEARD","qty":"× 1"}
        ]
    }"#)).unwrap();
    assert!(out.contains("document"));
    let arts = store.list_artifacts_for_session(&sid).unwrap();
    let doc = arts.iter().find(|a| a.kind == "document").unwrap();
    let v = json(&doc.body);
    assert_eq!(v.get("doc_number").unwrap().as_u64(), Some(47));
    assert_eq!(*line(&v, 1).get("amount_cents").unwrap(), Json::Null);
    assert_eq!(line(&v, 1).get("is_gap").unwrap().as_bool(), Some(true), "unheard amount on a dollar template ⇒ gap");
}

#[test]
fn inspection_findings_have_no_amount_but_are_not_gaps() {
    let (mut store, sid) = shared_store_with_session();
    let tool = BuildDocumentTool::new(&sid, "inspection", Some(389));
    tool.execute(&mut store, &json(r#"{
        "total_kind":"static","total_label_key":"findings",
        "lines":[
            {"title":"Attic ventilation","detail":"ADEQUATE","qty":"OK","section":"§ 3.2"},
            {"title":"Water heater TPR valve","detail":"NOT ACCESSED","section":"§ 5.3","is_gap":true}
        ]
    }"#)).unwrap();
    let arts = store.list_artifacts_for_session(&sid).unwrap();
    let v = json(&arts.iter().find(|a| a.kind == "document").unwrap().body);
    assert_eq!(*line(&v, 0).get("amount_cents").unwrap(), Json::Null);
    assert_eq!(line(&v, 0).get("is_gap").unwrap().as_bool(), Some(false), "a normal §-finding is NOT a gap despite no amount");
    assert_eq!(line(&v, 1).get("is_gap").unwrap().as_bool(), Some(true), "only the explicitly-flagged finding is a gap");
}

#[test]
fn empty_name_and_title_are_rejected() {
    let (mut store, sid) = shared_store_with_session();
    let contact = UpsertContactTool::new();
    let err = contact.execute(&mut store, &json(r#"{"name": ""}"#)).unwrap_err();
    assert!(
        matches!(&err, HarnessError::Tool { message, .. } if message.contains("must not be empty"))
    );
    let report = WriteReportTool::new(&sid);
    let err = report
        .execute(&mut store, &json(r#"{"title": " ", "body": "b"}"#))
        .unwrap_err();
    assert!(
        matches!(&err, HarnessError::Tool { message, .. } if message.contains("must not be empty"))
    );
}

#[test]
fn every_line_of_a_document_has_an_id_of_its_own() {
    let (mut store, sid) = shared_store_with_session();
    BuildDocumentTool::new(&sid, "estimate", None)
        .execute(&mut store, &json(r#"{
            "total_kind": "sum", "total_label_key": "total",
            "lines": [{"title": "Mulch"}, {"title": "Hauling"}]
        }"#))
        .unwrap();
    let doc = json(&store.latest_document_artifact(&sid).unwrap().unwrap().body);
    let ids: Vec<&str> = (0..2).map(|i| line(&doc, i).get_str("id").unwrap()).collect();
    for id in &ids {
        assert_eq!(id.len(), 36);
        assert!(id.chars().enumerate().all(|(i, c)| match i {
            8 | 13 | 18 | 23 => c == '-',
            _ => c.is_ascii_hexdigit() && !c.is_ascii_uppercase(),
        }));
    }
    assert_ne!(ids[0], ids[1]);
}
