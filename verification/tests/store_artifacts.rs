//! Artifacts of a session.

use murmur::clock::Clock;
use murmur::notes::error::CoreError;
use murmur::notes::store::Store;

fn store_with_session() -> (Store, String) {
    let mut s = Store::open_in_memory("device-a").unwrap().with_clock(Clock::Fixed(1000));
    let session = s.start_session(None).unwrap();
    (s, session.id)
}

#[test]
fn add_and_list_for_session() {
    let (mut s, sid) = store_with_session();
    let report = s
        .add_artifact(&sid, "report", "Johnson walk", "## Summary\nDeck needs work.")
        .unwrap();
    assert_eq!(report.kind, "report");
    let listed = s.list_artifacts_for_session(&sid).unwrap();
    assert_eq!(listed, vec![report]);
}

#[test]
fn artifacts_add_to_missing_session_is_not_found() {
    let (mut s, _) = store_with_session();
    assert!(matches!(
        s.add_artifact("nope", "report", "t", "b"),
        Err(CoreError::NotFound { entity: "session", .. })
    ));
}

#[test]
fn get_missing_artifact_is_not_found() {
    let (mut s, _) = store_with_session();
    assert!(matches!(
        s.get_artifact("nope"),
        Err(CoreError::NotFound { entity: "artifact", .. })
    ));
}

#[test]
fn update_body_touches_updated_at() {
    let (mut s, sid) = store_with_session();
    let a = s.add_artifact(&sid, "report", "t", "v1").unwrap();
    let mut s = s.with_clock(Clock::Fixed(2000));
    let a2 = s.update_artifact_body(&a.id, "v2").unwrap();
    assert_eq!(a2.body, "v2");
    assert_eq!(a2.updated_at, 2000);
}

#[test]
fn latest_document_artifact_ignores_other_kinds() {
    let (mut s, sid) = store_with_session();
    assert!(s.latest_document_artifact(&sid).unwrap().is_none());
    // A non-document artifact must never be misread as the document.
    s.add_artifact(&sid, "report", "r", "markdown").unwrap();
    assert!(s.latest_document_artifact(&sid).unwrap().is_none());
    let doc = s.add_artifact(&sid, "document", "doc #1", "{}").unwrap();
    let found = s.latest_document_artifact(&sid).unwrap().unwrap();
    assert_eq!(found.id, doc.id);
    assert_eq!(found.kind, "document");
}

#[test]
fn delete_artifact_is_a_tombstone() {
    let (mut s, sid) = store_with_session();
    let a = s.add_artifact(&sid, "report", "t", "b").unwrap();
    s.delete_artifact(&a.id).unwrap();
    assert!(s.list_artifacts_for_session(&sid).unwrap().is_empty());
    assert!(matches!(s.delete_artifact(&a.id), Err(CoreError::NotFound { .. })));
}
