//! Document numbers.

use murmur::clock::Clock;
use murmur::json::Json;
use murmur::notes::store::Store;

fn json(text: &str) -> Json {
    Json::parse(text).unwrap()
}

fn store() -> Store {
    Store::open_in_memory("device-a").unwrap().with_clock(Clock::Fixed(1000))
}

#[test]
fn mint_is_monotonic_per_kind() {
    let mut s = store();
    assert_eq!(s.mint_document_number("estimate").unwrap(), 1);
    assert_eq!(s.mint_document_number("estimate").unwrap(), 2);
    assert_eq!(s.mint_document_number("report").unwrap(), 1); // independent sequence
    assert_eq!(s.mint_document_number("estimate").unwrap(), 3);
}

#[test]
fn mint_and_add_writes_number_and_artifact_atomically() {
    let mut s = store();
    let session = s.start_session(None).unwrap();
    let art = s
        .mint_document_number_and_add_artifact(
            &session.id,
            "estimate",
            None,
            json(r#"{"lines": []}"#),
        )
        .unwrap();
    assert_eq!(art.title, "estimate #1");
    let v = json(&art.body);
    assert_eq!(v.get("doc_number").unwrap().as_u64(), Some(1));
    assert_eq!(s.mint_document_number("estimate").unwrap(), 2, "sequence advanced once");
}

#[test]
fn mint_and_add_reuses_an_existing_number_without_bumping() {
    let mut s = store();
    let session = s.start_session(None).unwrap();
    let art = s
        .mint_document_number_and_add_artifact(
            &session.id,
            "estimate",
            Some(47),
            json(r#"{"lines": []}"#),
        )
        .unwrap();
    let v = json(&art.body);
    assert_eq!(v.get("doc_number").unwrap().as_u64(), Some(47));
    assert_eq!(s.mint_document_number("estimate").unwrap(), 1, "reuse never bumps");
}

/// The rollback proof: `add_artifact` fails AFTER the sequence bump (the
/// session doesn't exist), and the bump must roll back with it — a number
/// is durably consumed if and only if the artifact lands.
#[test]
fn failed_artifact_write_rolls_the_mint_back() {
    let mut s = store();
    assert!(s
        .mint_document_number_and_add_artifact(
            "no-such-session",
            "estimate",
            None,
            json(r#"{"lines": []}"#),
        )
        .is_err());
    assert_eq!(
        s.mint_document_number("estimate").unwrap(),
        1,
        "the aborted write must not have consumed a number"
    );
}
