//! Items on the board.

use murmur::clock::Clock;
use murmur::notes::domain::{ItemSource, SessionStatus};
use murmur::notes::error::CoreError;
use murmur::notes::store::{Stamp, Store};

fn store_with_session() -> (Store, String) {
    let mut s = Store::open_in_memory("device-a").unwrap().with_clock(Clock::Fixed(1000));
    let session = s.start_session(None).unwrap();
    (s, session.id)
}

#[test]
fn add_and_list_in_insertion_order() {
    let (mut s, sid) = store_with_session();
    let a = s.add_item(&sid, "todo", "order lumber").unwrap();
    let b = s.add_item(&sid, "safety", "loose railing on deck").unwrap();
    assert_eq!(a.kind, "todo");
    assert!(!a.done);
    let items = s.list_items_for_session(&sid).unwrap();
    assert_eq!(items, vec![a, b]);
}

#[test]
fn items_add_to_missing_session_is_not_found() {
    let (mut s, _) = store_with_session();
    assert!(matches!(
        s.add_item("nope", "todo", "x"),
        Err(CoreError::NotFound { entity: "session", .. })
    ));
}

#[test]
fn get_missing_item_is_not_found() {
    let (mut s, _) = store_with_session();
    assert!(matches!(
        s.get_item("nope"),
        Err(CoreError::NotFound { entity: "item", .. })
    ));
}

#[test]
fn done_toggle_round_trips() {
    let (mut s, sid) = store_with_session();
    let item = s.add_item(&sid, "todo", "order lumber").unwrap();
    let mut s = s.with_clock(Clock::Fixed(2000));
    let done = s.set_item_done(&item.id, true).unwrap();
    assert!(done.done);
    assert_eq!(done.updated_at, 2000);
    let undone = s.set_item_done(&item.id, false).unwrap();
    assert!(!undone.done);
}

#[test]
fn open_todos_span_sessions_and_skip_done() {
    let (mut s, sid_a) = store_with_session();
    let sid_b = s.start_session(None).unwrap().id;
    let t1 = s.add_item(&sid_a, "todo", "one").unwrap();
    let t2 = s.add_item(&sid_b, "todo", "two").unwrap();
    s.add_item(&sid_b, "note", "not a todo").unwrap();
    s.set_item_done(&t1.id, true).unwrap();
    let open: Vec<_> = s.list_open_todos().unwrap().into_iter().map(|i| i.id).collect();
    assert_eq!(open, vec![t2.id]);
}

#[test]
fn add_item_if_status_writes_when_status_matches() {
    let (mut s, sid) = store_with_session();
    let item = s.add_item_if_status(&sid, "todo", "order lumber", SessionStatus::Recording, ItemSource::Live).unwrap();
    assert!(item.is_some());
    assert_eq!(s.list_items_for_session(&sid).unwrap().len(), 1);
}

#[test]
fn add_item_if_status_no_ops_when_status_mismatches() {
    let (mut s, sid) = store_with_session();
    s.end_and_record_session(&sid).unwrap(); // Recording -> AwaitingProcessing
    let item = s.add_item_if_status(&sid, "todo", "order lumber", SessionStatus::Recording, ItemSource::Live).unwrap();
    assert!(item.is_none());
    assert!(s.list_items_for_session(&sid).unwrap().is_empty());
}

#[test]
fn add_item_defaults_to_manual_source() {
    let (mut s, sid) = store_with_session();
    let item = s.add_item(&sid, "todo", "order lumber").unwrap();
    assert_eq!(item.source, ItemSource::Manual);
    // round-trips through the DB read
    assert_eq!(s.list_items_for_session(&sid).unwrap()[0].source, ItemSource::Manual);
}

#[test]
fn add_item_with_source_persists_the_source() {
    let (mut s, sid) = store_with_session();
    let live = s.add_item_with_source(&sid, "todo", "live one", ItemSource::Live).unwrap();
    let auth = s.add_item_with_source(&sid, "todo", "auth one", ItemSource::Authoritative).unwrap();
    assert_eq!(live.source, ItemSource::Live);
    assert_eq!(auth.source, ItemSource::Authoritative);
}

#[test]
fn delete_item_is_a_tombstone() {
    let (mut s, sid) = store_with_session();
    let item = s.add_item(&sid, "todo", "x").unwrap();
    s.delete_item(&item.id).unwrap();
    assert!(s.list_items_for_session(&sid).unwrap().is_empty());
    assert!(matches!(s.delete_item(&item.id), Err(CoreError::NotFound { .. })));
}

#[test]
fn item_with_the_greatest_id_comes_last() {
    let mut s = Store::open_in_memory("device-a").unwrap();
    let sid = s.start_session(None).unwrap().id;
    let add = |s: &mut Store, id: &str| {
        let st = Stamp { id: id.into(), now: 1 };
        s.add_item_as(&sid, "todo", id, ItemSource::Manual, st).unwrap()
    };
    let b = add(&mut s, "b");
    let c = add(&mut s, "c");
    assert_eq!(s.list_items_for_session(&sid).unwrap(), vec![b.clone(), c.clone()]);
    let a = add(&mut s, "a");
    assert_eq!(s.list_items_for_session(&sid).unwrap(), vec![a, b, c]);
}
