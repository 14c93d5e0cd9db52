//! Jobs, contacts, costs, signals, search, and the rows of a store.

use murmur::clock::Clock;
use murmur::harness::llm::Usage;
use murmur::notes::domain::{JobStatus, NewJob, SessionStatus};
use murmur::notes::error::CoreError;
use murmur::notes::store::persist::StoreRows;
use murmur::notes::store::search::{like_matches, like_pattern};
use murmur::notes::store::{new_id, Store};
use murmur::ratio::Ratio;

fn store() -> Store {
    Store::open_in_memory("device-a").unwrap().with_clock(Clock::Fixed(1000))
}

#[test]
fn ids_are_fresh_and_in_the_order_of_their_making() {
    let ids: Vec<String> = (0..100).map(|_| new_id()).collect();
    for pair in ids.windows(2) {
        assert!(pair[0] < pair[1]);
    }
    for id in &ids {
        let parts: Vec<usize> = id.split('-').map(|p| p.len()).collect();
        assert_eq!(parts, vec![8, 4, 4, 4, 12]);
        assert!(id.chars().all(|c| c == '-' || c.is_ascii_digit() || ('a'..='f').contains(&c)));
        assert_eq!(id.as_bytes()[14], b'7');
        assert!(b"89ab".contains(&id.as_bytes()[19]));
    }
}

#[test]
fn system_clock_shows_the_present() {
    let now = Clock::System.read();
    assert!(now > 1_600_000_000);
    assert!(Store::open_in_memory("d").unwrap().now() >= now);
    assert_eq!(Clock::Fixed(7).read(), 7);
}

#[test]
fn job_is_read_back_and_links_sessions() {
    let mut s = store();
    let job = s
        .create_job(NewJob {
            name: "Johnson deck".into(),
            client: Some("Johnson".into()),
            site: None,
            scheduled_at: Some(5000),
        })
        .unwrap();
    assert_eq!(job.status, JobStatus::Active);
    assert_eq!(s.get_job(&job.id).unwrap(), job);
    let session = s.start_session(Some(&job.id)).unwrap();
    assert_eq!(s.list_sessions_by_job(&job.id).unwrap(), vec![session]);
    assert!(matches!(s.get_job("nope"), Err(CoreError::NotFound { entity: "job", .. })));
    assert!(matches!(
        s.start_session(Some("nope")),
        Err(CoreError::NotFound { entity: "job", .. })
    ));
}

#[test]
fn contact_is_updated_and_unknown_fields_are_left_alone() {
    let mut s = store();
    let first = s.upsert_contact("Dev", Some("framer"), None, None).unwrap();
    let second = s.upsert_contact("Dev", None, Some("555"), None).unwrap();
    assert_eq!(second.id, first.id);
    assert_eq!(second.trade.as_deref(), Some("framer"));
    assert_eq!(second.phone.as_deref(), Some("555"));
    s.upsert_contact("Dave", None, None, None).unwrap();
    assert_eq!(s.list_contacts().unwrap().len(), 2);
}

#[test]
fn costs_are_summed_over_sessions() {
    let mut s = store();
    let sid = s.start_session(None).unwrap().id;
    s.record_llm_usage(Some(&sid), "processing", &Usage { input_tokens: 10, output_tokens: 3 })
        .unwrap();
    s.record_llm_usage(None, "reflection", &Usage { input_tokens: 5, output_tokens: 1 }).unwrap();
    assert_eq!(s.usage_totals().unwrap(), (15, 4));
    let rows = s.list_llm_usage_for_session(&sid).unwrap();
    assert_eq!(rows.len(), 1);
    assert_eq!(rows[0].purpose, "processing");
}

#[test]
fn recorded_reflection_resets_the_signals() {
    let mut s = store();
    let sid = s.start_session(None).unwrap().id;
    s.append_transcript(&sid, "walked the deck").unwrap();
    s.end_and_record_session(&sid).unwrap();
    assert_eq!(s.reflection_signals().unwrap().sessions_since_reflection, 1);
    assert_eq!(s.activity_for_reflection(8).unwrap(), vec!["walked the deck"]);
    let churn = Ratio { num: 1, den: 4 };
    s.finish_reflection(churn, &Usage { input_tokens: 2, output_tokens: 1 }).unwrap();
    let signals = s.reflection_signals().unwrap();
    assert_eq!(signals.sessions_since_reflection, 0);
    assert_eq!(signals.completed_reflections, 1);
    assert_eq!(signals.recent_churn, vec![churn]);
    assert_eq!(s.usage_totals().unwrap(), (2, 1));
    assert_eq!(s.last_reflected_at(), 1000);
}

#[test]
fn signs_of_a_pattern_are_matched_literally() {
    assert_eq!(like_pattern("50%_a\\"), "%50\\%\\_a\\\\%");
    assert!(like_matches(&like_pattern("50%"), "now 50% off"));
    assert!(!like_matches(&like_pattern("50%"), "now 500 off"));
    assert!(like_matches(&like_pattern("DECK"), "the deck"));
    assert!(!like_matches(&like_pattern("Ä"), "ä"), "only ASCII letters match in either case");
    assert!(like_matches(&like_pattern(""), "anything"));
}

#[test]
fn restored_store_is_the_same() {
    let mut s = store();
    let job = s.create_job(NewJob { name: "J".into(), ..NewJob::default() }).unwrap();
    let a = s.start_session(Some(&job.id)).unwrap();
    let b = s.start_session(None).unwrap();
    s.append_transcript(&a.id, "order lumber").unwrap();
    s.add_item(&a.id, "todo", "order lumber").unwrap();
    s.add_artifact(&a.id, "report", "t", "b").unwrap();
    s.upsert_contact("Dev", None, None, None).unwrap();
    s.mint_document_number("estimate").unwrap();
    s.record_llm_usage(None, "reflection", &Usage { input_tokens: 5, output_tokens: 1 }).unwrap();
    s.end_and_record_session(&a.id).unwrap();
    s.delete_session(&b.id).unwrap();

    let copy = Store::restore(
        "device-a".into(),
        StoreRows {
            sessions: s.session_rows().iter().rev().map(|r| r.clone()).collect(),
            items: s.item_rows().clone(),
            artifacts: s.artifact_rows().clone(),
            jobs: s.job_rows().clone(),
            contacts: s.contact_rows().clone(),
            sequences: s.sequence_rows().clone(),
            usage: s.usage_rows().clone(),
            signals: s.reflection_signals().unwrap(),
            last_reflected_at: s.last_reflected_at(),
        },
    );
    assert_eq!(copy.session_rows(), s.session_rows());
    assert_eq!(copy.session_rows().len(), 2);
    assert_eq!(copy.get_session(&a.id).unwrap(), s.get_session(&a.id).unwrap());
    assert!(copy.get_session(&b.id).is_err(), "a deleted row stays deleted");
    assert_eq!(
        copy.list_items_for_session(&a.id).unwrap(),
        s.list_items_for_session(&a.id).unwrap()
    );
    assert_eq!(copy.list_contacts().unwrap(), s.list_contacts().unwrap());
    assert_eq!(copy.usage_totals().unwrap(), (5, 1));
    assert_eq!(copy.reflection_signals().unwrap().sessions_since_reflection, 1);
    let mut copy = copy;
    assert_eq!(copy.mint_document_number("estimate").unwrap(), 2);
    assert_eq!(
        copy.list_sessions_by_status(SessionStatus::AwaitingProcessing).unwrap().len(),
        1
    );
}

#[test]
fn errors_say_what_is_wrong() {
    let mut s = store();
    assert_eq!(s.get_session("x").unwrap_err().to_text(), "session not found: x");
    let sid = s.start_session(None).unwrap().id;
    s.end_session(&sid).unwrap();
    let err = s.append_transcript(&sid, "late").unwrap_err();
    assert!(matches!(&err, CoreError::InvalidState(_)));
    assert!(matches!(SessionStatus::parse("asleep"), Err(CoreError::Corrupt(_))));
}
