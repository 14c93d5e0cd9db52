//! Sessions: their life, lists, search and deletion.

use murmur::clock::Clock;
use murmur::harness::llm::Usage;
use murmur::notes::domain::{ItemSource, NewJob, SessionStatus};
use murmur::notes::error::CoreError;
use murmur::notes::store::Store;

fn store() -> Store {
    Store::open_in_memory("device-a").unwrap().with_clock(Clock::Fixed(1000))
}

#[test]
fn start_append_end_lifecycle() {
    let mut s = store();
    let session = s.start_session(None).unwrap();
    assert_eq!(session.status, SessionStatus::Recording);
    assert_eq!(session.started_at, 1000);
    assert!(session.ended_at.is_none());

    s.append_transcript(&session.id, "we need to fix the deck. ").unwrap();
    s.append_transcript(&session.id, "call Dev about the framing.").unwrap();

    let mut s = s.with_clock(Clock::Fixed(2000));
    let ended = s.end_session(&session.id).unwrap();
    assert_eq!(ended.status, SessionStatus::AwaitingProcessing);
    assert_eq!(ended.ended_at, Some(2000));
    assert_eq!(
        ended.transcript,
        "we need to fix the deck. call Dev about the framing."
    );
}

#[test]
fn session_template_defaults_none_and_round_trips() {
    let mut s = store();
    let session = s.start_session(None).unwrap();
    assert_eq!(session.template, None);
    s.set_session_template(&session.id, "landscape").unwrap();
    assert_eq!(s.get_session(&session.id).unwrap().template.as_deref(), Some("landscape"));
}

#[test]
fn start_session_with_template_creates_and_persists_atomically() {
    let mut s = store();
    let session = s.start_session_with_template(None, "landscape").unwrap();
    assert_eq!(session.status, SessionStatus::Recording);
    assert_eq!(session.template.as_deref(), Some("landscape"));
    // Persisted, not just on the returned struct.
    assert_eq!(
        s.get_session(&session.id).unwrap().template.as_deref(),
        Some("landscape")
    );
}

#[test]
fn start_session_with_template_leaves_nothing_behind_on_failure() {
    let mut s = store();
    // start_session's job validation fails inside the transaction — no
    // session row (with or without a template) may survive.
    assert!(matches!(
        s.start_session_with_template(Some("no-such-job"), "landscape"),
        Err(CoreError::NotFound { entity: "job", .. })
    ));
    assert!(s
        .list_session_summaries_by_status(SessionStatus::Recording)
        .unwrap()
        .is_empty());
}

#[test]
fn set_template_rejects_non_recording() {
    let mut s = store();
    let session = s.start_session(None).unwrap();
    s.end_and_record_session(&session.id).unwrap();
    assert!(matches!(
        s.set_session_template(&session.id, "landscape"),
        Err(CoreError::InvalidState(_))
    ));
}

#[test]
fn start_with_job_links_and_validates() {
    let mut s = store();
    let job = s
        .create_job(NewJob { name: "j".into(), ..Default::default() })
        .unwrap();
    let session = s.start_session(Some(&job.id)).unwrap();
    assert_eq!(session.job_id.as_deref(), Some(job.id.as_str()));
    assert!(matches!(
        s.start_session(Some("no-such-job")),
        Err(CoreError::NotFound { entity: "job", .. })
    ));
}

#[test]
fn end_requires_recording_state() {
    let mut s = store();
    let session = s.start_session(None).unwrap();
    s.end_session(&session.id).unwrap();
    assert!(matches!(
        s.end_session(&session.id),
        Err(CoreError::InvalidState(_))
    ));
}

#[test]
fn append_to_ended_session_is_invalid() {
    let mut s = store();
    let session = s.start_session(None).unwrap();
    s.end_session(&session.id).unwrap();
    assert!(matches!(
        s.append_transcript(&session.id, "late words"),
        Err(CoreError::InvalidState(_))
    ));
}

#[test]
fn mark_processed_sets_summary() {
    let mut s = store();
    let session = s.start_session(None).unwrap();
    s.end_session(&session.id).unwrap();
    let done = s
        .mark_session_processed(&session.id, "Walked the deck; 2 todos.")
        .unwrap();
    assert_eq!(done.status, SessionStatus::Processed);
    assert_eq!(done.summary.as_deref(), Some("Walked the deck; 2 todos."));
}

#[test]
fn mark_failed_is_retryable_state() {
    let mut s = store();
    let session = s.start_session(None).unwrap();
    s.end_session(&session.id).unwrap();
    let failed = s.mark_session_failed(&session.id).unwrap();
    assert_eq!(failed.status, SessionStatus::Failed);
}

#[test]
fn processed_is_terminal() {
    let mut s = store();
    let session = s.start_session(None).unwrap();
    s.end_session(&session.id).unwrap();
    s.mark_session_processed(&session.id, "done.").unwrap();
    assert!(matches!(
        s.mark_session_processed(&session.id, "again?"),
        Err(CoreError::InvalidState(_))
    ));
    assert!(matches!(
        s.mark_session_failed(&session.id),
        Err(CoreError::InvalidState(_))
    ));
}

#[test]
fn failed_session_can_retry_to_processed() {
    let mut s = store();
    let session = s.start_session(None).unwrap();
    s.end_session(&session.id).unwrap();
    s.mark_session_failed(&session.id).unwrap();
    let done = s.mark_session_processed(&session.id, "retry worked.").unwrap();
    assert_eq!(done.status, SessionStatus::Processed);
    assert_eq!(done.summary.as_deref(), Some("retry worked."));
}

#[test]
fn list_sessions_by_job_filters() {
    let mut s = store();
    let job_a = s.create_job(NewJob { name: "a".into(), ..Default::default() }).unwrap();
    let job_b = s.create_job(NewJob { name: "b".into(), ..Default::default() }).unwrap();
    let sa1 = s.start_session(Some(&job_a.id)).unwrap();
    let sb1 = s.start_session(Some(&job_b.id)).unwrap();
    s.start_session(None).unwrap(); // unlinked — never listed by job
    let for_a: Vec<_> = s
        .list_sessions_by_job(&job_a.id)
        .unwrap()
        .into_iter()
        .map(|x| x.id)
        .collect();
    assert_eq!(for_a, vec![sa1.id]);
    let for_b: Vec<_> = s
        .list_sessions_by_job(&job_b.id)
        .unwrap()
        .into_iter()
        .map(|x| x.id)
        .collect();
    assert_eq!(for_b, vec![sb1.id]);
}

#[test]
fn library_lists_reverse_chronological() {
    let mut s = store().with_clock(Clock::Fixed(100));
    let a = s.start_session(None).unwrap();
    let mut s = s.with_clock(Clock::Fixed(200));
    let b = s.start_session(None).unwrap();
    let ids: Vec<_> = s.list_sessions().unwrap().into_iter().map(|x| x.id).collect();
    assert_eq!(ids, vec![b.id, a.id]);
}

#[test]
fn delete_session_is_a_tombstone() {
    let mut s = store();
    let session = s.start_session(None).unwrap();
    s.delete_session(&session.id).unwrap();
    assert!(matches!(s.get_session(&session.id), Err(CoreError::NotFound { .. })));
    assert!(s.list_sessions().unwrap().is_empty());
    // the row still exists (tombstone, not erase)
    let raw = s.session_rows().iter().filter(|r| r.session.id == session.id).count();
    assert_eq!(raw, 1);
}

#[test]
fn search_matches_transcript_and_summary() {
    let mut s = store();
    let a = s.start_session(None).unwrap();
    s.append_transcript(&a.id, "the french drain needs regrading").unwrap();
    s.end_session(&a.id).unwrap();

    let b = s.start_session(None).unwrap();
    s.end_session(&b.id).unwrap();
    s.mark_session_processed(&b.id, "Discussed drain pricing with Johnson").unwrap();

    let c = s.start_session(None).unwrap();
    s.append_transcript(&c.id, "unrelated roofing talk").unwrap();

    let hits: Vec<_> = s.search_sessions("drain").unwrap().into_iter().map(|x| x.id).collect();
    assert_eq!(hits.len(), 2);
    assert!(hits.contains(&a.id) && hits.contains(&b.id));
}

#[test]
fn search_is_case_insensitive_for_ascii() {
    let mut s = store();
    let a = s.start_session(None).unwrap();
    s.append_transcript(&a.id, "French Drain").unwrap();
    assert_eq!(s.search_sessions("french").unwrap().len(), 1);
}

#[test]
fn search_escapes_like_metacharacters() {
    let mut s = store();
    let a = s.start_session(None).unwrap();
    s.append_transcript(&a.id, "50% deposit due").unwrap();
    let b = s.start_session(None).unwrap();
    s.append_transcript(&b.id, "500 deposit due").unwrap();
    let hits = s.search_sessions("50%").unwrap();
    assert_eq!(hits.len(), 1, "% must match literally, not as wildcard");
    assert_eq!(hits[0].id, a.id);
}

#[test]
fn search_escapes_underscore_and_backslash() {
    let mut s = store();
    let a = s.start_session(None).unwrap();
    s.append_transcript(&a.id, "15_min standup").unwrap();
    let b = s.start_session(None).unwrap();
    s.append_transcript(&b.id, "15xmin standup").unwrap();
    let hits = s.search_sessions("15_min").unwrap();
    assert_eq!(hits.len(), 1, "_ must match literally, not as single-char wildcard");
    assert_eq!(hits[0].id, a.id);
    let _ = b;

    let c = s.start_session(None).unwrap();
    s.append_transcript(&c.id, r"path C:\jobs\johnson").unwrap();
    let hits = s.search_sessions(r"\jobs").unwrap();
    assert_eq!(hits.len(), 1, "literal backslash matches only sessions containing one");
    assert_eq!(hits[0].id, c.id);
}

#[test]
fn empty_or_blank_query_returns_nothing() {
    let mut s = store();
    let a = s.start_session(None).unwrap();
    s.append_transcript(&a.id, "anything").unwrap();
    assert!(s.search_sessions("").unwrap().is_empty());
    assert!(s.search_sessions("   ").unwrap().is_empty());
}

#[test]
fn delete_session_cascades_to_items_and_artifacts() {
    let mut s = store();
    let session = s.start_session(None).unwrap();
    let item = s.add_item(&session.id, "todo", "order lumber").unwrap();
    let artifact = s.add_artifact(&session.id, "report", "walk", "body").unwrap();

    s.delete_session(&session.id).unwrap();

    assert!(s.list_open_todos().unwrap().is_empty());
    assert!(s.list_items_for_session(&session.id).unwrap().is_empty());
    assert!(s.list_artifacts_for_session(&session.id).unwrap().is_empty());
    // raw rows still exist (tombstones, not erasure)
    let raw_item = s.item_rows().iter().filter(|r| r.item.id == item.id).count();
    assert_eq!(raw_item, 1);
    let raw_artifact = s.artifact_rows().iter().filter(|r| r.artifact.id == artifact.id).count();
    assert_eq!(raw_artifact, 1);
}

#[test]
fn list_sessions_by_status_filters() {
    let mut s = store();
    let recording = s.start_session(None).unwrap();
    let awaiting = s.start_session(None).unwrap();
    s.end_session(&awaiting.id).unwrap();
    let processed = s.start_session(None).unwrap();
    s.end_session(&processed.id).unwrap();
    s.mark_session_processed(&processed.id, "done.").unwrap();

    let ids = |status| -> Vec<String> {
        s.list_sessions_by_status(status)
            .unwrap()
            .into_iter()
            .map(|x| x.id)
            .collect()
    };
    assert_eq!(ids(SessionStatus::Recording), vec![recording.id]);
    assert_eq!(ids(SessionStatus::AwaitingProcessing), vec![awaiting.id]);
    assert_eq!(ids(SessionStatus::Processed), vec![processed.id]);
    assert!(ids(SessionStatus::Failed).is_empty());
}

#[test]
fn summaries_are_light_and_reverse_chron() {
    let mut s = store().with_clock(Clock::Fixed(100));
    let a = s.start_session(None).unwrap();
    s.append_transcript(&a.id, "0123456789").unwrap();
    let mut s = s.with_clock(Clock::Fixed(200));
    let b = s.start_session(None).unwrap();

    let summaries = s.list_session_summaries().unwrap();
    assert_eq!(summaries.len(), 2);
    assert_eq!(summaries[0].id, b.id);
    assert_eq!(summaries[1].id, a.id);
    assert_eq!(summaries[1].transcript_chars, 10);
    assert!(summaries[1].summary.is_none());
}

#[test]
fn summaries_by_status_filter() {
    let mut s = store();
    let a = s.start_session(None).unwrap();
    s.end_session(&a.id).unwrap();
    let _recording = s.start_session(None).unwrap();
    let queued = s.list_session_summaries_by_status(SessionStatus::AwaitingProcessing).unwrap();
    assert_eq!(queued.len(), 1);
    assert_eq!(queued[0].id, a.id);
}

#[test]
fn end_and_record_session_does_both() {
    let mut s = store();
    let session = s.start_session(None).unwrap();
    let ended = s.end_and_record_session(&session.id).unwrap();
    assert_eq!(ended.status, SessionStatus::AwaitingProcessing);
    assert_eq!(s.reflection_signals().unwrap().sessions_since_reflection, 1);
}

#[test]
fn finish_processed_swaps_out_live_and_prior_authoritative_keeps_manual_and_this_run() {
    let mut s = store();
    let session = s.start_session(None).unwrap();
    let sid = session.id.clone();
    // Board before this run: a live item, a prior-run authoritative item,
    // and a manual item.
    let live = s.add_item_with_source(&sid, "todo", "live", ItemSource::Live).unwrap();
    let prior = s.add_item_with_source(&sid, "todo", "prior auth", ItemSource::Authoritative).unwrap();
    let manual = s.add_item_with_source(&sid, "note", "manual", ItemSource::Manual).unwrap();
    // This run creates two authoritative items.
    let a1 = s.add_item_with_source(&sid, "todo", "new 1", ItemSource::Authoritative).unwrap();
    let a2 = s.add_item_with_source(&sid, "safety", "new 2", ItemSource::Authoritative).unwrap();

    s.end_session(&sid).unwrap();
    s.finish_session_processed(&sid, "done", &Usage::default(), &vec![a1.id.clone(), a2.id.clone()]).unwrap();

    let ids: Vec<String> = s.list_items_for_session(&sid).unwrap().into_iter().map(|i| i.id).collect();
    assert!(ids.contains(&manual.id), "manual survives the swap");
    assert!(ids.contains(&a1.id) && ids.contains(&a2.id), "this-run authoritative survives");
    assert!(!ids.contains(&live.id), "live is swept");
    assert!(!ids.contains(&prior.id), "prior-run authoritative is swept");
    assert_eq!(ids.len(), 3);
    // status + cost still land in the same tx
    assert_eq!(s.get_session(&sid).unwrap().status, SessionStatus::Processed);
    assert_eq!(s.list_llm_usage_for_session(&sid).unwrap().len(), 1);
}

#[test]
fn finish_processed_with_no_run_ids_sweeps_all_live_and_authoritative() {
    let mut s = store();
    let session = s.start_session(None).unwrap();
    let sid = session.id.clone();
    s.add_item_with_source(&sid, "todo", "live", ItemSource::Live).unwrap();
    let manual = s.add_item_with_source(&sid, "note", "manual", ItemSource::Manual).unwrap();
    s.end_session(&sid).unwrap();
    s.finish_session_processed(&sid, "(empty session)", &Usage::default(), &Vec::new()).unwrap();
    let ids: Vec<String> = s.list_items_for_session(&sid).unwrap().into_iter().map(|i| i.id).collect();
    assert_eq!(ids, vec![manual.id], "only manual survives an empty-run swap");
}

#[test]
fn finish_failed_leaves_the_live_board_intact() {
    let mut s = store();
    let session = s.start_session(None).unwrap();
    let sid = session.id.clone();
    let live = s.add_item_with_source(&sid, "todo", "live", ItemSource::Live).unwrap();
    s.end_session(&sid).unwrap();
    s.finish_session_failed(&sid, &Usage::default()).unwrap();
    let ids: Vec<String> = s.list_items_for_session(&sid).unwrap().into_iter().map(|i| i.id).collect();
    assert_eq!(ids, vec![live.id], "a failed process must not sweep the live board (the whole fix)");
    assert_eq!(s.get_session(&sid).unwrap().status, SessionStatus::Failed);
}

#[test]
fn clear_authoritative_outputs_spares_live_and_manual_and_sweeps_artifacts() {
    let mut s = store();
    let session = s.start_session(None).unwrap();
    let sid = session.id.clone();
    let live = s.add_item_with_source(&sid, "todo", "live", ItemSource::Live).unwrap();
    let manual = s.add_item_with_source(&sid, "note", "manual", ItemSource::Manual).unwrap();
    s.add_item_with_source(&sid, "todo", "stale auth", ItemSource::Authoritative).unwrap();
    s.add_artifact(&sid, "report", "old", "body").unwrap();

    let cleared = s.clear_authoritative_outputs(&sid).unwrap();
    assert_eq!(cleared, 2, "one authoritative item + one artifact");
    let ids: Vec<String> = s.list_items_for_session(&sid).unwrap().into_iter().map(|i| i.id).collect();
    assert_eq!(ids, vec![live.id, manual.id], "live and manual are spared");
    assert!(s.list_artifacts_for_session(&sid).unwrap().is_empty(), "all artifacts swept");
    // idempotent: nothing left to clear
    assert_eq!(s.clear_authoritative_outputs(&sid).unwrap(), 0);
    // missing session errors
    assert!(matches!(
        s.clear_authoritative_outputs("nope"),
        Err(CoreError::NotFound { entity: "session", .. })
    ));
}

#[test]
fn processed_session_summary_carries_full_lifecycle_fields() {
    let mut s = store();
    let session = s.start_session(None).unwrap();
    s.append_transcript(&session.id, "walked the deck").unwrap();
    let mut s = s.with_clock(Clock::Fixed(2000));
    s.end_session(&session.id).unwrap();
    s.mark_session_processed(&session.id, "the summary").unwrap();

    let summaries = s.list_session_summaries().unwrap();
    assert_eq!(summaries.len(), 1);
    assert_eq!(summaries[0].id, session.id);
    assert_eq!(summaries[0].status, SessionStatus::Processed);
    assert_eq!(summaries[0].summary.as_deref(), Some("the summary"));
    assert_eq!(summaries[0].ended_at, Some(2000));
    assert_eq!(summaries[0].transcript_chars, 15);
}

#[test]
fn statuses_divide_the_list_of_all_sessions() {
    let mut s = store();
    for n in 0..8 {
        let id = s.start_session(None).unwrap().id;
        if n % 4 > 0 {
            s.end_session(&id).unwrap();
        }
        if n % 4 == 2 {
            s.mark_session_processed(&id, "done.").unwrap();
        }
        if n % 4 == 3 {
            s.mark_session_failed(&id).unwrap();
        }
    }
    let all = s.list_sessions().unwrap();
    assert_eq!(all.len(), 8);
    let mut listed = 0;
    for status in [
        SessionStatus::Recording,
        SessionStatus::AwaitingProcessing,
        SessionStatus::Processed,
        SessionStatus::Failed,
    ] {
        let part = s.list_sessions_by_status(status).unwrap();
        let kept: Vec<_> = all.iter().filter(|x| x.status == status).cloned().collect();
        assert_eq!(part, kept, "the same sessions in the same order");
        assert_eq!(part.len(), 2);
        listed += part.len();
    }
    assert_eq!(listed, all.len());
}

#[test]
fn search_refuses_a_pattern_that_is_too_long() {
    let mut s = store();
    let too_complex = "LIKE or GLOB pattern too complex".to_string();
    // The pattern has a sign before and after the query.
    let longest = "x".repeat(49_998);
    let longer = "x".repeat(49_999);
    assert!(s.search_sessions(&longer).unwrap().is_empty(), "no session to hold it against");
    let session = s.start_session(None).unwrap();
    s.append_transcript(&session.id, &longer).unwrap();
    assert_eq!(s.search_sessions(&longest).unwrap().len(), 1);
    assert!(matches!(s.search_sessions(&longer), Err(CoreError::Storage(m)) if m == too_complex));
    // Bytes count, and what is escaped counts twice.
    assert!(s.search_sessions(&"é".repeat(24_999)).unwrap().is_empty());
    assert!(matches!(s.search_sessions(&"é".repeat(25_000)), Err(CoreError::Storage(_))));
    assert!(matches!(s.search_sessions(&"€".repeat(16_667)), Err(CoreError::Storage(_))));
    assert!(matches!(s.search_sessions(&"😀".repeat(12_500)), Err(CoreError::Storage(_))));
    assert!(s.search_sessions(&"%".repeat(24_999)).unwrap().is_empty());
    assert!(matches!(s.search_sessions(&"%".repeat(25_000)), Err(CoreError::Storage(_))));
    assert!(s.search_sessions(&" ".repeat(60_000)).unwrap().is_empty(), "a blank one finds nothing");
}

#[test]
fn finish_refuses_more_ids_than_a_statement_takes() {
    let mut s = store();
    let sid = s.start_session(None).unwrap().id;
    let live = s.add_item_with_source(&sid, "todo", "live", ItemSource::Live).unwrap();
    s.end_session(&sid).unwrap();
    let mut ids: Vec<String> = (0..32_765).map(|i: u32| i.to_string()).collect();
    let refused = s.finish_session_processed(&sid, "done", &Usage::default(), &ids);
    assert!(matches!(
        refused,
        Err(CoreError::Storage(m)) if m == "variable number must be between ?1 and ?32766"
    ));
    assert_eq!(s.get_session(&sid).unwrap().status, SessionStatus::AwaitingProcessing);
    assert_eq!(s.list_items_for_session(&sid).unwrap()[0].id, live.id);
    assert!(matches!(
        s.finish_session_processed("no-such-session", "done", &Usage::default(), &ids),
        Err(CoreError::Storage(_))
    ));
    ids.pop();
    s.finish_session_processed(&sid, "done", &Usage::default(), &ids).unwrap();
    assert!(s.list_items_for_session(&sid).unwrap().is_empty());
}
