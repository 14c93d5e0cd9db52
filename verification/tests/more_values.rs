//! Exact values of formulas, and the edges of what is kept.

use murmur::clock::Clock;
use murmur::evals::corpus::{ExpectedItem, GroundTruth};
use murmur::evals::grade::{grade, Observed, ObservedItem};
use murmur::evals::matching::{is_alike, match_items, Tokenized};
use murmur::evals::normalize::{dice, token_set};
use murmur::harness::llm::Usage;
use murmur::harness::memory::{FactSource, Memory};
use murmur::notes::domain::{ItemSource, JobStatus, SessionStatus};
use murmur::notes::error::CoreError;
use murmur::notes::store::Store;
use murmur::ratio::Ratio;

#[test]
fn forgetting_a_new_fact_undoes_learning_it() {
    let mut m = Memory::default();
    m.remember("people", "Dev", 1);
    let before = m.clone();
    m.remember_from("people", "Sara", 2, FactSource::Stated, None);
    assert!(m.forget("people", "Sara"));
    assert_eq!(m, before);
    m.remember("jobs", "deck", 3);
    assert!(m.forget("jobs", "deck"));
    assert_eq!(m, before, "a section that is empty again is gone");
}

#[test]
fn dice_is_twice_the_shared_words_over_all_words() {
    let a = token_set("order lumber today");
    let b = token_set("order lumber");
    assert_eq!(dice(&a, &b), Ratio { num: 4, den: 5 });
    assert_eq!(dice(&b, &a), Ratio { num: 4, den: 5 });
    assert_eq!(dice(&a, &a), Ratio { num: 6, den: 6 });
}

#[test]
fn words_are_lower_case_letters_and_digits_of_any_script() {
    let a = token_set("ÄRGER 2x4!");
    let b = token_set("ärger, 2X4");
    assert_eq!(dice(&a, &b), Ratio { num: 4, den: 4 });
    assert_eq!(dice(&token_set("a-b"), &token_set("ab")), Ratio { num: 0, den: 2 });
}

#[test]
fn one_item_is_matched_once() {
    let truth = GroundTruth {
        items: vec![ExpectedItem { kind: "todo".into(), text: "order lumber".into() }],
        contacts: vec![],
        distractors: vec![],
        expects_summary: false,
    };
    let twice = |n: usize| Observed {
        items: vec![ObservedItem { kind: "todo".into(), text: "order lumber".into() }; n],
        contacts: vec![],
        summary_present: false,
    };
    let one = grade(&truth, &twice(1));
    let two = grade(&truth, &twice(2));
    assert_eq!(one.overall.precision, Ratio { num: 1, den: 1 });
    assert_eq!(two.overall.precision, Ratio { num: 1, den: 2 });
    assert_eq!(two.overall.recall, Ratio { num: 1, den: 1 });
    assert!(two.f_half.below(&one.f_half));
}

#[test]
fn stored_names_are_read_back() {
    for status in [
        SessionStatus::Recording,
        SessionStatus::AwaitingProcessing,
        SessionStatus::Processed,
        SessionStatus::Failed,
    ] {
        assert_eq!(SessionStatus::parse(status.as_str()).unwrap(), status);
    }
    for source in [ItemSource::Live, ItemSource::Authoritative, ItemSource::Manual] {
        assert_eq!(ItemSource::parse(source.as_str()).unwrap(), source);
    }
    assert_eq!(JobStatus::parse(JobStatus::Active.as_str()).unwrap(), JobStatus::Active);
    assert!(matches!(ItemSource::parse("guess"), Err(CoreError::Corrupt(_))));
    assert!(matches!(JobStatus::parse("Active"), Err(CoreError::Corrupt(_))));
}

#[test]
fn transcript_keeps_every_piece_in_order() {
    let mut s = Store::open_in_memory("d").unwrap().with_clock(Clock::Fixed(10));
    let id = s.start_session(None).unwrap().id;
    s.append_transcript(&id, "first").unwrap();
    s.append_transcript(&id, "second").unwrap();
    let text = s.get_session(&id).unwrap().transcript;
    assert!(text.find("first").unwrap() < text.find("second").unwrap());
}

#[test]
fn refused_operations_change_nothing() {
    let mut s = Store::open_in_memory("d").unwrap().with_clock(Clock::Fixed(10));
    let id = s.start_session(None).unwrap().id;
    s.add_item(&id, "todo", "x").unwrap();
    let sessions = s.session_rows().clone();
    let items = s.item_rows().clone();
    assert!(s.mark_session_processed(&id, "s").is_err());
    assert!(s.finish_session_processed(&id, "s", &Usage::default(), &[]).is_err());
    assert!(s.finish_session_failed("nope", &Usage::default()).is_err());
    assert!(s.set_item_done("nope", true).is_err());
    assert!(s.delete_session("nope").is_err());
    let late = s.add_item_if_status(&id, "todo", "y", SessionStatus::Failed, ItemSource::Live);
    assert!(late.unwrap().is_none());
    assert_eq!(*s.session_rows(), sessions);
    assert_eq!(*s.item_rows(), items);
    assert_eq!(s.usage_totals().unwrap(), (0, 0));
}

#[test]
fn deleted_rows_are_kept_and_marked() {
    let mut s = Store::open_in_memory("d").unwrap().with_clock(Clock::Fixed(10));
    let id = s.start_session(None).unwrap().id;
    s.add_item(&id, "todo", "x").unwrap();
    let mut s = s.with_clock(Clock::Fixed(20));
    s.delete_session(&id).unwrap();
    assert_eq!(s.session_rows()[0].deleted_at, Some(20));
    assert_eq!(s.item_rows()[0].deleted_at, Some(20));
    assert_eq!(s.item_rows().len(), 1);
}

#[test]
fn open_todos_are_listed_whatever_their_source() {
    let mut s = Store::open_in_memory("d").unwrap();
    let id = s.start_session(None).unwrap().id;
    s.add_item_with_source(&id, "todo", "a", ItemSource::Live).unwrap();
    s.add_item_with_source(&id, "todo", "b", ItemSource::Manual).unwrap();
    s.add_item_with_source(&id, "note", "c", ItemSource::Manual).unwrap();
    assert_eq!(s.list_open_todos().unwrap().len(), 2);
}

#[test]
fn ratios_compare_exactly() {
    assert!(Ratio::of(1, 3).below(&Ratio::of(334, 1000)));
    assert!(!Ratio::of(1, 3).below(&Ratio::of(333, 1000)));
    assert!(!Ratio::of(2, 4).below(&Ratio::of(1, 2)));
    assert_eq!(Ratio::of(5, 0), Ratio { num: 0, den: 1 });
    assert!(Ratio::of(u64::MAX - 1, u64::MAX).below(&Ratio::of(1, 1)));
}

#[test]
fn matching_leaves_no_like_pair() {
    let item = |kind: &str, text: &str| Tokenized { kind: kind.into(), tokens: token_set(text) };
    let exp = vec![
        item("todo", "order lumber"),
        item("todo", "order lumber today"),
        item("note", "deck rot"),
    ];
    let obs = vec![
        item("todo", "order lumber today"),
        item("todo", "order lumber"),
        item("todo", "deck rot"),
    ];
    let m = match_items(&exp, &obs);
    assert_eq!(m.exp_used, vec![true, true, false]);
    assert_eq!(m.obs_used, vec![true, true, false]);
    for (i, e) in exp.iter().enumerate() {
        for (j, o) in obs.iter().enumerate() {
            if e.kind == o.kind && is_alike(&e.tokens, &o.tokens) {
                assert!(m.exp_used[i] || m.obs_used[j]);
            }
        }
    }
}
