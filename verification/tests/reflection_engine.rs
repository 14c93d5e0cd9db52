//! Rewriting a memory.

use murmur::harness::error::HarnessError;
use murmur::harness::llm::{CompletionResponse, ContentBlock, StopReason, Usage};
use murmur::harness::memory::{FactSource, Memory, MemoryEntry};
use murmur::harness::reflection::churn::churn_between;
use murmur::harness::reflection::engine::ReflectionEngine;
use murmur::json::Json;
use murmur::ratio::Ratio;

fn json(text: &str) -> Json {
    Json::parse(text).unwrap()
}

fn value(r: Ratio) -> f64 {
    r.num as f64 / r.den as f64
}

fn write_memory_response(sections: &str) -> CompletionResponse {
    CompletionResponse {
        content: vec![ContentBlock::ToolUse {
            id: "tu_1".into(),
            name: "write_memory".into(),
            input: json(&format!("{{\"sections\": {sections}}}")),
        }],
        stop_reason: StopReason::ToolUse,
        usage: Usage { input_tokens: 100, output_tokens: 50 },
    }
}

fn current_memory() -> Memory {
    let mut m = Memory::default();
    m.remember_from("people", "Dev — framer", 111, FactSource::Corrected, Some("s1".into()));
    m.remember("people", "Dave — plumber", 222);
    m
}

#[test]
fn rebuilds_memory_preserving_full_prior_entries() {
    let engine = ReflectionEngine::new();
    let activity = vec!["walked the Johnson site".to_string()];
    let request = engine.request(&current_memory(), &activity);
    let out = engine
        .reflect(
            &current_memory(),
            999,
            Ok(write_memory_response(r#"{"people": ["Dev — framer", "Sara — electrician"]}"#)),
        )
        .unwrap();

    let people = out.memory.section("people").unwrap();
    assert_eq!(people.len(), 2);
    // survivor keeps its FULL prior entry: source, session, last_touched
    assert_eq!(
        people[0],
        MemoryEntry {
            text: "Dev — framer".into(),
            last_touched: 111,
            source: FactSource::Corrected,
            session: Some("s1".into()),
        }
    );
    // new fact: Inferred, no session, touched now
    assert_eq!(
        people[1],
        MemoryEntry {
            text: "Sara — electrician".into(),
            last_touched: 999,
            source: FactSource::Inferred,
            session: None,
        }
    );
    assert_eq!(out.usage, Usage { input_tokens: 100, output_tokens: 50 });

    // request shape: forced tool, memory + activity present, corrected marker rendered
    assert_eq!(request.tool_choice.as_deref(), Some("write_memory"));
    let ContentBlock::Text { text } = &request.messages[0].content[0] else {
        panic!("expected text block")
    };
    assert!(text.contains("Dev — framer [corrected]"));
    assert!(text.contains("Dave — plumber"));
    assert!(!text.contains("Dave — plumber [corrected]"));
    assert!(text.contains("walked the Johnson site"));
}

#[test]
fn churn_measures_added_plus_removed() {
    // old: {Dev, Dave}; new: {Dev, Sara} → added 1, removed 1, sizes 2+2 → churn 0.5
    let out = ReflectionEngine::new()
        .reflect(
            &current_memory(),
            999,
            Ok(write_memory_response(r#"{"people": ["Dev — framer", "Sara — electrician"]}"#)),
        )
        .unwrap();
    assert!((value(out.churn) - 0.5).abs() < 1e-6);
}

#[test]
fn identical_rewrite_has_zero_churn() {
    let out = ReflectionEngine::new()
        .reflect(
            &current_memory(),
            999,
            Ok(write_memory_response(r#"{"people": ["Dev — framer", "Dave — plumber"]}"#)),
        )
        .unwrap();
    assert_eq!(value(out.churn), 0.0);
}

#[test]
fn result_is_clamped_to_word_cap() {
    let mut engine = ReflectionEngine::new();
    engine.word_cap = 4;
    let out = engine
        .reflect(
            &Memory::default(),
            999,
            Ok(write_memory_response(r#"{"notes": ["one two three", "four five six seven"]}"#)),
        )
        .unwrap();
    assert!(out.memory.word_count() <= 4);
}

#[test]
fn missing_tool_call_is_an_error() {
    let reply = CompletionResponse {
        content: vec![ContentBlock::Text { text: "I decline".into() }],
        stop_reason: StopReason::EndTurn,
        usage: Usage::default(),
    };
    let err = ReflectionEngine::new().reflect(&Memory::default(), 999, Ok(reply)).unwrap_err();
    assert!(matches!(err.source, HarnessError::Provider(msg) if msg.contains("write_memory")));
}

#[test]
fn failures_say_what_they_cost() {
    let engine = ReflectionEngine::new();
    let err = engine
        .reflect(&Memory::default(), 1, Err(HarnessError::Provider("offline".into())))
        .unwrap_err();
    assert_eq!(err.usage, Usage::default());
    let malformed = write_memory_response("\"not an object\"");
    let err = engine.reflect(&Memory::default(), 1, Ok(malformed)).unwrap_err();
    assert_eq!(err.usage, Usage { input_tokens: 100, output_tokens: 50 });
}

#[test]
fn request_of_an_empty_memory_says_so() {
    let engine = ReflectionEngine::new();
    let request = engine.request(&Memory::default(), &Vec::new());
    let ContentBlock::Text { text } = &request.messages[0].content[0] else {
        panic!("expected text block")
    };
    assert_eq!(
        text,
        "Current memory:\n(empty)\n\nRecent activity since last reflection:\n(none)"
    );
    assert!(request.system.contains("Hard limit: 500 words total."));
    let two = engine.request(&Memory::default(), &vec!["a".into(), "b".into()]);
    let ContentBlock::Text { text } = &two.messages[0].content[0] else {
        panic!("expected text block")
    };
    assert!(text.ends_with("1. a\n2. b"));
}

#[test]
fn churn_tells_sections_apart_and_counts_nothing_twice() {
    let empty = Memory::default();
    assert_eq!(churn_between(&empty, &empty), Ratio { num: 0, den: 1 });
    let mut a = Memory::default();
    a.remember("people", "Dev", 1);
    let mut b = Memory::default();
    b.remember("jobs", "Dev", 1);
    assert_eq!(churn_between(&a, &b), Ratio { num: 2, den: 2 });
    assert_eq!(churn_between(&a, &empty), Ratio { num: 1, den: 1 });
}

#[test]
fn what_is_no_list_of_texts_is_skipped() {
    let out = ReflectionEngine::new()
        .reflect(
            &Memory::default(),
            7,
            Ok(write_memory_response(r#"{"a": "text", "b": [1, "kept", null], "c": []}"#)),
        )
        .unwrap();
    assert_eq!(out.memory.sections().len(), 1);
    assert_eq!(out.memory.section_texts("b"), vec!["kept"]);
}
