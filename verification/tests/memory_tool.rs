//! The tool that learns and forgets facts.

use murmur::clock::Clock;
use murmur::harness::error::HarnessError;
use murmur::harness::memory::store::{MemoryStore, SavesView};
use murmur::harness::memory::tool::UpdateMemoryTool;
use murmur::harness::memory::{FactSource, Memory, MemorySection};
use murmur::json::Json;

fn json(text: &str) -> Json {
    Json::parse(text).unwrap()
}

/// In-memory store that records saves.
struct SpyStore {
    saved: Vec<Memory>,
    broken: bool,
}

impl SpyStore {
    fn new() -> Self {
        SpyStore { saved: Vec::new(), broken: false }
    }
}

impl MemoryStore for SpyStore {
    fn saves(self) -> SavesView {
        unreachable!()
    }
    fn load(&self) -> Result<Memory, HarnessError> {
        Ok(Memory::default())
    }
    fn save(&mut self, memory: &Memory) -> Result<(), HarnessError> {
        if self.broken {
            return Err(HarnessError::Provider("disk full".into()));
        }
        self.saved.push(memory.clone());
        Ok(())
    }
}

#[test]
fn remember_mutates_and_persists() {
    let mut store = SpyStore::new();
    let mut m = Memory::default();
    let tool = UpdateMemoryTool::with_clock(Clock::Fixed(777));
    let out = tool
        .execute(
            &mut m,
            &mut store,
            &json(r#"{"op": "remember", "section": "people", "text": "Dev — framer"}"#),
        )
        .unwrap();
    assert_eq!(out, "remembered in people: Dev — framer");
    assert_eq!(m.section("people").unwrap()[0].last_touched, 777);
    assert_eq!(m.section("people").unwrap()[0].source, FactSource::Inferred);
    assert_eq!(store.saved.len(), 1);
}

#[test]
fn source_and_session_are_recorded() {
    let mut store = SpyStore::new();
    let mut m = Memory::default();
    let tool = UpdateMemoryTool::with_clock(Clock::Fixed(5)).for_session("s42".into());
    tool.execute(
        &mut m,
        &mut store,
        &json(r#"{"op": "remember", "section": "people", "text": "Dev", "source": "corrected"}"#),
    )
    .unwrap();
    assert_eq!(m.section("people").unwrap()[0].source, FactSource::Corrected);
    assert_eq!(m.section("people").unwrap()[0].session.as_deref(), Some("s42"));
}

#[test]
fn forget_removes_or_errors() {
    let mut store = SpyStore::new();
    let mut m = Memory::default();
    let tool = UpdateMemoryTool::with_clock(Clock::Fixed(777));
    tool.execute(
        &mut m,
        &mut store,
        &json(r#"{"op": "remember", "section": "people", "text": "Dave"}"#),
    )
    .unwrap();
    let out = tool
        .execute(
            &mut m,
            &mut store,
            &json(r#"{"op": "forget", "section": "people", "text": "Dave"}"#),
        )
        .unwrap();
    assert_eq!(out, "forgot from people: Dave");
    let err = tool
        .execute(
            &mut m,
            &mut store,
            &json(r#"{"op": "forget", "section": "people", "text": "Dave"}"#),
        )
        .unwrap_err();
    assert!(matches!(err, HarnessError::Tool { .. }));
    assert_eq!(store.saved.len(), 2, "a refused change is not saved");
}

#[test]
fn bad_input_is_a_tool_error() {
    let mut store = SpyStore::new();
    let mut m = Memory::default();
    let tool = UpdateMemoryTool::with_clock(Clock::Fixed(777));
    let err = tool
        .execute(&mut m, &mut store, &json(r#"{"op": "explode", "section": "x", "text": "y"}"#))
        .unwrap_err();
    assert!(matches!(err, HarnessError::Tool { .. }));
    let err = tool.execute(&mut m, &mut store, &json(r#"{"op": "remember"}"#)).unwrap_err();
    assert!(matches!(err, HarnessError::Tool { .. }));
    let err = tool
        .execute(
            &mut m,
            &mut store,
            &json(r#"{"op": "remember", "section": "x", "text": "y", "source": "psychic"}"#),
        )
        .unwrap_err();
    assert!(matches!(err, HarnessError::Tool { .. }));
}

#[test]
fn every_refusal_says_why() {
    let mut store = SpyStore::new();
    let mut m = Memory::default();
    let tool = UpdateMemoryTool::new();
    let cases = [
        ("{}", "missing 'op'"),
        (r#"{"op": "remember"}"#, "missing 'section'"),
        (r#"{"op": "remember", "section": "x"}"#, "missing 'text'"),
        (r#"{"op": "remember", "section": "x", "text": 3}"#, "missing 'text'"),
        (r#"{"op": "explode", "section": "x", "text": "y"}"#, "unknown op: explode"),
        (r#"{"op": "forget", "section": "x", "text": "y"}"#, "no entry in x matching: y"),
        (
            r#"{"op": "forget", "section": "x", "text": "y", "source": "psychic"}"#,
            "unknown source: psychic",
        ),
    ];
    for (input, why) in cases {
        let err = tool.execute(&mut m, &mut store, &json(input)).unwrap_err();
        assert!(
            matches!(&err, HarnessError::Tool { name, message } if name == "update_memory" && message == why),
            "{input}: {}",
            err.to_text()
        );
    }
    assert!(store.saved.is_empty());
    assert!(m.sections().is_empty());
}

#[test]
fn failed_save_is_reported_and_the_fact_is_known_all_the_same() {
    let mut store = SpyStore::new();
    store.broken = true;
    let mut m = Memory::default();
    let tool = UpdateMemoryTool::with_clock(Clock::Fixed(1));
    let err = tool
        .execute(
            &mut m,
            &mut store,
            &json(r#"{"op": "remember", "section": "people", "text": "Dev", "source": "stated"}"#),
        )
        .unwrap_err();
    assert!(matches!(&err, HarnessError::Provider(why) if why == "disk full"));
    assert_eq!(m.section_texts("people"), vec!["Dev"]);
    assert_eq!(m.section("people").unwrap()[0].source, FactSource::Stated);
}

#[test]
fn schema_names_what_is_required() {
    let tool = UpdateMemoryTool::new();
    let schema = tool.input_schema();
    let required = schema.get("required").unwrap().as_array().unwrap();
    assert_eq!(required.len(), 3);
    assert_eq!(tool.name(), "update_memory");
    assert!(tool.description().starts_with("Remember or forget one fact"));
}

#[test]
fn refused_forget_leaves_even_an_empty_section() {
    let mut store = SpyStore::new();
    let mut m = Memory::from_sections(vec![MemorySection {
        name: "people".into(),
        entries: Vec::new(),
    }]);
    let before = m.clone();
    let err = UpdateMemoryTool::with_clock(Clock::Fixed(777))
        .execute(
            &mut m,
            &mut store,
            &json(r#"{"op": "forget", "section": "people", "text": "Dave"}"#),
        )
        .unwrap_err();
    assert!(matches!(err, HarnessError::Tool { .. }));
    assert_eq!(m, before);
    assert!(m.section("people").is_some());
    assert!(store.saved.is_empty());
}

#[test]
fn every_change_is_what_the_store_got_last() {
    let mut store = SpyStore::new();
    let mut m = Memory::default();
    let tool = UpdateMemoryTool::with_clock(Clock::Fixed(777));
    for input in [
        r#"{"op": "remember", "section": "people", "text": "Dave"}"#,
        r#"{"op": "remember", "section": "people", "text": "Sara"}"#,
        r#"{"op": "forget", "section": "people", "text": "Dave"}"#,
    ] {
        tool.execute(&mut m, &mut store, &json(input)).unwrap();
        assert_eq!(store.saved.last(), Some(&m));
    }
    assert_eq!(store.saved.len(), 3);
}
