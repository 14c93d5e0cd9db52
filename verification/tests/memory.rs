//! Long-term memory.

use murmur::harness::memory::{FactSource, Memory};

fn mem_with(section: &str, texts: &[(&str, u64)]) -> Memory {
    let mut m = Memory::default();
    for (t, at) in texts {
        m.remember(section, t, *at);
    }
    m
}

#[test]
fn remember_adds_and_touches_existing() {
    let mut m = Memory::default();
    m.remember("people", "Dev \u{2014} framer", 100);
    m.remember("people", "Dev \u{2014} framer", 200); // same text: touch, don't duplicate
    assert_eq!(m.section("people").unwrap().len(), 1);
    assert_eq!(m.section("people").unwrap()[0].last_touched, 200);
    assert_eq!(m.section("people").unwrap()[0].source, FactSource::Inferred);
}

#[test]
fn source_upgrades_but_never_downgrades() {
    let mut m = Memory::default();
    m.remember_from("people", "Dev \u{2014} framer", 100, FactSource::Corrected, Some("s3".into()));
    m.remember("people", "Dev \u{2014} framer", 200); // inferred touch
    let e = m.section("people").unwrap()[0].clone();
    assert_eq!(e.last_touched, 200);
    assert_eq!(e.source, FactSource::Corrected);
    assert_eq!(e.session.as_deref(), Some("s3"));
    m.remember_from("people", "Dev \u{2014} framer", 300, FactSource::Stated, Some("s9".into()));
    assert_eq!(m.section("people").unwrap()[0].source, FactSource::Corrected, "no downgrade");
}

#[test]
fn forget_removes_and_reports() {
    let mut m = mem_with("people", &[("Dev \u{2014} framer", 100)]);
    assert!(m.forget("people", "Dev \u{2014} framer"));
    assert!(!m.forget("people", "Dev \u{2014} framer"));
    assert!(m.section("people").is_none(), "empty sections are dropped");
}

#[test]
fn word_count_counts_entry_words() {
    let m = mem_with("vocabulary", &[("bark mulch", 1), ("french drain", 1)]);
    assert_eq!(m.word_count(), 4);
}

#[test]
fn to_prompt_renders_sections_in_order() {
    let mut m = mem_with("people", &[("Dev \u{2014} framer", 1)]);
    m.remember("jobs", "Johnson remodel \u{2014} active", 1);
    assert_eq!(
        m.to_prompt(),
        "## jobs\n- Johnson remodel \u{2014} active\n\n## people\n- Dev \u{2014} framer\n"
    );
}

#[test]
fn to_prompt_empty_memory_is_empty_string() {
    assert_eq!(Memory::default().to_prompt(), "");
}

#[test]
fn section_texts_accessor() {
    let m = mem_with("vocabulary", &[("skid steer", 1), ("french drain", 1)]);
    assert_eq!(m.section_texts("vocabulary"), vec!["skid steer", "french drain"]);
    assert!(m.section_texts("nope").is_empty());
}

#[test]
fn prune_stale_drops_old_entries_and_empty_sections() {
    let mut m = Memory::default();
    m.remember("people", "old contact", 100);
    m.remember("people", "fresh contact", 900);
    m.remember("jobs", "ancient job", 50);
    let removed = m.prune_stale(1000, 500); // older than 500s ago goes
    assert_eq!(removed, 2);
    assert_eq!(m.section_texts("people"), vec!["fresh contact"]);
    assert!(m.section("jobs").is_none());
}

#[test]
fn clamp_to_cap_drops_oldest_first() {
    let mut m = Memory::default();
    m.remember("a", "one two three", 100); // 3 words, oldest
    m.remember("b", "four five", 200); // 2 words
    m.remember("c", "six seven eight nine", 300); // 4 words, newest
    let removed = m.clamp_to_cap(6);
    assert_eq!(removed, 1, "dropping the oldest entry reaches the cap");
    assert_eq!(m.word_count(), 6);
    assert!(m.section("a").is_none());
    assert_eq!(m.section_texts("b"), vec!["four five"]);
    assert_eq!(m.section_texts("c"), vec!["six seven eight nine"]);
}

#[test]
fn clamp_to_cap_noop_when_within() {
    let mut m = Memory::default();
    m.remember("a", "one two", 100);
    assert_eq!(m.clamp_to_cap(10), 0);
    assert_eq!(m.word_count(), 2);
}

#[test]
fn corrected_facts_survive_pruning_and_evict_last() {
    let mut m = Memory::default();
    m.remember_from("people", "Dev not Dave", 10, FactSource::Corrected, None);
    m.remember("people", "likes early starts", 9);
    assert_eq!(m.prune_stale(1000, 100), 1, "only the inferred fact prunes");
    assert_eq!(m.section_texts("people"), vec!["Dev not Dave"]);

    m.remember_from("a", "one two three four", 500, FactSource::Stated, None);
    // cap forces eviction: inferred gone already; stated (rank 1) goes before corrected (rank 2)
    m.clamp_to_cap(3);
    assert_eq!(m.section_texts("people"), vec!["Dev not Dave"]);
    assert!(m.section("a").is_none());

    // Corrected facts are last to go, not immune: with only Corrected
    // entries left, clamp_to_cap still evicts to honor the cap.
    m.remember_from("people", "prefers text over calls", 20, FactSource::Corrected, None);
    assert_eq!(m.word_count(), 7); // "Dev not Dave" (3) + new entry (4)
    let removed = m.clamp_to_cap(4);
    assert_eq!(removed, 1, "oldest corrected entry is evicted");
    assert!(m.word_count() <= 4);
    assert_eq!(m.section_texts("people"), vec!["prefers text over calls"]);
}

#[test]
fn only_a_new_fact_adds_words() {
    let mut m = Memory::default();
    assert_eq!(m.word_count(), 0);
    m.remember("people", "Dev the framer", 1);
    assert_eq!(m.word_count(), 3);
    m.remember("people", "Dev the framer", 2);
    assert_eq!(m.word_count(), 3, "a known fact is refreshed");
    m.remember("jobs", "Dev the framer", 3);
    assert_eq!(m.word_count(), 6, "another section is another fact");
    m.forget("people", "Dev the framer");
    assert_eq!(m.word_count(), 3);
}
