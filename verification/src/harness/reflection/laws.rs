//! What holds of every reflection.

use vstd::prelude::*;
use crate::harness::error::HarnessErrorView;
use crate::harness::llm::ResponseView;
use crate::harness::memory::EntryView;
use crate::harness::memory::laws::law_clamp_reaches_the_cap;
use crate::harness::memory::laws::law_forget_removes_exactly_the_text;
use crate::harness::memory::MemorySectionView;
use crate::harness::memory::model::evicted;
use crate::harness::memory::model::evicted_one;
use crate::harness::memory::model::fact_count;
use crate::harness::memory::model::fact_index;
use crate::harness::memory::model::facts_of;
use crate::harness::memory::model::goes_next;
use crate::harness::memory::model::has_section;
use crate::harness::memory::model::held;
use crate::harness::memory::model::learned_fact;
use crate::harness::memory::model::lemma_fact_index;
use crate::harness::memory::model::lemma_forgotten_in_order;
use crate::harness::memory::model::lemma_with_facts;
use crate::harness::memory::model::memory_words;
use crate::harness::memory::model::names_before;
use crate::harness::memory::model::sections_in_order;
use crate::harness::reflection::churn::churn_of;
use crate::harness::reflection::churn::fact_keys;
use crate::harness::reflection::engine::origin;
use crate::harness::reflection::engine::rebuilt;
use crate::harness::reflection::engine::reflection;
use crate::harness::reflection::engine::ReflectionEngine;
use crate::harness::reflection::engine::rewritten;
use crate::harness::reflection::engine::with_texts;
use crate::harness::reflection::engine::written_sections;
use crate::json::JsonView;
use crate::ratio::capped;

verus! {

/// Every fact of a memory has the history that a rewrite gives it.
pub open spec fn history_kept(
    m: Seq<MemorySectionView>,
    current: Seq<MemorySectionView>,
    now: u64,
) -> bool {
    forall|section: Seq<char>, e: EntryView| #[trigger]
        facts_of(m, section).contains(e) ==> e == origin(current, section, e.text, now)
}

proof fn lemma_origin_text(
    current: Seq<MemorySectionView>,
    section: Seq<char>,
    text: Seq<char>,
    now: u64,
)
    ensures
        origin(current, section, text, now).text == text,
{
    lemma_fact_index(facts_of(current, section), text);
}

proof fn lemma_rewritten(
    m: Seq<MemorySectionView>,
    current: Seq<MemorySectionView>,
    section: Seq<char>,
    text: Seq<char>,
    now: u64,
)
    requires
        sections_in_order(m),
        history_kept(m, current, now),
    ensures
        sections_in_order(rewritten(m, current, section, text, now)),
        history_kept(rewritten(m, current, section, text, now), current, now),
{
    let o = origin(current, section, text, now);
    lemma_origin_text(current, section, text, now);
    let before = facts_of(m, section);
    let target = learned_fact(before, text, o.last_touched, o.source, o.session);
    lemma_with_facts(m, section, target);
    lemma_fact_index(before, text);
    let after = rewritten(m, current, section, text, now);
    let k = fact_index(before, text) as int;
    assert forall|s: Seq<char>, e: EntryView| #[trigger] facts_of(after, s).contains(e) implies e
        == origin(current, s, e.text, now) by {
        if s == section {
            let i = choose|i: int| 0 <= i < target.len() && target[i] == e;
            if k < before.len() && i == k {
                assert(before.contains(before[k]));
                assert(before[k] == o);
            } else if i < before.len() {
                assert(before.contains(before[i]));
            }
        } else {
            assert(facts_of(m, s).contains(e));
        }
    }
}

proof fn lemma_with_texts(
    m: Seq<MemorySectionView>,
    current: Seq<MemorySectionView>,
    section: Seq<char>,
    texts: Seq<JsonView>,
    now: u64,
)
    requires
        sections_in_order(m),
        history_kept(m, current, now),
    ensures
        sections_in_order(with_texts(m, current, section, texts, now)),
        history_kept(with_texts(m, current, section, texts, now), current, now),
    decreases texts.len(),
{
    if texts.len() > 0 {
        lemma_with_texts(m, current, section, texts.drop_last(), now);
        if let Some(text) = texts.last().text() {
            lemma_rewritten(
                with_texts(m, current, section, texts.drop_last(), now),
                current,
                section,
                text,
                now,
            );
        }
    }
}

proof fn lemma_rebuilt(
    current: Seq<MemorySectionView>,
    sections: Seq<(Seq<char>, JsonView)>,
    now: u64,
)
    ensures
        sections_in_order(rebuilt(current, sections, now)),
        history_kept(rebuilt(current, sections, now), current, now),
    decreases sections.len(),
{
    if sections.len() > 0 {
        lemma_rebuilt(current, sections.drop_last(), now);
        if let Some(texts) = sections.last().1.items() {
            lemma_with_texts(
                rebuilt(current, sections.drop_last(), now),
                current,
                sections.last().0,
                texts,
                now,
            );
        }
    }
}

proof fn lemma_eviction_keeps_history(
    m: Seq<MemorySectionView>,
    cap: usize,
    most: nat,
    current: Seq<MemorySectionView>,
    now: u64,
)
    requires
        sections_in_order(m),
        history_kept(m, current, now),
    ensures
        history_kept(evicted(m, cap, most).0, current, now),
    decreases most,
{
    if held(memory_words(m)) > cap && most > 0 && (exists|p: (int, int)| goes_next(m, p)) {
        let p = choose|p: (int, int)| goes_next(m, p);
        let name = m[p.0].name;
        let text = m[p.0].entries[p.1].text;
        lemma_forgotten_in_order(m, name, text);
        law_forget_removes_exactly_the_text(m, name, text);
        let next = evicted_one(m);
        assert forall|s: Seq<char>, e: EntryView| #[trigger]
            facts_of(next, s).contains(e) implies e == origin(current, s, e.text, now) by {
            assert(facts_of(m, s).contains(e));
        }
        lemma_eviction_keeps_history(next, cap, (most - 1) as nat, current, now);
    }
}

/// A fact that survives a reflection word for word keeps its whole history:
/// source, session and time. Every other fact is inferred, and dated now.
pub proof fn law_survivors_keep_their_history(
    engine: ReflectionEngine,
    current: Seq<MemorySectionView>,
    now: u64,
    reply: Result<ResponseView, HarnessErrorView>,
)
    requires
        reflection(engine, current, now, reply) is Ok,
    ensures
        history_kept(reflection(engine, current, now, reply)->Ok_0.memory, current, now),
{
    let sections = written_sections(reply->Ok_0.content)->0;
    let m = rebuilt(current, sections, now);
    lemma_rebuilt(current, sections, now);
    lemma_eviction_keeps_history(m, engine.word_cap, fact_count(m), current, now);
}

/// The memory after a reflection is within the word cap.
pub proof fn law_reflection_respects_the_cap(
    engine: ReflectionEngine,
    current: Seq<MemorySectionView>,
    now: u64,
    reply: Result<ResponseView, HarnessErrorView>,
)
    requires
        reflection(engine, current, now, reply) is Ok,
    ensures
        held(memory_words(reflection(engine, current, now, reply)->Ok_0.memory))
            <= engine.word_cap,
{
    let sections = written_sections(reply->Ok_0.content)->0;
    let m = rebuilt(current, sections, now);
    lemma_rebuilt(current, sections, now);
    law_clamp_reaches_the_cap(m, engine.word_cap);
}

/// All keys of the sections, as a finite set.
spec fn keys_in(m: Seq<MemorySectionView>) -> Set<(Seq<char>, Seq<char>)>
    decreases m.len(),
{
    if m.len() == 0 {
        Set::empty()
    } else {
        keys_in(m.drop_last()).union(
            Seq::new(
                m.last().entries.len(),
                |j: int| (m.last().name, m.last().entries[j].text),
            ).to_set(),
        )
    }
}

proof fn lemma_keys_in(m: Seq<MemorySectionView>)
    ensures
        keys_in(m).finite(),
        forall|a: int, b: int|
            0 <= a < m.len() && 0 <= b < m[a].entries.len() ==> keys_in(m).contains(
                (m[a].name, (#[trigger] m[a].entries[b]).text),
            ),
    decreases m.len(),
{
    if m.len() > 0 {
        let rest = m.drop_last();
        lemma_keys_in(rest);
        let last = Seq::new(
            m.last().entries.len(),
            |j: int| (m.last().name, m.last().entries[j].text),
        );
        vstd::seq_lib::seq_to_set_is_finite(last);
        assert forall|a: int, b: int|
            0 <= a < m.len() && 0 <= b < m[a].entries.len() implies keys_in(m).contains(
            (m[a].name, (#[trigger] m[a].entries[b]).text),
        ) by {
            if a < rest.len() {
                assert(rest[a].entries[b] == m[a].entries[b]);
            } else {
                assert(last[b] == (m[a].name, m[a].entries[b].text));
                assert(last.to_set().contains(last[b]));
            }
        }
    }
}

pub proof fn lemma_fact_keys_finite(m: Seq<MemorySectionView>)
    ensures
        fact_keys(m).finite(),
{
    lemma_keys_in(m);
    assert forall|k: (Seq<char>, Seq<char>)| #[trigger] fact_keys(m).contains(k) implies keys_in(
        m,
    ).contains(k) by {
        let b = choose|b: int|
            0 <= b < facts_of(m, k.0).len() && (#[trigger] facts_of(m, k.0)[b]).text == k.1;
        assert(has_section(m, k.0));
        let a = names_before(m, k.0) as int;
        assert(m[a].name == k.0);
        assert(m[a].entries[b].text == k.1);
    }
    vstd::set_lib::lemma_set_subset_finite(keys_in(m), fact_keys(m));
}

/// Nothing came and nothing went, and only then, is the churn zero.
pub proof fn law_zero_churn_is_no_change(
    old_m: Seq<MemorySectionView>,
    new_m: Seq<MemorySectionView>,
)
    ensures
        churn_of(old_m, new_m).num == 0 <==> fact_keys(old_m) == fact_keys(new_m),
        churn_of(old_m, new_m).den > 0,
{
    let a = fact_keys(old_m);
    let b = fact_keys(new_m);
    lemma_fact_keys_finite(old_m);
    lemma_fact_keys_finite(new_m);
    let n = b.difference(a).len() + a.difference(b).len();
    if a == b {
        assert(a.difference(b) =~= Set::empty());
        assert(b.difference(a) =~= Set::empty());
    } else if a.len() + b.len() == 0 {
        assert(a =~= Set::empty());
        assert(b =~= Set::empty());
    } else if n == 0 {
        assert(b.difference(a) =~= Set::empty());
        assert(a.difference(b) =~= Set::empty());
        assert forall|k: (Seq<char>, Seq<char>)| a.contains(k) <==> b.contains(k) by {
            assert(!a.difference(b).contains(k));
            assert(!b.difference(a).contains(k));
        }
        assert(a =~= b);
    }
    assert(capped(n) == 0 <==> n == 0);
}

/// Churn is a fraction: never more than the whole.
pub proof fn law_churn_is_at_most_one(
    old_m: Seq<MemorySectionView>,
    new_m: Seq<MemorySectionView>,
)
    ensures
        churn_of(old_m, new_m).num <= churn_of(old_m, new_m).den,
{
    let a = fact_keys(old_m);
    let b = fact_keys(new_m);
    lemma_fact_keys_finite(old_m);
    lemma_fact_keys_finite(new_m);
    vstd::set_lib::lemma_len_subset(b.difference(a), b);
    vstd::set_lib::lemma_len_subset(a.difference(b), a);
}

} // verus!
