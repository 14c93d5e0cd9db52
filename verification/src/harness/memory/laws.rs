//! What holds of the memory as a whole.

use vstd::prelude::*;
use crate::harness::memory::EntryView;
use crate::harness::memory::FactSource;
use crate::harness::memory::MemorySectionView;
use crate::harness::memory::model::clamped;
use crate::harness::memory::model::evicted;
use crate::harness::memory::model::evicted_one;
use crate::harness::memory::model::fact_count;
use crate::harness::memory::model::fact_index;
use crate::harness::memory::model::fact_words;
use crate::harness::memory::model::facts_of;
use crate::harness::memory::model::facts_without;
use crate::harness::memory::model::forgotten;
use crate::harness::memory::model::fresh_facts;
use crate::harness::memory::model::goes_before;
use crate::harness::memory::model::goes_next;
use crate::harness::memory::model::has_section;
use crate::harness::memory::model::held;
use crate::harness::memory::model::is_fact;
use crate::harness::memory::model::is_fresh;
use crate::harness::memory::model::learned_fact;
use crate::harness::memory::model::lemma_eviction_shrinks;
use crate::harness::memory::model::lemma_fact_index;
use crate::harness::memory::model::lemma_facts_without;
use crate::harness::memory::model::lemma_forgotten_in_order;
use crate::harness::memory::model::lemma_names_before;
use crate::harness::memory::model::lemma_section_at;
use crate::harness::memory::model::lemma_with_facts;
use crate::harness::memory::model::lemma_without_section;
use crate::harness::memory::model::memory_words;
use crate::harness::memory::model::names_before;
use crate::harness::memory::model::pruned;
use crate::harness::memory::model::remembered;
use crate::harness::memory::model::sections_in_order;
use crate::harness::memory::model::with_facts;
use crate::text::word_total;

verus! {

/// A fact that was just learned is there, touched now, under a source at least
/// as weighty as the one given; no other section changes.
pub proof fn law_learned_fact_is_kept(
    m: Seq<MemorySectionView>,
    section: Seq<char>,
    text: Seq<char>,
    now: u64,
    source: FactSource,
    session: Option<Seq<char>>,
)
    requires
        sections_in_order(m),
    ensures
        ({
            let after = remembered(m, section, text, now, source, session);
            let facts = facts_of(after, section);
            let i = fact_index(facts, text) as int;
            &&& i < facts.len() && facts[i].text == text && facts[i].last_touched == now
                && facts[i].source.weight() >= source.weight()
            &&& forall|other: Seq<char>|
                other != section ==> #[trigger] facts_of(after, other) == facts_of(m, other)
        }),
{
    let before = facts_of(m, section);
    let target = learned_fact(before, text, now, source, session);
    lemma_with_facts(m, section, target);
    lemma_fact_index(before, text);
    lemma_fact_index(target, text);
    let k = fact_index(before, text) as int;
    let i = fact_index(target, text) as int;
    if k < before.len() {
        assert(target[k].text == text);
        if i < k {
            assert(target[i] == before[i]);
        }
        assert(i == k);
    } else {
        assert(target[before.len() as int].text == text);
        if i < before.len() {
            assert(target[i] == before[i]);
        }
        assert(i == before.len());
    }
}

/// A source is upgraded, never downgraded, and a known fact is not duplicated.
pub proof fn law_source_never_downgrades(
    m: Seq<MemorySectionView>,
    section: Seq<char>,
    text: Seq<char>,
    now: u64,
    source: FactSource,
    session: Option<Seq<char>>,
    j: int,
)
    requires
        sections_in_order(m),
        0 <= j < facts_of(m, section).len(),
    ensures
        ({
            let before = facts_of(m, section);
            let after = facts_of(remembered(m, section, text, now, source, session), section);
            &&& after[j].text == before[j].text
            &&& after[j].source.weight() >= before[j].source.weight()
            &&& fact_index(before, text) < before.len() ==> after.len() == before.len()
        }),
{
    lemma_with_facts(
        m,
        section,
        learned_fact(facts_of(m, section), text, now, source, session),
    );
    lemma_fact_index(facts_of(m, section), text);
}

/// Refreshing a fact keeps the words of its section.
proof fn lemma_refreshed_words(entries: Seq<EntryView>, i: int, e: EntryView)
    requires
        0 <= i < entries.len(),
        e.text == entries[i].text,
    ensures
        fact_words(entries.update(i, e)) == fact_words(entries),
    decreases entries.len(),
{
    let after = entries.update(i, e);
    if i == entries.len() - 1 {
        assert(after.drop_last() =~= entries.drop_last());
    } else {
        lemma_refreshed_words(entries.drop_last(), i, e);
        assert(after.drop_last() =~= entries.drop_last().update(i, e));
    }
}

/// Replacing a section changes the words by what the section's words change.
proof fn lemma_replaced_words(m: Seq<MemorySectionView>, i: int, s: MemorySectionView)
    requires
        0 <= i < m.len(),
    ensures
        memory_words(m.update(i, s)) + fact_words(m[i].entries) == memory_words(m) + fact_words(
            s.entries,
        ),
    decreases m.len(),
{
    let after = m.update(i, s);
    if i == m.len() - 1 {
        assert(after.drop_last() =~= m.drop_last());
    } else {
        lemma_replaced_words(m.drop_last(), i, s);
        assert(after.drop_last() =~= m.drop_last().update(i, s));
    }
}

/// A new section adds its words.
proof fn lemma_inserted_words(m: Seq<MemorySectionView>, i: int, s: MemorySectionView)
    requires
        0 <= i <= m.len(),
    ensures
        memory_words(m.insert(i, s)) == memory_words(m) + fact_words(s.entries),
    decreases m.len(),
{
    let after = m.insert(i, s);
    if i == m.len() {
        assert(after.drop_last() =~= m);
    } else {
        lemma_inserted_words(m.drop_last(), i, s);
        assert(after.drop_last() =~= m.drop_last().insert(i, s));
        assert(after.last() == m.last());
    }
}

/// A memory without facts holds no words.
pub proof fn law_empty_memory_has_no_words()
    ensures
        memory_words(Seq::empty()) == 0,
{
}

/// Learning a new fact adds its words and no others; refreshing a known one adds
/// none.
pub proof fn law_new_facts_add_their_words(
    m: Seq<MemorySectionView>,
    section: Seq<char>,
    text: Seq<char>,
    now: u64,
    source: FactSource,
    session: Option<Seq<char>>,
)
    requires
        sections_in_order(m),
    ensures
        memory_words(remembered(m, section, text, now, source, session)) == if fact_index(
            facts_of(m, section),
            text,
        ) < facts_of(m, section).len() {
            memory_words(m)
        } else {
            memory_words(m) + word_total(text)
        },
{
    let before = facts_of(m, section);
    let target = learned_fact(before, text, now, source, session);
    let s = MemorySectionView { name: section, entries: target };
    let at = names_before(m, section) as int;
    let i = fact_index(before, text) as int;
    lemma_fact_index(before, text);
    lemma_names_before(m, section);
    if i < before.len() {
        lemma_refreshed_words(before, i, target[i]);
        assert(target =~= before.update(i, target[i]));
    } else {
        assert(target.drop_last() =~= before);
    }
    if has_section(m, section) {
        lemma_replaced_words(m, at, s);
    } else {
        lemma_inserted_words(m, at, s);
        assert(fact_words(before) == 0);
    }
}

/// To mention a fact again, whenever and by whomever, adds no word.
pub proof fn law_mentioning_again_adds_no_word(
    m: Seq<MemorySectionView>,
    section: Seq<char>,
    text: Seq<char>,
    now: u64,
    source: FactSource,
    session: Option<Seq<char>>,
    later: u64,
    again: FactSource,
    other_session: Option<Seq<char>>,
)
    requires
        sections_in_order(m),
    ensures
        ({
            let once = remembered(m, section, text, now, source, session);
            memory_words(remembered(once, section, text, later, again, other_session))
                == memory_words(once)
        }),
{
    let once = remembered(m, section, text, now, source, session);
    law_learned_fact_is_kept(m, section, text, now, source, session);
    lemma_with_facts(
        m,
        section,
        learned_fact(facts_of(m, section), text, now, source, session),
    );
    law_new_facts_add_their_words(once, section, text, later, again, other_session);
}

/// Forgetting what was newly learned gives the memory back, unless the section
/// stood there empty.
pub proof fn law_forget_undoes_remember(
    m: Seq<MemorySectionView>,
    section: Seq<char>,
    text: Seq<char>,
    now: u64,
    source: FactSource,
    session: Option<Seq<char>>,
)
    requires
        sections_in_order(m),
        fact_index(facts_of(m, section), text) == facts_of(m, section).len(),
        has_section(m, section) ==> facts_of(m, section).len() > 0,
    ensures
        forgotten(remembered(m, section, text, now, source, session), section, text) == m,
{
    let before = facts_of(m, section);
    let e = EntryView { text, last_touched: now, source, session };
    let target = learned_fact(before, text, now, source, session);
    lemma_fact_index(before, text);
    lemma_facts_without(before, text);
    assert(target =~= before.push(e));
    assert(target.drop_last() =~= before);
    assert(facts_without(target, text) == facts_without(before, text));
    assert(forall|i: int| 0 <= i < before.len() ==> (#[trigger] before[i]).text != text);
    assert(facts_without(before, text).len() == before.len());
    lemma_with_facts(m, section, target);
    lemma_names_before(m, section);
    let after = with_facts(m, section, target);
    let at = names_before(m, section) as int;
    assert(after[at].name == section);
    lemma_section_at(after, at);
    if has_section(m, section) {
        assert(after.update(at, MemorySectionView { name: section, entries: before }) =~= m);
    } else {
        assert(after.remove(at) =~= m);
    }
}

/// What is forgotten is gone, and nothing else is.
pub proof fn law_forget_removes_exactly_the_text(
    m: Seq<MemorySectionView>,
    section: Seq<char>,
    text: Seq<char>,
)
    requires
        sections_in_order(m),
    ensures
        forall|e: EntryView|
            #[trigger] facts_of(forgotten(m, section, text), section).contains(e) <==> facts_of(
                m,
                section,
            ).contains(e) && e.text != text,
        forall|other: Seq<char>|
            other != section ==> #[trigger] facts_of(forgotten(m, section, text), other)
                == facts_of(m, other),
{
    lemma_facts_without(facts_of(m, section), text);
    lemma_without_section(m, section);
    lemma_with_facts(m, section, facts_without(facts_of(m, section), text));
    let left = facts_without(facts_of(m, section), text);
    assert forall|e: EntryView|
        #[trigger] facts_of(forgotten(m, section, text), section).contains(e) <==> facts_of(
            m,
            section,
        ).contains(e) && e.text != text by {
        assert(left.contains(e) <==> facts_of(m, section).contains(e) && e.text != text);
        if left.len() == 0 {
            assert(!left.contains(e));
        }
    }
}

proof fn lemma_fresh_facts(entries: Seq<EntryView>, cutoff: u64)
    ensures
        forall|e: EntryView|
            #[trigger] fresh_facts(entries, cutoff).contains(e) <==> entries.contains(e)
                && is_fresh(e, cutoff),
    decreases entries.len(),
{
    let out = fresh_facts(entries, cutoff);
    if entries.len() > 0 {
        let rest = entries.drop_last();
        lemma_fresh_facts(rest, cutoff);
        let prev = fresh_facts(rest, cutoff);
        assert(entries =~= rest.push(entries.last()));
        assert forall|e: EntryView| #[trigger] out.contains(e) <==> entries.contains(e)
            && is_fresh(e, cutoff) by {
            broadcast use vstd::seq_lib::group_seq_properties;

            assert(rest.push(entries.last()).contains(e) <==> rest.contains(e) || e
                == entries.last());
            assert(prev.push(entries.last()).contains(e) <==> prev.contains(e) || e
                == entries.last());
        }
    }
}

/// Some section of this name holds the fact.
pub open spec fn knows(m: Seq<MemorySectionView>, name: Seq<char>, e: EntryView) -> bool {
    exists|i: int| 0 <= i < m.len() && (#[trigger] m[i]).name == name && m[i].entries.contains(e)
}

/// Pruning by age keeps exactly the facts that are fresh or corrected: the
/// user's corrections are never dropped for their age.
pub proof fn law_pruning_keeps_fresh_and_corrected(
    m: Seq<MemorySectionView>,
    cutoff: u64,
    name: Seq<char>,
    e: EntryView,
)
    ensures
        knows(pruned(m, cutoff), name, e) <==> knows(m, name, e) && (e.source
            == FactSource::Corrected || e.last_touched >= cutoff),
    decreases m.len(),
{
    let out = pruned(m, cutoff);
    if m.len() > 0 {
        let rest = m.drop_last();
        let last = m.last();
        law_pruning_keeps_fresh_and_corrected(rest, cutoff, name, e);
        lemma_fresh_facts(last.entries, cutoff);
        let left = fresh_facts(last.entries, cutoff);
        let prev = pruned(rest, cutoff);
        assert(left.contains(e) <==> last.entries.contains(e) && is_fresh(e, cutoff));
        if knows(out, name, e) {
            let i = choose|i: int|
                0 <= i < out.len() && (#[trigger] out[i]).name == name && out[i].entries.contains(
                    e,
                );
            if i < prev.len() {
                assert(prev[i] == out[i]);
                assert(knows(prev, name, e));
                let k = choose|k: int|
                    0 <= k < rest.len() && (#[trigger] rest[k]).name == name
                        && rest[k].entries.contains(e);
                assert(m[k] == rest[k]);
            } else {
                assert(m[m.len() - 1] == last);
            }
        }
        if knows(m, name, e) && is_fresh(e, cutoff) {
            let i = choose|i: int|
                0 <= i < m.len() && (#[trigger] m[i]).name == name && m[i].entries.contains(e);
            if i < rest.len() {
                assert(rest[i] == m[i]);
                assert(knows(rest, name, e));
                let k = choose|k: int|
                    0 <= k < prev.len() && (#[trigger] prev[k]).name == name
                        && prev[k].entries.contains(e);
                assert(out[k] == prev[k]);
            } else {
                assert(left.contains(e));
                assert(out[out.len() - 1].entries == left);
            }
        }
    }
}

/// A correction goes only when nothing but corrections is left.
pub proof fn law_corrections_go_last(m: Seq<MemorySectionView>, p: (int, int), a: int, b: int)
    requires
        goes_next(m, p),
        m[p.0].entries[p.1].source == FactSource::Corrected,
        is_fact(m, a, b),
    ensures
        m[a].entries[b].source == FactSource::Corrected,
{
    if (a, b) != p {
        assert(goes_before(m, p.0, p.1, a, b));
    }
}

/// Of two facts of equal weight, the older goes first.
pub proof fn law_older_goes_first(m: Seq<MemorySectionView>, p: (int, int), a: int, b: int)
    requires
        goes_next(m, p),
        is_fact(m, a, b),
        m[a].entries[b].source == m[p.0].entries[p.1].source,
    ensures
        m[p.0].entries[p.1].last_touched <= m[a].entries[b].last_touched,
{
    if (a, b) != p {
        assert(goes_before(m, p.0, p.1, a, b));
    }
}

/// Among the facts before a position there is one that goes next.
proof fn lemma_best_before(m: Seq<MemorySectionView>, i: int, j: int) -> (r: Option<(int, int)>)
    requires
        0 <= i <= m.len(),
        0 <= j,
        i < m.len() ==> j <= m[i].entries.len(),
        i == m.len() ==> j == 0,
    ensures
        match r {
            Some(p) => is_fact(m, p.0, p.1) && (p.0 < i || (p.0 == i && p.1 < j)) && forall|
                a: int,
                b: int,
            | #[trigger]
                is_fact(m, a, b) && (a < i || (a == i && b < j)) && (a, b) != p ==> goes_before(
                    m,
                    p.0,
                    p.1,
                    a,
                    b,
                ),
            None => forall|a: int, b: int| #[trigger]
                is_fact(m, a, b) ==> a > i || (a == i && b >= j),
        },
    decreases i, j,
{
    if j > 0 {
        let q = lemma_best_before(m, i, j - 1);
        assert(is_fact(m, i, j - 1));
        match q {
            None => Some((i, j - 1)),
            Some(p) => {
                let x = m[p.0].entries[p.1];
                let y = m[i].entries[j - 1];
                if y.source.weight() < x.source.weight() || (y.source.weight() == x.source.weight()
                    && y.last_touched < x.last_touched) {
                    Some((i, j - 1))
                } else {
                    Some(p)
                }
            },
        }
    } else if i > 0 {
        lemma_best_before(m, i - 1, m[i - 1].entries.len() as int)
    } else {
        None
    }
}

/// A memory with facts has one that goes next.
proof fn lemma_some_goes_next(m: Seq<MemorySectionView>, a: int, b: int)
    requires
        is_fact(m, a, b),
    ensures
        exists|p: (int, int)| goes_next(m, p),
{
    let r = lemma_best_before(m, m.len() as int, 0);
    assert(r is Some);
    assert(goes_next(m, r->0));
}

proof fn lemma_no_facts_no_words(m: Seq<MemorySectionView>)
    requires
        forall|i: int, j: int| !(#[trigger] is_fact(m, i, j)),
    ensures
        memory_words(m) == 0,
    decreases m.len(),
{
    if m.len() > 0 {
        let rest = m.drop_last();
        assert forall|i: int, j: int| !(#[trigger] is_fact(rest, i, j)) by {
            if is_fact(rest, i, j) {
                assert(is_fact(m, i, j));
            }
        }
        lemma_no_facts_no_words(rest);
        if m.last().entries.len() > 0 {
            assert(is_fact(m, m.len() - 1, 0));
        }
    }
}

proof fn lemma_counted(m: Seq<MemorySectionView>, i: int, j: int)
    requires
        is_fact(m, i, j),
    ensures
        fact_count(m) > 0,
    decreases m.len(),
{
    if i < m.len() - 1 {
        assert(is_fact(m.drop_last(), i, j));
        lemma_counted(m.drop_last(), i, j);
    }
}

proof fn lemma_eviction_reaches_cap(m: Seq<MemorySectionView>, cap: usize, most: nat)
    requires
        sections_in_order(m),
        fact_count(m) <= most,
    ensures
        held(memory_words(evicted(m, cap, most).0)) <= cap,
        sections_in_order(evicted(m, cap, most).0),
    decreases most,
{
    if held(memory_words(m)) > cap {
        if exists|p: (int, int)| goes_next(m, p) {
            let p = choose|p: (int, int)| goes_next(m, p);
            assert(is_fact(m, p.0, p.1));
            lemma_counted(m, p.0, p.1);
            lemma_eviction_shrinks(m, p.0, p.1);
            lemma_forgotten_in_order(m, m[p.0].name, m[p.0].entries[p.1].text);
            lemma_eviction_reaches_cap(evicted_one(m), cap, (most - 1) as nat);
        } else {
            assert forall|i: int, j: int| !(#[trigger] is_fact(m, i, j)) by {
                if is_fact(m, i, j) {
                    lemma_some_goes_next(m, i, j);
                }
            }
            lemma_no_facts_no_words(m);
        }
    }
}

/// Clamping always reaches the cap.
pub proof fn law_clamp_reaches_the_cap(m: Seq<MemorySectionView>, cap: usize)
    requires
        sections_in_order(m),
    ensures
        held(memory_words(clamped(m, cap).0)) <= cap,
{
    lemma_eviction_reaches_cap(m, cap, fact_count(m));
}

/// A memory within the cap is left alone.
pub proof fn law_within_cap_is_untouched(m: Seq<MemorySectionView>, cap: usize)
    requires
        held(memory_words(m)) <= cap,
    ensures
        clamped(m, cap) == (m, 0nat),
{
}

} // verus!
