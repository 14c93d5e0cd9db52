//! What every operation on the memory does, said of the operations themselves.

use vstd::prelude::*;
use crate::harness::memory::EntryView;
use crate::harness::memory::FactSource;
use crate::harness::memory::laws::knows;
use crate::harness::memory::laws::law_clamp_reaches_the_cap;
use crate::harness::memory::laws::law_pruning_keeps_fresh_and_corrected;
use crate::harness::memory::Memory;
use crate::harness::memory::MemoryEntry;
use crate::harness::memory::MemorySectionView;
use crate::harness::memory::model::evicted;
use crate::harness::memory::model::evicted_one;
use crate::harness::memory::model::fact_count;
use crate::harness::memory::model::facts_of;
use crate::harness::memory::model::facts_without;
use crate::harness::memory::model::forgotten;
use crate::harness::memory::model::fresh_facts;
use crate::harness::memory::model::goes_before;
use crate::harness::memory::model::goes_next;
use crate::harness::memory::model::has_section;
use crate::harness::memory::model::is_fact;
use crate::harness::memory::model::learned_fact;
use crate::harness::memory::model::lemma_fact_index;
use crate::harness::memory::model::lemma_facts_without;
use crate::harness::memory::model::lemma_forgotten_in_order;
use crate::harness::memory::model::lemma_section_at;
use crate::harness::memory::model::lemma_with_facts;
use crate::harness::memory::model::lemma_without_section;
use crate::harness::memory::model::memory_words;
use crate::harness::memory::model::names_before;
use crate::harness::memory::model::pruned;
use crate::harness::memory::model::sections_in_order;
use crate::views::option_view;
use crate::views::seq_views;

verus! {

/// An inference weighs least, a correction most, and the rank says so.
pub proof fn law_rank(a: FactSource, b: FactSource, ra: u8, rb: u8)
    requires
        call_ensures(FactSource::rank, (a,), ra),
        call_ensures(FactSource::rank, (b,), rb),
    ensures
        ra < rb <==> (a == FactSource::Inferred && b != FactSource::Inferred) || (a
            == FactSource::Stated && b == FactSource::Corrected),
{
}

/// The one source weighs more than the other.
pub open spec fn outweighs(a: FactSource, b: FactSource) -> bool {
    ||| a == FactSource::Corrected && b != FactSource::Corrected
    ||| a == FactSource::Stated && b == FactSource::Inferred
}

/// The facts of a section are those that stand in it.
pub proof fn law_facts_stand_in_their_section(m: Seq<MemorySectionView>, i: int, name: Seq<char>)
    requires
        sections_in_order(m),
    ensures
        0 <= i < m.len() ==> has_section(m, m[i].name) && facts_of(m, m[i].name) == m[i].entries,
        has_section(m, name) <==> exists|k: int| 0 <= k < m.len() && (#[trigger] m[k]).name == name,
        !has_section(m, name) ==> facts_of(m, name).len() == 0,
{
    if 0 <= i < m.len() {
        lemma_section_at(m, i);
    }
    if has_section(m, name) {
        assert(m[names_before(m, name) as int].name == name);
    }
    if exists|k: int| 0 <= k < m.len() && (#[trigger] m[k]).name == name {
        let k = choose|k: int| 0 <= k < m.len() && (#[trigger] m[k]).name == name;
        lemma_section_at(m, k);
    }
}

/// A new fact comes last in its section, as it was told. One that is known is
/// refreshed where it stands: its time always, its origin only when the new one
/// weighs more. No other fact changes.
pub proof fn law_remember_from(
    memory: &mut Memory,
    section: &str,
    text: &str,
    now: u64,
    source: FactSource,
    session: Option<String>,
    i: int,
    other: Seq<char>,
)
    requires
        old(memory).wf(),
        call_ensures(
            Memory::remember_from,
            (memory, section, text, now, source, session),
            (),
        ),
    ensures
        ({
            let before = facts_of(old(memory)@, section@);
            let after = facts_of(final(memory)@, section@);
            let first = 0 <= i < before.len() && before[i].text == text@ && forall|k: int|
                0 <= k < i ==> (#[trigger] before[k]).text != text@;
            &&& (forall|k: int| 0 <= k < before.len() ==> (#[trigger] before[k]).text != text@)
                ==> after == before.push(
                EntryView {
                    text: text@,
                    last_touched: now,
                    source,
                    session: option_view(session),
                },
            )
            &&& first && outweighs(source, before[i].source) ==> after == before.update(
                i,
                EntryView {
                    text: text@,
                    last_touched: now,
                    source,
                    session: option_view(session),
                },
            )
            &&& first && !outweighs(source, before[i].source) ==> after == before.update(
                i,
                EntryView { last_touched: now, ..before[i] },
            )
            &&& other != section@ ==> facts_of(final(memory)@, other) == facts_of(
                old(memory)@,
                other,
            )
            &&& has_section(final(memory)@, section@)
            &&& other != section@ ==> has_section(final(memory)@, other) == has_section(
                old(memory)@,
                other,
            )
        }),
{
    let before = facts_of(old(memory)@, section@);
    let target = learned_fact(before, text@, now, source, option_view(session));
    lemma_with_facts(old(memory)@, section@, target);
    lemma_fact_index(before, text@);
}

/// What is remembered without more is the agent's own deduction, of no session.
pub proof fn law_remember(memory: &mut Memory, section: &str, text: &str, now: u64, other: Seq<char>)
    requires
        old(memory).wf(),
        call_ensures(Memory::remember, (memory, section, text, now), ()),
    ensures
        ({
            let before = facts_of(old(memory)@, section@);
            let after = facts_of(final(memory)@, section@);
            &&& (forall|k: int| 0 <= k < before.len() ==> (#[trigger] before[k]).text != text@)
                ==> after == before.push(
                EntryView {
                    text: text@,
                    last_touched: now,
                    source: FactSource::Inferred,
                    session: None,
                },
            )
            &&& other != section@ ==> facts_of(final(memory)@, other) == facts_of(
                old(memory)@,
                other,
            )
        }),
{
    let before = facts_of(old(memory)@, section@);
    lemma_with_facts(
        old(memory)@,
        section@,
        learned_fact(before, text@, now, FactSource::Inferred, None),
    );
    lemma_fact_index(before, text@);
}

proof fn lemma_without_is_a_filter(entries: Seq<EntryView>, text: Seq<char>)
    ensures
        facts_without(entries, text) == entries.filter(|e: EntryView| e.text != text),
    decreases entries.len(),
{
    reveal(Seq::filter);
    if entries.len() > 0 {
        lemma_without_is_a_filter(entries.drop_last(), text);
    }
}

/// Forgetting takes the facts with this text out of the section, and says whether
/// there was one. A section that is left without facts goes. Nothing else changes.
pub proof fn law_forget(
    memory: &mut Memory,
    section: &str,
    text: &str,
    r: bool,
    other: Seq<char>,
)
    requires
        old(memory).wf(),
        call_ensures(Memory::forget, (memory, section, text), r),
    ensures
        ({
            let before = facts_of(old(memory)@, section@);
            let after = facts_of(final(memory)@, section@);
            &&& r <==> exists|k: int| 0 <= k < before.len() && (#[trigger] before[k]).text == text@
            &&& after == before.filter(|e: EntryView| e.text != text@)
            &&& has_section(final(memory)@, section@) <==> after.len() > 0
            &&& other != section@ ==> facts_of(final(memory)@, other) == facts_of(
                old(memory)@,
                other,
            )
            &&& other != section@ ==> has_section(final(memory)@, other) == has_section(
                old(memory)@,
                other,
            )
        }),
{
    let m = old(memory)@;
    let left = facts_without(facts_of(m, section@), text@);
    lemma_without_is_a_filter(facts_of(m, section@), text@);
    lemma_without_section(m, section@);
    lemma_with_facts(m, section@, left);
    assert(has_section(m, section@) || facts_of(m, section@) =~= Seq::empty());
    if !has_section(m, section@) {
        assert(left =~= Seq::empty());
    }
    if left.len() == 0 {
        assert(left =~= Seq::empty());
    }
}

/// A fact goes for its age when it was not touched for longer than allowed, unless
/// the user corrected it.
pub proof fn law_prune_stale(
    memory: &mut Memory,
    now: u64,
    max_age_secs: u64,
    r: usize,
    name: Seq<char>,
    e: EntryView,
)
    requires
        old(memory).wf(),
        call_ensures(Memory::prune_stale, (memory, now, max_age_secs), r),
    ensures
        knows(final(memory)@, name, e) <==> knows(old(memory)@, name, e) && (e.source
            == FactSource::Corrected || e.last_touched + max_age_secs >= now),
        fact_count(old(memory)@) <= usize::MAX ==> r == fact_count(old(memory)@) - fact_count(
            final(memory)@,
        ),
{
    let cutoff: u64 = if now >= max_age_secs {
        (now - max_age_secs) as u64
    } else {
        0
    };
    law_pruning_keeps_fresh_and_corrected(old(memory)@, cutoff, name, e);
    lemma_pruning_shrinks(old(memory)@, cutoff);
}

proof fn lemma_fresh_at_most(entries: Seq<EntryView>, cutoff: u64)
    ensures
        fresh_facts(entries, cutoff).len() <= entries.len(),
    decreases entries.len(),
{
    if entries.len() > 0 {
        lemma_fresh_at_most(entries.drop_last(), cutoff);
    }
}

proof fn lemma_pruning_shrinks(m: Seq<MemorySectionView>, cutoff: u64)
    ensures
        fact_count(pruned(m, cutoff)) <= fact_count(m),
    decreases m.len(),
{
    if m.len() > 0 {
        lemma_pruning_shrinks(m.drop_last(), cutoff);
        lemma_fresh_at_most(m.last().entries, cutoff);
        let left = fresh_facts(m.last().entries, cutoff);
        if left.len() > 0 {
            assert(pruned(m, cutoff).drop_last() =~= pruned(m.drop_last(), cutoff));
        }
    }
}

/// No section says the same thing twice.
pub open spec fn said_once(m: Seq<MemorySectionView>) -> bool {
    forall|i: int, a: int, b: int|
        0 <= i < m.len() && 0 <= a < b < m[i].entries.len() ==> (#[trigger] m[i].entries[a]).text
            != (#[trigger] m[i].entries[b]).text
}

/// The fact should rather stay than the other: it weighs more, or as much and was
/// touched later.
pub open spec fn rather_stays(a: EntryView, b: EntryView) -> bool {
    outweighs(a.source, b.source) || (a.source == b.source && a.last_touched > b.last_touched)
}

proof fn lemma_knows_facts(m: Seq<MemorySectionView>, name: Seq<char>, e: EntryView)
    requires
        sections_in_order(m),
    ensures
        knows(m, name, e) <==> facts_of(m, name).contains(e),
{
    if knows(m, name, e) {
        let i = choose|i: int|
            0 <= i < m.len() && (#[trigger] m[i]).name == name && m[i].entries.contains(e);
        lemma_section_at(m, i);
    }
    if facts_of(m, name).contains(e) {
        let i = names_before(m, name) as int;
        assert(m[i].name == name && m[i].entries.contains(e));
    }
}

proof fn lemma_filter_once(entries: Seq<EntryView>, text: Seq<char>)
    requires
        forall|a: int, b: int|
            0 <= a < b < entries.len() ==> (#[trigger] entries[a]).text != (
            #[trigger] entries[b]).text,
    ensures
        forall|a: int, b: int|
            0 <= a < b < facts_without(entries, text).len() ==> (#[trigger] facts_without(
                entries,
                text,
            )[a]).text != (#[trigger] facts_without(entries, text)[b]).text,
    decreases entries.len(),
{
    if entries.len() > 0 {
        let front = entries.drop_last();
        let out = facts_without(entries, text);
        let prev = facts_without(front, text);
        lemma_filter_once(front, text);
        lemma_facts_without(front, text);
        assert forall|a: int, b: int| 0 <= a < b < out.len() implies (#[trigger] out[a]).text != (
        #[trigger] out[b]).text by {
            if b < prev.len() {
                assert(out[a] == prev[a] && out[b] == prev[b]);
            } else {
                assert(out[a] == prev[a]);
                assert(prev.contains(prev[a]));
                assert(front.contains(prev[a]));
                let k = choose|k: int| 0 <= k < front.len() && front[k] == prev[a];
                assert(entries[k] == prev[a]);
                assert(entries[entries.len() - 1] == out[b]);
            }
        }
    }
}

/// Taking one fact out leaves every other, and every section says a thing once.
proof fn lemma_one_goes(m: Seq<MemorySectionView>, i: int, j: int)
    requires
        sections_in_order(m),
        said_once(m),
        is_fact(m, i, j),
    ensures
        ({
            let after = forgotten(m, m[i].name, m[i].entries[j].text);
            &&& sections_in_order(after)
            &&& said_once(after)
            &&& forall|name: Seq<char>, e: EntryView| #[trigger]
                knows(after, name, e) <==> knows(m, name, e) && !(name == m[i].name && e
                    == m[i].entries[j])
        }),
{
    let section = m[i].name;
    let gone = m[i].entries[j];
    let after = forgotten(m, section, gone.text);
    let left = facts_without(facts_of(m, section), gone.text);
    lemma_section_at(m, i);
    lemma_forgotten_in_order(m, section, gone.text);
    lemma_facts_without(m[i].entries, gone.text);
    lemma_without_section(m, section);
    lemma_with_facts(m, section, left);
    assert forall|a: int, b: int| 0 <= a < b < m[i].entries.len() implies (
    #[trigger] m[i].entries[a]).text != (#[trigger] m[i].entries[b]).text by {}
    lemma_filter_once(m[i].entries, gone.text);
    assert forall|k: int, a: int, b: int|
        0 <= k < after.len() && 0 <= a < b < after[k].entries.len() implies (
    #[trigger] after[k].entries[a]).text != (#[trigger] after[k].entries[b]).text by {
        lemma_section_at(after, k);
        if after[k].name == section {
            assert(after[k].entries == left);
        } else {
            let n = names_before(m, after[k].name) as int;
            assert(facts_of(after, after[k].name) == facts_of(m, after[k].name));
            assert(has_section(m, after[k].name));
            assert(m[n].entries == after[k].entries);
            assert(m[n].entries[a].text != m[n].entries[b].text);
        }
    }
    assert forall|name: Seq<char>, e: EntryView| #[trigger] knows(after, name, e) <==> knows(
        m,
        name,
        e,
    ) && !(name == section && e == gone) by {
        lemma_knows_facts(m, name, e);
        lemma_knows_facts(after, name, e);
        if name == section {
            assert(left.contains(e) <==> m[i].entries.contains(e) && e.text != gone.text);
            if m[i].entries.contains(e) && e.text == gone.text {
                let k = choose|k: int| 0 <= k < m[i].entries.len() && m[i].entries[k] == e;
                if k < j {
                    assert(m[i].entries[k].text != m[i].entries[j].text);
                }
                if j < k {
                    assert(m[i].entries[j].text != m[i].entries[k].text);
                }
            }
            if left.len() == 0 {
                assert(!left.contains(e));
            }
        }
    }
}

proof fn lemma_the_right_ones_go(
    m: Seq<MemorySectionView>,
    cap: usize,
    most: nat,
    x_name: Seq<char>,
    x: EntryView,
    y_name: Seq<char>,
    y: EntryView,
)
    requires
        sections_in_order(m),
        said_once(m),
    ensures
        knows(evicted(m, cap, most).0, x_name, x) ==> knows(m, x_name, x),
        knows(m, x_name, x) && !knows(evicted(m, cap, most).0, x_name, x) && knows(
            evicted(m, cap, most).0,
            y_name,
            y,
        ) ==> !rather_stays(x, y),
    decreases most,
{
    if most > 0 && (exists|p: (int, int)| goes_next(m, p)) && evicted(m, cap, most).0 != m {
        let p = choose|p: (int, int)| goes_next(m, p);
        lemma_one_goes(m, p.0, p.1);
        let after = evicted_one(m);
        lemma_the_right_ones_go(after, cap, (most - 1) as nat, x_name, x, y_name, y);
        lemma_the_right_ones_go(after, cap, (most - 1) as nat, y_name, y, y_name, y);
        if knows(m, x_name, x) && !knows(after, x_name, x) && knows(
            evicted(m, cap, most).0,
            y_name,
            y,
        ) {
            assert(x == m[p.0].entries[p.1]);
            assert(knows(after, y_name, y));
            assert(knows(m, y_name, y));
            let a = choose|a: int|
                0 <= a < m.len() && (#[trigger] m[a]).name == y_name && m[a].entries.contains(y);
            let b = choose|b: int| 0 <= b < m[a].entries.len() && m[a].entries[b] == y;
            assert(is_fact(m, a, b));
            if (a, b) == p {
                assert(false);
            }
            assert(goes_before(m, p.0, p.1, a, b));
        }
    }
}

/// A memory over its cap loses facts until it is within it, and none otherwise.
/// What goes is what weighs least and was touched longest ago: no fact goes while
/// one stays that should rather have gone. Nothing new comes.
pub proof fn law_clamp_to_cap(
    memory: &mut Memory,
    cap: usize,
    r: usize,
    x_name: Seq<char>,
    x: EntryView,
    y_name: Seq<char>,
    y: EntryView,
)
    requires
        old(memory).wf(),
        said_once(old(memory)@),
        call_ensures(Memory::clamp_to_cap, (memory, cap), r),
    ensures
        memory_words(old(memory)@) <= cap ==> final(memory)@ == old(memory)@ && r == 0,
        memory_words(final(memory)@) <= cap || cap == usize::MAX,
        knows(final(memory)@, x_name, x) ==> knows(old(memory)@, x_name, x),
        knows(old(memory)@, x_name, x) && !knows(final(memory)@, x_name, x) && knows(
            final(memory)@,
            y_name,
            y,
        ) ==> !rather_stays(x, y),
{
    let m = old(memory)@;
    lemma_the_right_ones_go(m, cap, fact_count(m), x_name, x, y_name, y);
    law_clamp_reaches_the_cap(m, cap);
}

/// The words of a memory are counted, and a section's texts are listed in order.
pub proof fn law_reading_a_memory(
    memory: &Memory,
    name: &str,
    words: usize,
    texts: Vec<&str>,
    section: Option<&Vec<MemoryEntry>>,
)
    requires
        call_ensures(Memory::word_count, (memory,), words),
        call_ensures(Memory::section_texts, (memory, name), texts),
        call_ensures(Memory::section, (memory, name), section),
    ensures
        memory_words(memory@) <= usize::MAX ==> words == memory_words(memory@),
        texts@.len() == facts_of(memory@, name@).len(),
        forall|i: int|
            0 <= i < texts@.len() ==> (#[trigger] texts@[i])@ == facts_of(memory@, name@)[i].text,
        section is Some <==> has_section(memory@, name@),
        section matches Some(entries) ==> seq_views(entries@) == facts_of(memory@, name@),
{
}

} // verus!
