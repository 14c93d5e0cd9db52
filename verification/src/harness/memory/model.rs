//! What a memory is, said over its sections in the order of their names.

use vstd::prelude::*;
use crate::harness::memory::EntryView;
use crate::harness::memory::FactSource;
use crate::harness::memory::MemorySectionView;
use crate::text::joined;
use crate::text::lemma_lex_irreflexive;
use crate::text::lemma_lex_total;
use crate::text::lemma_lex_transitive;
use crate::text::lex_lt;
use crate::text::word_total;

verus! {

/// The sections stand in the strict order of their names.
pub open spec fn sections_in_order(m: Seq<MemorySectionView>) -> bool {
    forall|i: int, j: int|
        0 <= i < j < m.len() ==> lex_lt((#[trigger] m[i]).name, (#[trigger] m[j]).name)
}

/// How many sections have a name before this one.
pub open spec fn names_before(m: Seq<MemorySectionView>, name: Seq<char>) -> nat
    decreases m.len(),
{
    if m.len() == 0 {
        0
    } else if lex_lt(m[0].name, name) {
        1 + names_before(m.drop_first(), name)
    } else {
        0
    }
}

/// The memory has a section of this name.
pub open spec fn has_section(m: Seq<MemorySectionView>, name: Seq<char>) -> bool {
    names_before(m, name) < m.len() && m[names_before(m, name) as int].name == name
}

/// The facts of a section; none when the section is absent.
pub open spec fn facts_of(m: Seq<MemorySectionView>, name: Seq<char>) -> Seq<EntryView> {
    if has_section(m, name) {
        m[names_before(m, name) as int].entries
    } else {
        Seq::empty()
    }
}

/// The memory with a section's facts replaced; a new section gets its place in
/// the order of names.
pub open spec fn with_facts(
    m: Seq<MemorySectionView>,
    name: Seq<char>,
    entries: Seq<EntryView>,
) -> Seq<MemorySectionView> {
    let at = names_before(m, name) as int;
    if has_section(m, name) {
        m.update(at, MemorySectionView { name, entries })
    } else {
        m.insert(at, MemorySectionView { name, entries })
    }
}

/// The memory without a section.
pub open spec fn without_section(m: Seq<MemorySectionView>, name: Seq<char>) -> Seq<
    MemorySectionView,
> {
    if has_section(m, name) {
        m.remove(names_before(m, name) as int)
    } else {
        m
    }
}

/// The position of the first fact with exactly this text; past the end when
/// there is none.
pub open spec fn fact_index(entries: Seq<EntryView>, text: Seq<char>) -> nat
    decreases entries.len(),
{
    if entries.len() == 0 || entries[0].text == text {
        0
    } else {
        1 + fact_index(entries.drop_first(), text)
    }
}

/// A fact that is mentioned again: the time is refreshed, and the provenance is
/// taken over only from a source of greater weight.
pub open spec fn touched(
    e: EntryView,
    now: u64,
    source: FactSource,
    session: Option<Seq<char>>,
) -> EntryView {
    if source.weight() > e.source.weight() {
        EntryView { text: e.text, last_touched: now, source, session }
    } else {
        EntryView { last_touched: now, ..e }
    }
}

/// A section's facts after one is learned: refreshed if it was known, added at
/// the end otherwise.
pub open spec fn learned_fact(
    entries: Seq<EntryView>,
    text: Seq<char>,
    now: u64,
    source: FactSource,
    session: Option<Seq<char>>,
) -> Seq<EntryView> {
    let i = fact_index(entries, text) as int;
    if i < entries.len() {
        entries.update(i, touched(entries[i], now, source, session))
    } else {
        entries.push(EntryView { text, last_touched: now, source, session })
    }
}

/// The memory after a fact is learned.
pub open spec fn remembered(
    m: Seq<MemorySectionView>,
    section: Seq<char>,
    text: Seq<char>,
    now: u64,
    source: FactSource,
    session: Option<Seq<char>>,
) -> Seq<MemorySectionView> {
    with_facts(m, section, learned_fact(facts_of(m, section), text, now, source, session))
}

/// The facts with another text.
pub open spec fn facts_without(entries: Seq<EntryView>, text: Seq<char>) -> Seq<EntryView>
    decreases entries.len(),
{
    if entries.len() == 0 {
        Seq::empty()
    } else if entries.last().text == text {
        facts_without(entries.drop_last(), text)
    } else {
        facts_without(entries.drop_last(), text).push(entries.last())
    }
}

/// The memory after a fact is forgotten. A section that is left empty goes.
pub open spec fn forgotten(m: Seq<MemorySectionView>, section: Seq<char>, text: Seq<char>) -> Seq<
    MemorySectionView,
> {
    if !has_section(m, section) {
        m
    } else {
        let left = facts_without(facts_of(m, section), text);
        if left.len() == 0 {
            without_section(m, section)
        } else {
            with_facts(m, section, left)
        }
    }
}

/// The words of a section's facts.
pub open spec fn fact_words(entries: Seq<EntryView>) -> nat
    decreases entries.len(),
{
    if entries.len() == 0 {
        0
    } else {
        fact_words(entries.drop_last()) + word_total(entries.last().text)
    }
}

/// The words of a memory.
pub open spec fn memory_words(m: Seq<MemorySectionView>) -> nat
    decreases m.len(),
{
    if m.len() == 0 {
        0
    } else {
        memory_words(m.drop_last()) + fact_words(m.last().entries)
    }
}

/// A count, held at the largest count there is.
pub open spec fn held(n: nat) -> usize {
    if n > usize::MAX {
        usize::MAX
    } else {
        n as usize
    }
}

/// One line of the rendering.
pub open spec fn fact_line(e: EntryView, mark_corrected: bool) -> Seq<char> {
    if mark_corrected && e.source == FactSource::Corrected {
        "- "@ + e.text + " [corrected]"@ + "\n"@
    } else {
        "- "@ + e.text + "\n"@
    }
}

/// The lines of a section.
pub open spec fn fact_lines(entries: Seq<EntryView>, mark_corrected: bool) -> Seq<char>
    decreases entries.len(),
{
    if entries.len() == 0 {
        Seq::empty()
    } else {
        fact_lines(entries.drop_last(), mark_corrected) + fact_line(entries.last(), mark_corrected)
    }
}

/// The rendered sections; an empty one is left out.
pub open spec fn memory_parts(m: Seq<MemorySectionView>, mark_corrected: bool) -> Seq<Seq<char>>
    decreases m.len(),
{
    if m.len() == 0 {
        Seq::empty()
    } else if m.last().entries.len() == 0 {
        memory_parts(m.drop_last(), mark_corrected)
    } else {
        memory_parts(m.drop_last(), mark_corrected).push(
            "## "@ + m.last().name + "\n"@ + fact_lines(m.last().entries, mark_corrected),
        )
    }
}

/// The memory as a prompt.
pub open spec fn memory_prompt(m: Seq<MemorySectionView>, mark_corrected: bool) -> Seq<char> {
    joined(memory_parts(m, mark_corrected), "\n"@)
}

/// A fact that is not pruned by age.
pub open spec fn is_fresh(e: EntryView, cutoff: u64) -> bool {
    e.source == FactSource::Corrected || e.last_touched >= cutoff
}

/// The facts that are not pruned by age.
pub open spec fn fresh_facts(entries: Seq<EntryView>, cutoff: u64) -> Seq<EntryView>
    decreases entries.len(),
{
    if entries.len() == 0 {
        Seq::empty()
    } else if is_fresh(entries.last(), cutoff) {
        fresh_facts(entries.drop_last(), cutoff).push(entries.last())
    } else {
        fresh_facts(entries.drop_last(), cutoff)
    }
}

/// The memory after pruning by age. Empty sections go.
pub open spec fn pruned(m: Seq<MemorySectionView>, cutoff: u64) -> Seq<MemorySectionView>
    decreases m.len(),
{
    if m.len() == 0 {
        Seq::empty()
    } else {
        let left = fresh_facts(m.last().entries, cutoff);
        if left.len() == 0 {
            pruned(m.drop_last(), cutoff)
        } else {
            pruned(m.drop_last(), cutoff).push(
                MemorySectionView { name: m.last().name, entries: left },
            )
        }
    }
}

/// How many facts a memory holds.
pub open spec fn fact_count(m: Seq<MemorySectionView>) -> nat
    decreases m.len(),
{
    if m.len() == 0 {
        0
    } else {
        fact_count(m.drop_last()) + m.last().entries.len()
    }
}

/// The fact at the first position goes before the fact at the second: by the
/// weight of its source, then by age, then by its section's name, then by the
/// order in which it was learned. Sections stand in the order of their names.
pub open spec fn goes_before(
    m: Seq<MemorySectionView>,
    i: int,
    j: int,
    a: int,
    b: int,
) -> bool {
    let x = m[i].entries[j];
    let y = m[a].entries[b];
    ||| x.source.weight() < y.source.weight()
    ||| x.source.weight() == y.source.weight() && x.last_touched < y.last_touched
    ||| x.source.weight() == y.source.weight() && x.last_touched == y.last_touched && (i < a || (i
        == a && j < b))
}

/// A position in the memory.
pub open spec fn is_fact(m: Seq<MemorySectionView>, i: int, j: int) -> bool {
    0 <= i < m.len() && 0 <= j < m[i].entries.len()
}

/// The fact that goes next: it goes before every other.
pub open spec fn goes_next(m: Seq<MemorySectionView>, p: (int, int)) -> bool {
    is_fact(m, p.0, p.1) && forall|a: int, b: int| #[trigger]
        is_fact(m, a, b) && (a, b) != p ==> goes_before(m, p.0, p.1, a, b)
}

/// The memory after the next fact has gone.
pub open spec fn evicted_one(m: Seq<MemorySectionView>) -> Seq<MemorySectionView> {
    let p = choose|p: (int, int)| goes_next(m, p);
    forgotten(m, m[p.0].name, m[p.0].entries[p.1].text)
}

/// Evicting facts, one after another, until the words are within the cap or
/// nothing is left; at most `most` of them. The second part counts them.
pub open spec fn evicted(m: Seq<MemorySectionView>, cap: usize, most: nat) -> (
    Seq<MemorySectionView>,
    nat,
)
    decreases most,
{
    if held(memory_words(m)) <= cap || most == 0 || !(exists|p: (int, int)| goes_next(m, p)) {
        (m, 0)
    } else {
        let rest = evicted(evicted_one(m), cap, (most - 1) as nat);
        (rest.0, rest.1 + 1)
    }
}

/// The memory within a cap.
pub open spec fn clamped(m: Seq<MemorySectionView>, cap: usize) -> (Seq<MemorySectionView>, nat) {
    evicted(m, cap, fact_count(m))
}

/// Where a name belongs among the sections.
pub proof fn lemma_names_before(m: Seq<MemorySectionView>, name: Seq<char>)
    ensures
        names_before(m, name) <= m.len(),
        forall|i: int| 0 <= i < names_before(m, name) ==> lex_lt((#[trigger] m[i]).name, name),
        names_before(m, name) < m.len() ==> !lex_lt(
            m[names_before(m, name) as int].name,
            name,
        ),
    decreases m.len(),
{
    if m.len() > 0 && lex_lt(m[0].name, name) {
        let rest = m.drop_first();
        lemma_names_before(rest, name);
        assert forall|i: int| 0 <= i < names_before(m, name) implies lex_lt(
            (#[trigger] m[i]).name,
            name,
        ) by {
            if i > 0 {
                assert(rest[i - 1] == m[i]);
            }
        }
        if names_before(m, name) < m.len() {
            assert(rest[names_before(rest, name) as int] == m[names_before(m, name) as int]);
        }
    }
}

/// In an ordered memory a name stands at its own place.
pub proof fn lemma_section_at(m: Seq<MemorySectionView>, i: int)
    requires
        sections_in_order(m),
        0 <= i < m.len(),
    ensures
        names_before(m, m[i].name) == i,
        has_section(m, m[i].name),
        facts_of(m, m[i].name) == m[i].entries,
{
    let name = m[i].name;
    lemma_names_before(m, name);
    lemma_lex_irreflexive(name);
    let n = names_before(m, name) as int;
    if n < i {
        assert(lex_lt(m[n].name, m[i].name));
    }
    if n > i {
        assert(lex_lt(m[i].name, name));
    }
}

/// Replacing a section's facts keeps the order, changes that section and no
/// other.
pub proof fn lemma_with_facts(
    m: Seq<MemorySectionView>,
    name: Seq<char>,
    entries: Seq<EntryView>,
)
    requires
        sections_in_order(m),
    ensures
        sections_in_order(with_facts(m, name, entries)),
        has_section(with_facts(m, name, entries), name),
        facts_of(with_facts(m, name, entries), name) == entries,
        forall|other: Seq<char>|
            other != name ==> #[trigger] has_section(with_facts(m, name, entries), other) == has_section(
                m,
                other,
            ),
        forall|other: Seq<char>|
            other != name ==> #[trigger] facts_of(with_facts(m, name, entries), other) == facts_of(m, other),
{
    let at = names_before(m, name) as int;
    let after = with_facts(m, name, entries);
    lemma_names_before(m, name);
    assert forall|k: int| at <= k < m.len() implies m[k].name == name || lex_lt(
        name,
        (#[trigger] m[k]).name,
    ) by {
        lemma_lex_total(m[at].name, name);
        if k > at {
            assert(lex_lt(m[at].name, m[k].name));
            if m[at].name != name {
                lemma_lex_transitive(name, m[at].name, m[k].name);
            }
        }
    }
    assert forall|i: int, j: int| 0 <= i < j < after.len() implies lex_lt(
        (#[trigger] after[i]).name,
        (#[trigger] after[j]).name,
    ) by {
        if has_section(m, name) {
            assert(lex_lt(m[i].name, m[j].name));
        } else {
            let x = if i < at {
                i
            } else {
                i - 1
            };
            let y = if j < at {
                j
            } else {
                j - 1
            };
            if i != at && j != at {
                assert(after[i] == m[x] && after[j] == m[y]);
            } else if i == at {
                assert(after[j] == m[y]);
                assert(m[y].name == name || lex_lt(name, m[y].name));
                if m[y].name == name {
                    lemma_section_at(m, y);
                }
            } else {
                assert(after[i] == m[x]);
            }
        }
    }
    assert(after[at].name == name);
    lemma_section_at(after, at);
    assert forall|other: Seq<char>| other != name implies #[trigger] has_section(after, other)
        == has_section(m, other) && facts_of(after, other) == facts_of(m, other) by {
        if has_section(m, other) {
            let k = names_before(m, other) as int;
            if has_section(m, name) || k < at {
                assert(after[k] == m[k]);
                lemma_section_at(after, k);
            } else {
                assert(after[k + 1] == m[k]);
                lemma_section_at(after, k + 1);
            }
        }
        if has_section(after, other) {
            let k = names_before(after, other) as int;
            if has_section(m, name) || k < at {
                assert(after[k] == m[k]);
                lemma_section_at(m, k);
            } else {
                assert(k != at);
                assert(after[k] == m[k - 1]);
                lemma_section_at(m, k - 1);
            }
        }
    }
}

/// Taking a section out keeps the order and leaves the others.
pub proof fn lemma_without_section(m: Seq<MemorySectionView>, name: Seq<char>)
    requires
        sections_in_order(m),
    ensures
        sections_in_order(without_section(m, name)),
        !has_section(without_section(m, name), name),
        facts_of(without_section(m, name), name) == Seq::<EntryView>::empty(),
        forall|other: Seq<char>|
            other != name ==> #[trigger] has_section(without_section(m, name), other) == has_section(
                m,
                other,
            ),
        forall|other: Seq<char>|
            other != name ==> #[trigger] facts_of(without_section(m, name), other) == facts_of(m, other),
{
    let after = without_section(m, name);
    if has_section(m, name) {
        let at = names_before(m, name) as int;
        assert forall|i: int, j: int| 0 <= i < j < after.len() implies lex_lt(
            (#[trigger] after[i]).name,
            (#[trigger] after[j]).name,
        ) by {
            let x = if i < at {
                i
            } else {
                i + 1
            };
            let y = if j < at {
                j
            } else {
                j + 1
            };
            assert(after[i] == m[x] && after[j] == m[y]);
        }
        if has_section(after, name) {
            let k = names_before(after, name) as int;
            let x = if k < at {
                k
            } else {
                k + 1
            };
            assert(after[k] == m[x]);
            lemma_section_at(m, x);
        }
        assert forall|other: Seq<char>| other != name implies #[trigger] has_section(after, other)
            == has_section(m, other) && facts_of(after, other) == facts_of(m, other) by {
            if has_section(m, other) {
                let k = names_before(m, other) as int;
                if k < at {
                    assert(after[k] == m[k]);
                    lemma_section_at(after, k);
                } else {
                    assert(after[k - 1] == m[k]);
                    lemma_section_at(after, k - 1);
                }
            }
            if has_section(after, other) {
                let k = names_before(after, other) as int;
                let x = if k < at {
                    k
                } else {
                    k + 1
                };
                assert(after[k] == m[x]);
                lemma_section_at(m, x);
            }
        }
    }
}

/// Forgetting keeps the order.
pub proof fn lemma_forgotten_in_order(
    m: Seq<MemorySectionView>,
    section: Seq<char>,
    text: Seq<char>,
)
    requires
        sections_in_order(m),
    ensures
        sections_in_order(forgotten(m, section, text)),
{
    lemma_without_section(m, section);
    lemma_with_facts(m, section, facts_without(facts_of(m, section), text));
}

/// The position of the first fact with a text.
pub proof fn lemma_fact_index(entries: Seq<EntryView>, text: Seq<char>)
    ensures
        fact_index(entries, text) <= entries.len(),
        fact_index(entries, text) < entries.len() ==> entries[fact_index(
            entries,
            text,
        ) as int].text == text,
        forall|i: int|
            0 <= i < fact_index(entries, text) ==> (#[trigger] entries[i]).text != text,
    decreases entries.len(),
{
    if entries.len() > 0 && entries[0].text != text {
        let rest = entries.drop_first();
        lemma_fact_index(rest, text);
        assert forall|i: int| 0 <= i < fact_index(entries, text) implies (
        #[trigger] entries[i]).text != text by {
            if i > 0 {
                assert(rest[i - 1] == entries[i]);
            }
        }
        if fact_index(entries, text) < entries.len() {
            assert(rest[fact_index(rest, text) as int] == entries[fact_index(
                entries,
                text,
            ) as int]);
        }
    }
}

/// Forgetting a text removes exactly the facts with it.
pub proof fn lemma_facts_without(entries: Seq<EntryView>, text: Seq<char>)
    ensures
        facts_without(entries, text).len() <= entries.len(),
        forall|e: EntryView|
            #[trigger] facts_without(entries, text).contains(e) <==> entries.contains(e) && e.text
                != text,
        (exists|i: int| 0 <= i < entries.len() && (#[trigger] entries[i]).text == text)
            <==> facts_without(entries, text).len() < entries.len(),
        facts_without(entries, text).len() == entries.len() ==> facts_without(entries, text)
            == entries,
    decreases entries.len(),
{
    let out = facts_without(entries, text);
    if entries.len() > 0 {
        let rest = entries.drop_last();
        lemma_facts_without(rest, text);
        let prev = facts_without(rest, text);
        assert(entries =~= rest.push(entries.last()));
        assert forall|e: EntryView| #[trigger] out.contains(e) <==> entries.contains(e) && e.text
            != text by {
            assert(rest.push(entries.last()).contains(e) <==> rest.contains(e) || e
                == entries.last()) by {
                broadcast use vstd::seq_lib::group_seq_properties;

            }
            assert(prev.push(entries.last()).contains(e) <==> prev.contains(e) || e
                == entries.last()) by {
                broadcast use vstd::seq_lib::group_seq_properties;

            }
        }
        if entries.last().text == text {
            assert(entries[entries.len() - 1].text == text);
        } else {
            if exists|i: int| 0 <= i < entries.len() && (#[trigger] entries[i]).text == text {
                let i = choose|i: int|
                    0 <= i < entries.len() && (#[trigger] entries[i]).text == text;
                assert(rest[i].text == text);
            }
            if prev.len() < rest.len() {
                let i = choose|i: int| 0 <= i < rest.len() && (#[trigger] rest[i]).text == text;
                assert(entries[i].text == text);
            }
        }
    } else {
        assert forall|e: EntryView| !(#[trigger] out.contains(e)) by {}
    }
}

/// Sections gathered one after another; of two with one name the later counts.
pub open spec fn gathered(sections: Seq<MemorySectionView>) -> Seq<MemorySectionView>
    decreases sections.len(),
{
    if sections.len() == 0 {
        Seq::empty()
    } else {
        with_facts(gathered(sections.drop_last()), sections.last().name, sections.last().entries)
    }
}

/// The time before which a fact is stale.
pub open spec fn cutoff_of(now: u64, max_age_secs: u64) -> u64 {
    if now < max_age_secs {
        0
    } else {
        (now - max_age_secs) as u64
    }
}

/// Pruning keeps the order: what is left of the sections are sections of
/// before, in the same order.
pub proof fn lemma_pruned_in_order(m: Seq<MemorySectionView>, cutoff: u64)
    requires
        sections_in_order(m),
    ensures
        sections_in_order(pruned(m, cutoff)),
        forall|i: int|
            0 <= i < pruned(m, cutoff).len() ==> exists|k: int|
                0 <= k < m.len() && (#[trigger] m[k]).name == (#[trigger] pruned(
                    m,
                    cutoff,
                )[i]).name,
    decreases m.len(),
{
    let out = pruned(m, cutoff);
    if m.len() > 0 {
        let rest = m.drop_last();
        lemma_pruned_in_order(rest, cutoff);
        let prev = pruned(rest, cutoff);
        assert forall|i: int| 0 <= i < prev.len() implies exists|k: int|
            0 <= k < rest.len() && (#[trigger] m[k]).name == (#[trigger] prev[i]).name by {
            let k = choose|k: int|
                0 <= k < rest.len() && (#[trigger] rest[k]).name == prev[i].name;
            assert(m[k].name == prev[i].name);
        }
        assert forall|i: int| 0 <= i < out.len() implies exists|k: int|
            0 <= k < m.len() && (#[trigger] m[k]).name == (#[trigger] out[i]).name by {
            if i < prev.len() {
                let k = choose|k: int|
                    0 <= k < rest.len() && (#[trigger] m[k]).name == prev[i].name;
                assert(m[k].name == out[i].name);
            } else {
                assert(m[m.len() - 1].name == out[i].name);
            }
        }
        assert forall|i: int, j: int| 0 <= i < j < out.len() implies lex_lt(
            (#[trigger] out[i]).name,
            (#[trigger] out[j]).name,
        ) by {
            if j < prev.len() {
                assert(out[i] == prev[i] && out[j] == prev[j]);
            } else {
                assert(out[i] == prev[i]);
                let k = choose|k: int|
                    0 <= k < rest.len() && (#[trigger] m[k]).name == prev[i].name;
                assert(lex_lt(m[k].name, m[m.len() - 1].name));
            }
        }
    }
}

/// At most one fact goes next.
pub proof fn lemma_goes_next_unique(m: Seq<MemorySectionView>, p: (int, int))
    requires
        goes_next(m, p),
    ensures
        (choose|q: (int, int)| goes_next(m, q)) == p,
{
    let q = choose|q: (int, int)| goes_next(m, q);
    if q != p {
        assert(is_fact(m, q.0, q.1) && is_fact(m, p.0, p.1));
        assert(goes_before(m, p.0, p.1, q.0, q.1));
        assert(goes_before(m, q.0, q.1, p.0, p.1));
    }
}

/// Counting with one section changed.
proof fn lemma_fact_count_update(m: Seq<MemorySectionView>, i: int, s: MemorySectionView)
    requires
        0 <= i < m.len(),
    ensures
        fact_count(m.update(i, s)) == fact_count(m) - m[i].entries.len() + s.entries.len(),
        fact_count(m) >= m[i].entries.len(),
    decreases m.len(),
{
    let n = m.update(i, s);
    if i == m.len() - 1 {
        assert(n.drop_last() =~= m.drop_last());
    } else {
        lemma_fact_count_update(m.drop_last(), i, s);
        assert(n.drop_last() =~= m.drop_last().update(i, s));
    }
}

/// Counting with one section taken out.
proof fn lemma_fact_count_remove(m: Seq<MemorySectionView>, i: int)
    requires
        0 <= i < m.len(),
    ensures
        fact_count(m.remove(i)) == fact_count(m) - m[i].entries.len(),
    decreases m.len(),
{
    let n = m.remove(i);
    if i == m.len() - 1 {
        assert(n =~= m.drop_last());
    } else {
        lemma_fact_count_remove(m.drop_last(), i);
        assert(n.drop_last() =~= m.drop_last().remove(i));
        assert(n.last() == m.last());
    }
}

/// Evicting a fact leaves fewer facts.
pub proof fn lemma_eviction_shrinks(m: Seq<MemorySectionView>, i: int, j: int)
    requires
        sections_in_order(m),
        is_fact(m, i, j),
    ensures
        fact_count(forgotten(m, m[i].name, m[i].entries[j].text)) < fact_count(m),
{
    let name = m[i].name;
    let text = m[i].entries[j].text;
    lemma_section_at(m, i);
    lemma_facts_without(m[i].entries, text);
    assert(m[i].entries[j].text == text);
    let left = facts_without(m[i].entries, text);
    lemma_fact_count_update(m, i, MemorySectionView { name, entries: left });
    lemma_fact_count_remove(m, i);
}

} // verus!
