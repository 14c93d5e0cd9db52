//! What the model sees of a memory.

use vstd::prelude::*;
use crate::harness::memory::EntryView;
use crate::harness::memory::FactSource;
use crate::harness::memory::Memory;
use crate::harness::memory::MemorySectionView;
use crate::harness::memory::model::fact_lines;
use crate::harness::memory::model::memory_parts;
use crate::harness::memory::model::memory_prompt;
use crate::text::joined;
use crate::text_laws::law_joined_holds_every_part;

verus! {

/// The line of a fact: its words, and where corrections are marked, the mark.
pub open spec fn line_of(e: EntryView, marked: bool) -> Seq<char> {
    "- "@ + e.text + (if marked && e.source == FactSource::Corrected {
        " [corrected]"@
    } else {
        Seq::empty()
    }) + "\n"@
}

/// The facts of a section are listed one by one, in their order.
pub proof fn law_fact_lines(entries: Seq<EntryView>, e: EntryView, marked: bool)
    ensures
        fact_lines(Seq::empty(), marked).len() == 0,
        fact_lines(entries.push(e), marked) == fact_lines(entries, marked) + line_of(e, marked),
{
    assert(entries.push(e).drop_last() =~= entries);
    assert(("- "@ + e.text) + Seq::<char>::empty() + "\n"@ =~= "- "@ + e.text + "\n"@);
}

/// The sections are rendered one by one under their names; one without facts adds
/// nothing.
pub proof fn law_memory_parts(m: Seq<MemorySectionView>, s: MemorySectionView, marked: bool)
    ensures
        memory_parts(Seq::empty(), marked).len() == 0,
        s.entries.len() == 0 ==> memory_parts(m.push(s), marked) == memory_parts(m, marked),
        s.entries.len() > 0 ==> memory_parts(m.push(s), marked) == memory_parts(m, marked).push(
            "## "@ + s.name + "\n"@ + fact_lines(s.entries, marked),
        ),
{
    assert(m.push(s).drop_last() =~= m);
}

proof fn lemma_section_is_a_part(m: Seq<MemorySectionView>, i: int, marked: bool)
    requires
        0 <= i < m.len(),
        m[i].entries.len() > 0,
    ensures
        memory_parts(m, marked).contains(
            "## "@ + m[i].name + "\n"@ + fact_lines(m[i].entries, marked),
        ),
    decreases m.len(),
{
    let part = "## "@ + m[i].name + "\n"@ + fact_lines(m[i].entries, marked);
    let before = m.drop_last();
    if i < before.len() {
        assert(before[i] == m[i]);
        lemma_section_is_a_part(before, i, marked);
        let k = choose|k: int|
            0 <= k < memory_parts(before, marked).len() && memory_parts(before, marked)[k] == part;
        assert(memory_parts(m, marked)[k] == part);
    } else {
        assert(memory_parts(m, marked).last() == part);
    }
}

/// Every section with facts stands in the prompt, with its name and all its facts.
pub proof fn law_to_prompt(memory: &Memory, r: String, i: int)
    requires
        call_ensures(Memory::to_prompt, (memory,), r),
    ensures
        0 <= i < memory@.len() && memory@[i].entries.len() > 0 ==> exists|
            a: Seq<char>,
            b: Seq<char>,
        |
            r@ == #[trigger] (a + ("## "@ + memory@[i].name + "\n"@ + fact_lines(
                memory@[i].entries,
                false,
            )) + b),
        memory@.len() == 0 ==> r@.len() == 0,
{
    let m = memory@;
    if 0 <= i < m.len() && m[i].entries.len() > 0 {
        lemma_section_is_a_part(m, i, false);
        let part = "## "@ + m[i].name + "\n"@ + fact_lines(m[i].entries, false);
        let parts = memory_parts(m, false);
        let k = choose|k: int| 0 <= k < parts.len() && parts[k] == part;
        law_joined_holds_every_part(parts, "\n"@, k);
        assert(memory_prompt(m, false) == joined(parts, "\n"@));
    }
}

} // verus!
