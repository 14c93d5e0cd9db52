//! Sectioned long-term memory: short facts with their provenance.
//!
//! Sections are named by the consumer and kept in the order of their names.
//! Within a section, facts keep the order in which they were learned.

use vstd::prelude::*;
use crate::text::concat2;
use crate::text::concat3;
use crate::text::count_words;
use crate::text::join;
use crate::text::text_eq;
use crate::text::text_lt;
use crate::views::copy_option;
use crate::views::option_view;
use crate::views::seq_views;

pub mod laws;
pub mod model;
pub mod op_laws;
pub mod prompt_laws;
pub mod store;
pub mod tool;
pub mod tool_laws;

use crate::harness::memory::model::clamped;
use crate::harness::memory::model::evicted;
use crate::harness::memory::model::goes_before;
use crate::harness::memory::model::goes_next;
use crate::harness::memory::model::is_fact;
use crate::harness::memory::model::lemma_eviction_shrinks;
use crate::harness::memory::model::lemma_goes_next_unique;
use crate::harness::memory::model::cutoff_of;
use crate::harness::memory::model::fact_count;
use crate::harness::memory::model::fact_index;
use crate::harness::memory::model::fact_lines;
use crate::harness::memory::model::fact_words;
use crate::harness::memory::model::facts_of;
use crate::harness::memory::model::facts_without;
use crate::harness::memory::model::forgotten;
use crate::harness::memory::model::fresh_facts;
use crate::harness::memory::model::gathered;
use crate::harness::memory::model::has_section;
use crate::harness::memory::model::held;
use crate::harness::memory::model::learned_fact;
use crate::harness::memory::model::lemma_facts_without;
use crate::harness::memory::model::lemma_forgotten_in_order;
use crate::harness::memory::model::lemma_pruned_in_order;
use crate::harness::memory::model::lemma_with_facts;
use crate::harness::memory::model::memory_parts;
use crate::harness::memory::model::memory_prompt;
use crate::harness::memory::model::memory_words;
use crate::harness::memory::model::names_before;
use crate::harness::memory::model::pruned;
use crate::harness::memory::model::remembered;
use crate::harness::memory::model::sections_in_order;
use crate::harness::memory::model::with_facts;

verus! {

/// Default ceiling for the words of a whole memory.
pub const DEFAULT_WORD_CAP: usize = 500;

/// Where a fact came from. Decides what is evicted first.
#[derive(Clone, Copy, Debug, PartialEq, Eq, Structural)]
pub enum FactSource {
    /// The agent's own deduction. First to go.
    Inferred,
    /// The user said so.
    Stated,
    /// The user corrected the agent. Never pruned by age; last to go.
    Corrected,
}

impl FactSource {
    /// The weight of a source.
    pub open spec fn weight(self) -> u8 {
        match self {
            FactSource::Inferred => 0,
            FactSource::Stated => 1,
            FactSource::Corrected => 2,
        }
    }

    /// The weight of a source: an inference weighs least, a correction most.
    pub fn rank(self) -> (r: u8)
        ensures
            r == self.weight(),
    {
        match self {
            FactSource::Inferred => 0,
            FactSource::Stated => 1,
            FactSource::Corrected => 2,
        }
    }
}

/// One fact.
#[derive(Debug, PartialEq)]
pub struct MemoryEntry {
    pub text: String,
    /// When the fact was last added, confirmed or mentioned again.
    pub last_touched: u64,
    pub source: FactSource,
    /// The session that the fact came from, if known.
    pub session: Option<String>,
}

/// The mathematical counterpart of [`MemoryEntry`].
pub struct EntryView {
    pub text: Seq<char>,
    pub last_touched: u64,
    pub source: FactSource,
    pub session: Option<Seq<char>>,
}

impl View for MemoryEntry {
    type V = EntryView;

    open spec fn view(&self) -> EntryView {
        EntryView {
            text: self.text@,
            last_touched: self.last_touched,
            source: self.source,
            session: option_view(self.session),
        }
    }
}

impl Clone for MemoryEntry {
    fn clone(&self) -> (r: MemoryEntry)
        ensures
            r@ == self@,
    {
        MemoryEntry {
            text: self.text.clone(),
            last_touched: self.last_touched,
            source: self.source,
            session: copy_option(&self.session),
        }
    }
}

/// A section: its name and its facts.
#[derive(Debug, PartialEq)]
pub struct MemorySection {
    pub name: String,
    pub entries: Vec<MemoryEntry>,
}

/// The mathematical counterpart of [`MemorySection`].
#[verifier::ext_equal]
pub struct MemorySectionView {
    pub name: Seq<char>,
    pub entries: Seq<EntryView>,
}

impl View for MemorySection {
    type V = MemorySectionView;

    open spec fn view(&self) -> MemorySectionView {
        MemorySectionView { name: self.name@, entries: seq_views(self.entries@) }
    }
}

/// The memory of one user.
#[derive(Debug, PartialEq)]
pub struct Memory {
    sections: Vec<MemorySection>,
}

impl View for Memory {
    type V = Seq<MemorySectionView>;

    closed spec fn view(&self) -> Seq<MemorySectionView> {
        seq_views(self.sections@)
    }
}

impl Default for Memory {
    fn default() -> (r: Memory)
        ensures
            r.wf(),
            r@ == Seq::<MemorySectionView>::empty(),
    {
        let r = Memory { sections: Vec::new() };
        assert(r@ =~= Seq::<MemorySectionView>::empty());
        r
    }
}

impl Clone for MemorySection {
    fn clone(&self) -> (r: MemorySection)
        ensures
            r@ == self@,
    {
        let mut entries: Vec<MemoryEntry> = Vec::new();
        let mut i: usize = 0;
        while i < self.entries.len()
            invariant
                i <= self.entries.len(),
                entries.len() == i,
                forall|j: int| 0 <= j < i ==> (#[trigger] entries@[j])@ == self.entries@[j]@,
            decreases self.entries.len() - i,
        {
            entries.push(self.entries[i].clone());
            i = i + 1;
        }
        let r = MemorySection { name: self.name.clone(), entries };
        assert(r@.entries =~= self@.entries);
        r
    }
}

impl Clone for Memory {
    fn clone(&self) -> (r: Memory)
        ensures
            r@ == self@,
    {
        let mut sections: Vec<MemorySection> = Vec::new();
        let mut i: usize = 0;
        while i < self.sections.len()
            invariant
                i <= self.sections.len(),
                sections.len() == i,
                forall|j: int| 0 <= j < i ==> (#[trigger] sections@[j])@ == self.sections@[j]@,
            decreases self.sections.len() - i,
        {
            sections.push(self.sections[i].clone());
            i = i + 1;
        }
        let r = Memory { sections };
        assert(r@ =~= self@);
        r
    }
}

/// The facts whose text differs.
fn keep_other_texts(entries: &Vec<MemoryEntry>, text: &str) -> (r: Vec<MemoryEntry>)
    ensures
        seq_views(r@) == facts_without(seq_views(entries@), text@),
{
    let ghost all = seq_views(entries@);
    let mut out: Vec<MemoryEntry> = Vec::new();
    let mut i: usize = 0;
    assert(seq_views(out@) =~= facts_without(all.take(0), text@));
    while i < entries.len()
        invariant
            i <= entries.len(),
            all == seq_views(entries@),
            seq_views(out@) == facts_without(all.take(i as int), text@),
        decreases entries.len() - i,
    {
        let ghost before = out@;
        proof {
            assert(all.take(i + 1).drop_last() =~= all.take(i as int));
            assert(all.take(i + 1).last() == entries@[i as int]@);
        }
        if !text_eq(entries[i].text.as_str(), text) {
            out.push(entries[i].clone());
            assert(seq_views(out@) =~= seq_views(before).push(entries@[i as int]@));
        }
        i = i + 1;
    }
    assert(all.take(all.len() as int) =~= all);
    out
}

/// The facts that are not pruned by age.
fn keep_fresh(entries: &Vec<MemoryEntry>, cutoff: u64) -> (r: Vec<MemoryEntry>)
    ensures
        seq_views(r@) == fresh_facts(seq_views(entries@), cutoff),
        r.len() <= entries.len(),
{
    let ghost all = seq_views(entries@);
    let mut out: Vec<MemoryEntry> = Vec::new();
    let mut i: usize = 0;
    assert(seq_views(out@) =~= fresh_facts(all.take(0), cutoff));
    while i < entries.len()
        invariant
            i <= entries.len(),
            out.len() <= i,
            all == seq_views(entries@),
            seq_views(out@) == fresh_facts(all.take(i as int), cutoff),
        decreases entries.len() - i,
    {
        let ghost before = out@;
        proof {
            assert(all.take(i + 1).drop_last() =~= all.take(i as int));
            assert(all.take(i + 1).last() == entries@[i as int]@);
        }
        if entries[i].source == FactSource::Corrected || entries[i].last_touched >= cutoff {
            out.push(entries[i].clone());
            assert(seq_views(out@) =~= seq_views(before).push(entries@[i as int]@));
        }
        i = i + 1;
    }
    assert(all.take(all.len() as int) =~= all);
    out
}

/// The words of a section's facts, held at the largest count there is.
fn words_in(entries: &Vec<MemoryEntry>, start: usize, Ghost(base): Ghost<nat>) -> (r: usize)
    requires
        start == held(base),
    ensures
        r == held(base + fact_words(seq_views(entries@))),
{
    let ghost all = seq_views(entries@);
    let mut n: usize = start;
    let mut i: usize = 0;
    assert(fact_words(all.take(0)) == 0);
    while i < entries.len()
        invariant
            i <= entries.len(),
            all == seq_views(entries@),
            n == held(base + fact_words(all.take(i as int))),
        decreases entries.len() - i,
    {
        proof {
            assert(all.take(i + 1).drop_last() =~= all.take(i as int));
            assert(all.take(i + 1).last() == entries@[i as int]@);
        }
        n = n.saturating_add(count_words(entries[i].text.as_str()));
        i = i + 1;
    }
    assert(all.take(all.len() as int) =~= all);
    n
}

impl Memory {
    /// The sections are in order.
    pub open spec fn wf(&self) -> bool {
        sections_in_order(self@)
    }

    /// A memory made of the given sections. Of two sections with one name the
    /// later counts.
    pub fn from_sections(sections: Vec<MemorySection>) -> (r: Memory)
        ensures
            r.wf(),
            r@ == gathered(seq_views(sections@)),
    {
        let ghost all = seq_views(sections@);
        let mut r = Memory::default();
        let mut i: usize = 0;
        assert(gathered(all.take(0)) =~= Seq::<MemorySectionView>::empty());
        while i < sections.len()
            invariant
                i <= sections.len(),
                all == seq_views(sections@),
                r.wf(),
                r@ == gathered(all.take(i as int)),
            decreases sections.len() - i,
        {
            proof {
                assert(all.take(i + 1).drop_last() =~= all.take(i as int));
                assert(all.take(i + 1).last() == sections@[i as int]@);
            }
            let one = sections[i].clone();
            r.set_section(one);
            i = i + 1;
        }
        assert(all.take(all.len() as int) =~= all);
        r
    }

    /// The sections in the order of their names.
    pub fn sections(&self) -> (r: &Vec<MemorySection>)
        ensures
            seq_views(r@) == self@,
    {
        &self.sections
    }

    /// Where a section is, or would be.
    fn position(&self, name: &str) -> (r: (usize, bool))
        ensures
            r.0 as nat == names_before(self@, name@),
            r.1 == has_section(self@, name@),
            r.0 <= self.sections.len(),
            r.1 ==> r.0 < self.sections.len(),
    {
        let ghost all = self@;
        let mut i: usize = 0;
        assert(all.skip(0) =~= all);
        while i < self.sections.len() && text_lt(self.sections[i].name.as_str(), name)
            invariant
                i <= self.sections.len(),
                all == self@,
                names_before(all, name@) == i + names_before(all.skip(i as int), name@),
            decreases self.sections.len() - i,
        {
            proof {
                assert(all.skip(i as int)[0] == self.sections@[i as int]@);
                assert(all.skip(i as int).drop_first() =~= all.skip(i + 1));
            }
            i = i + 1;
        }
        proof {
            if i < self.sections.len() {
                assert(all.skip(i as int)[0] == self.sections@[i as int]@);
            }
        }
        let found = i < self.sections.len() && text_eq(self.sections[i].name.as_str(), name);
        (i, found)
    }

    /// Replaces a section, or puts it in its place.
    fn set_section(&mut self, section: MemorySection)
        requires
            old(self).wf(),
        ensures
            final(self).wf(),
            final(self)@ == with_facts(old(self)@, section@.name, section@.entries),
    {
        proof {
            lemma_with_facts(self@, section@.name, section@.entries);
        }
        let (at, found) = self.position(section.name.as_str());
        if found {
            self.sections.set(at, section);
        } else {
            self.sections.insert(at, section);
        }
        assert(self@ =~= with_facts(old(self)@, section@.name, section@.entries));
    }

    /// The facts of a section, if it exists.
    pub fn section(&self, name: &str) -> (r: Option<&Vec<MemoryEntry>>)
        ensures
            match r {
                Some(entries) => has_section(self@, name@) && seq_views(entries@) == facts_of(
                    self@,
                    name@,
                ),
                None => !has_section(self@, name@),
            },
    {
        let (at, found) = self.position(name);
        if found {
            assert(self@[at as int] == self.sections@[at as int]@);
            Some(&self.sections[at].entries)
        } else {
            None
        }
    }

    /// Learns an inferred fact of unknown origin.
    pub fn remember(&mut self, section: &str, text: &str, now: u64)
        requires
            old(self).wf(),
        ensures
            final(self).wf(),
            final(self)@ == remembered(
                old(self)@,
                section@,
                text@,
                now,
                FactSource::Inferred,
                None,
            ),
    {
        self.remember_from(section, text, now, FactSource::Inferred, None);
    }

    /// Learns a fact with its provenance. A known fact is refreshed; its source
    /// is upgraded, never downgraded.
    pub fn remember_from(
        &mut self,
        section: &str,
        text: &str,
        now: u64,
        source: FactSource,
        session: Option<String>,
    )
        requires
            old(self).wf(),
        ensures
            final(self).wf(),
            final(self)@ == remembered(
                old(self)@,
                section@,
                text@,
                now,
                source,
                option_view(session),
            ),
    {
        let ghost target = learned_fact(
            facts_of(self@, section@),
            text@,
            now,
            source,
            option_view(session),
        );
        proof {
            lemma_with_facts(self@, section@, target);
        }
        let (at, found) = self.position(section);
        if !found {
            let mut entries: Vec<MemoryEntry> = Vec::new();
            entries.push(
                MemoryEntry { text: text.to_string(), last_touched: now, source, session },
            );
            assert(seq_views(entries@) =~= target);
            self.sections.insert(at, MemorySection { name: section.to_string(), entries });
            assert(self@ =~= with_facts(old(self)@, section@, target));
            return;
        }
        let ghost known = self.sections@[at as int]@.entries;
        assert(self@[at as int] == self.sections@[at as int]@);
        let mut i: usize = 0;
        assert(known.skip(0) =~= known);
        while i < self.sections[at as usize].entries.len() && !text_eq(
            self.sections[at as usize].entries[i].text.as_str(),
            text,
        )
            invariant
                at < self.sections.len(),
                self.sections@ == old(self).sections@,
                known == self.sections@[at as int]@.entries,
                i <= self.sections@[at as int].entries.len(),
                fact_index(known, text@) == i + fact_index(known.skip(i as int), text@),
            decreases self.sections@[at as int].entries.len() - i,
        {
            proof {
                assert(known.skip(i as int)[0] == known[i as int]);
                assert(known.skip(i as int).drop_first() =~= known.skip(i + 1));
            }
            i = i + 1;
        }
        proof {
            if i < known.len() {
                assert(known.skip(i as int)[0] == known[i as int]);
            }
        }
        let entries = &mut self.sections[at].entries;
        if i < entries.len() {
            let e = &mut entries[i];
            e.last_touched = now;
            if source.rank() > e.source.rank() {
                e.source = source;
                e.session = session;
            }
        } else {
            entries.push(
                MemoryEntry { text: text.to_string(), last_touched: now, source, session },
            );
        }
        proof {
            assert(self.sections@[at as int]@.entries =~= target);
            assert(self@ =~= with_facts(old(self)@, section@, target));
        }
    }

    /// Forgets a fact. Says whether there was one to forget.
    pub fn forget(&mut self, section: &str, text: &str) -> (r: bool)
        requires
            old(self).wf(),
        ensures
            final(self).wf(),
            final(self)@ == forgotten(old(self)@, section@, text@),
            r == (exists|i: int|
                0 <= i < facts_of(old(self)@, section@).len() && (#[trigger] facts_of(
                    old(self)@,
                    section@,
                )[i]).text == text@),
    {
        proof {
            lemma_forgotten_in_order(self@, section@, text@);
            lemma_facts_without(facts_of(self@, section@), text@);
        }
        let (at, found) = self.position(section);
        if !found {
            return false;
        }
        assert(self@[at as int] == self.sections@[at as int]@);
        let before = self.sections[at].entries.len();
        let left = keep_other_texts(&self.sections[at].entries, text);
        let removed = left.len() < before;
        if left.len() == 0 {
            self.sections.remove(at);
        } else {
            let name = self.sections[at].name.clone();
            self.sections.set(at, MemorySection { name, entries: left });
        }
        assert(self@ =~= forgotten(old(self)@, section@, text@));
        removed
    }

    /// Counts the words of all facts.
    pub fn word_count(&self) -> (r: usize)
        ensures
            r == held(memory_words(self@)),
    {
        let ghost all = self@;
        let mut n: usize = 0;
        let mut i: usize = 0;
        assert(memory_words(all.take(0)) == 0);
        while i < self.sections.len()
            invariant
                i <= self.sections.len(),
                all == self@,
                n == held(memory_words(all.take(i as int))),
            decreases self.sections.len() - i,
        {
            proof {
                assert(all.take(i + 1).drop_last() =~= all.take(i as int));
                assert(all.take(i + 1).last() == self.sections@[i as int]@);
            }
            n = words_in(&self.sections[i].entries, n, Ghost(memory_words(all.take(i as int))));
            i = i + 1;
        }
        assert(all.take(all.len() as int) =~= all);
        n
    }

    /// The texts of a section's facts, in the order in which they were learned.
    pub fn section_texts(&self, section: &str) -> (r: Vec<&str>)
        ensures
            r.len() == facts_of(self@, section@).len(),
            forall|i: int|
                0 <= i < r.len() ==> (#[trigger] r@[i])@ == facts_of(self@, section@)[i].text,
    {
        let mut out: Vec<&str> = Vec::new();
        match self.section(section) {
            None => out,
            Some(entries) => {
                let mut i: usize = 0;
                while i < entries.len()
                    invariant
                        i <= entries.len(),
                        out.len() == i,
                        forall|j: int| 0 <= j < i ==> (#[trigger] out@[j])@ == entries@[j]@.text,
                    decreases entries.len() - i,
                {
                    out.push(entries[i].text.as_str());
                    i = i + 1;
                }
                out
            },
        }
    }

    /// The memory as a prompt: a heading per section, a line per fact. An empty
    /// memory renders as nothing.
    pub fn to_prompt(&self) -> (r: String)
        ensures
            r@ == memory_prompt(self@, false),
    {
        self.render(false)
    }

    /// The memory as a prompt, on request with the user's corrections marked.
    pub(crate) fn render(&self, mark_corrected: bool) -> (r: String)
        ensures
            r@ == memory_prompt(self@, mark_corrected),
    {
        let ghost all = self@;
        let mut parts: Vec<String> = Vec::new();
        let mut i: usize = 0;
        assert(seq_views(parts@) =~= memory_parts(all.take(0), mark_corrected));
        while i < self.sections.len()
            invariant
                i <= self.sections.len(),
                all == self@,
                seq_views(parts@) == memory_parts(all.take(i as int), mark_corrected),
            decreases self.sections.len() - i,
        {
            let ghost before = parts@;
            let section = &self.sections[i];
            proof {
                assert(all.take(i + 1).drop_last() =~= all.take(i as int));
                assert(all.take(i + 1).last() == section@);
            }
            if section.entries.len() > 0 {
                let mut part = concat3("## ", section.name.as_str(), "\n");
                let lines = render_facts(&section.entries, mark_corrected);
                part.append(lines.as_str());
                let ghost text = part@;
                parts.push(part);
                assert(seq_views(parts@) =~= seq_views(before).push(text));
            }
            i = i + 1;
        }
        assert(all.take(all.len() as int) =~= all);
        join(&parts, "\n")
    }

    /// Drops facts that have not been touched for longer than the given age.
    /// The user's corrections are never dropped for their age. Returns how many
    /// facts went.
    pub fn prune_stale(&mut self, now: u64, max_age_secs: u64) -> (r: usize)
        requires
            old(self).wf(),
        ensures
            final(self).wf(),
            final(self)@ == pruned(old(self)@, cutoff_of(now, max_age_secs)),
            r == held(
                (fact_count(old(self)@) - fact_count(
                    pruned(old(self)@, cutoff_of(now, max_age_secs)),
                )) as nat,
            ),
    {
        let cutoff: u64 = now.saturating_sub(max_age_secs);
        let ghost all = self@;
        let mut out: Vec<MemorySection> = Vec::new();
        let mut removed: usize = 0;
        let mut i: usize = 0;
        assert(seq_views(out@) =~= pruned(all.take(0), cutoff));
        while i < self.sections.len()
            invariant
                i <= self.sections.len(),
                self.sections@ == old(self).sections@,
                all == self@,
                seq_views(out@) == pruned(all.take(i as int), cutoff),
                fact_count(pruned(all.take(i as int), cutoff)) <= fact_count(all.take(i as int)),
                removed == held(
                    (fact_count(all.take(i as int)) - fact_count(
                        pruned(all.take(i as int), cutoff),
                    )) as nat,
                ),
            decreases self.sections.len() - i,
        {
            let ghost before = out@;
            let ghost section = self.sections@[i as int]@;
            proof {
                assert(all.take(i + 1).drop_last() =~= all.take(i as int));
                assert(all.take(i + 1).last() == section);
            }
            let had = self.sections[i].entries.len();
            let left = keep_fresh(&self.sections[i].entries, cutoff);
            removed = removed.saturating_add(had - left.len());
            let ghost kept = seq_views(left@);
            if left.len() > 0 {
                out.push(MemorySection { name: self.sections[i].name.clone(), entries: left });
                proof {
                    let added = MemorySectionView { name: section.name, entries: kept };
                    assert(out@.last()@ == added);
                    assert(seq_views(out@) =~= seq_views(before).push(added));
                    assert(seq_views(before).push(added).drop_last() =~= seq_views(before));
                }
            }
            i = i + 1;
        }
        proof {
            assert(all.take(all.len() as int) =~= all);
            lemma_pruned_in_order(all, cutoff);
        }
        self.sections = out;
        removed
    }

    /// The fact that goes next, if there is any.
    fn next_to_go(&self) -> (r: Option<(usize, usize)>)
        ensures
            match r {
                Some(p) => goes_next(self@, (p.0 as int, p.1 as int)) && p.0 < self.sections.len()
                    && p.1 < self.sections@[p.0 as int].entries.len(),
                None => fact_count(self@) == 0 && forall|i: int, j: int|
                    !(#[trigger] is_fact(self@, i, j)),
            },
    {
        let ghost all = self@;
        let mut best: Option<(usize, usize)> = None;
        let mut i: usize = 0;
        assert(fact_count(all.take(0)) == 0);
        while i < self.sections.len()
            invariant
                i <= self.sections.len(),
                all == self@,
                match best {
                    Some(p) => is_fact(all, p.0 as int, p.1 as int) && p.0 < i && forall|
                        a: int,
                        b: int,
                    | #[trigger]
                        is_fact(all, a, b) && a < i && (a, b) != (p.0 as int, p.1 as int)
                            ==> goes_before(all, p.0 as int, p.1 as int, a, b),
                    None => fact_count(all.take(i as int)) == 0 && forall|a: int, b: int| #[trigger]
                        is_fact(all, a, b) ==> a >= i,
                },
            decreases self.sections.len() - i,
        {
            proof {
                assert(all.take(i + 1).drop_last() =~= all.take(i as int));
                assert(all.take(i + 1).last() == self.sections@[i as int]@);
                assert(all[i as int] == self.sections@[i as int]@);
            }
            let entries = &self.sections[i].entries;
            let mut j: usize = 0;
            while j < entries.len()
                invariant
                    i < self.sections.len(),
                    j <= entries.len(),
                    all == self@,
                    *entries == self.sections@[i as int].entries,
                    all[i as int].entries.len() == entries.len(),
                    match best {
                        Some(p) => is_fact(all, p.0 as int, p.1 as int) && (p.0 < i || (p.0 == i
                            && p.1 < j)) && forall|a: int, b: int| #[trigger]
                            is_fact(all, a, b) && (a < i || (a == i && b < j)) && (a, b) != (
                                p.0 as int,
                                p.1 as int,
                            ) ==> goes_before(all, p.0 as int, p.1 as int, a, b),
                        None => j == 0 && fact_count(all.take(i as int)) == 0 && forall|
                            a: int,
                            b: int,
                        | #[trigger]
                            is_fact(all, a, b) ==> a >= i,
                    },
                decreases entries.len() - j,
            {
                assert(is_fact(all, i as int, j as int));
                assert(all[i as int].entries[j as int] == entries@[j as int]@);
                match best {
                    None => {
                        best = Some((i, j));
                    },
                    Some(p) => {
                        let old = &self.sections[p.0].entries[p.1];
                        let new = &entries[j];
                        assert(all[p.0 as int].entries[p.1 as int] == old@);
                        if new.source.rank() < old.source.rank() || (new.source.rank()
                            == old.source.rank() && new.last_touched < old.last_touched) {
                            best = Some((i, j));
                        }
                    },
                }
                j = j + 1;
            }
            i = i + 1;
        }
        assert(all.take(all.len() as int) =~= all);
        best
    }

    /// Drops facts until the words are within the cap: inferred before stated
    /// before corrected, older before newer. Returns how many were dropped.
    pub fn clamp_to_cap(&mut self, cap: usize) -> (r: usize)
        requires
            old(self).wf(),
        ensures
            final(self).wf(),
            final(self)@ == clamped(old(self)@, cap).0,
            r == held(clamped(old(self)@, cap).1),
    {
        let mut removed: usize = 0;
        let ghost mut most: nat = fact_count(self@);
        let ghost mut gone: nat = 0;
        loop
            invariant
                self.wf(),
                fact_count(self@) <= most,
                removed == held(gone),
                clamped(old(self)@, cap).0 == evicted(self@, cap, most).0,
                clamped(old(self)@, cap).1 == evicted(self@, cap, most).1 + gone,
            decreases fact_count(self@),
        {
            if self.word_count() <= cap {
                return removed;
            }
            match self.next_to_go() {
                None => {
                    proof {
                        assert forall|p: (int, int)| !goes_next(self@, p) by {
                            if goes_next(self@, p) {
                                assert(is_fact(self@, p.0, p.1));
                            }
                        }
                    }
                    return removed;
                },
                Some(p) => {
                    let ghost before = self@;
                    let ghost at = (p.0 as int, p.1 as int);
                    assert(before[at.0] == self.sections@[at.0]@);
                    let section = self.sections[p.0].name.clone();
                    let text = self.sections[p.0].entries[p.1].text.clone();
                    proof {
                        lemma_goes_next_unique(before, at);
                        lemma_eviction_shrinks(before, at.0, at.1);
                    }
                    self.forget(section.as_str(), text.as_str());
                    removed = removed.saturating_add(1);
                    proof {
                        most = (most - 1) as nat;
                        gone = gone + 1;
                    }
                },
            }
        }
    }
}

/// The lines of a section.
fn render_facts(entries: &Vec<MemoryEntry>, mark_corrected: bool) -> (r: String)
    ensures
        r@ == fact_lines(seq_views(entries@), mark_corrected),
{
    let ghost all = seq_views(entries@);
    let mut out = String::new();
    let mut i: usize = 0;
    assert(all.take(0) =~= Seq::<EntryView>::empty());
    while i < entries.len()
        invariant
            i <= entries.len(),
            all == seq_views(entries@),
            out@ == fact_lines(all.take(i as int), mark_corrected),
        decreases entries.len() - i,
    {
        proof {
            assert(all.take(i + 1).drop_last() =~= all.take(i as int));
            assert(all.take(i + 1).last() == entries@[i as int]@);
        }
        let mut line = concat2("- ", entries[i].text.as_str());
        if mark_corrected && entries[i].source == FactSource::Corrected {
            line.append(" [corrected]");
        }
        line.append("\n");
        out.append(line.as_str());
        i = i + 1;
    }
    assert(all.take(all.len() as int) =~= all);
    out
}

} // verus!
