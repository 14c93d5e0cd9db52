//! The tool with which an agent learns and forgets facts while it works.

use vstd::prelude::*;
use crate::clock::Clock;
use crate::harness::error::HarnessError;
use crate::harness::error::HarnessErrorView;
use crate::harness::llm::ToolSpecView;
use crate::harness::memory::FactSource;
use crate::harness::memory::Memory;
use crate::harness::memory::MemorySectionView;
use crate::harness::memory::model::facts_of;
use crate::harness::memory::model::forgotten;
use crate::harness::memory::model::remembered;
use crate::harness::memory::store::MemoryStore;
use crate::harness::memory::store::SaveView;
use crate::harness::tool::schema_of;
use crate::harness::tool::schema_view;
use crate::json::Json;
use crate::json::JsonView;
use crate::text::concat2;
use crate::text::text_eq;
use crate::views::copy_option;
use crate::views::option_view;
use crate::views::result_view;
use crate::views::seq_views;

verus! {

/// The name of the tool.
pub const UPDATE_MEMORY: &'static str = "update_memory";

/// Learns or forgets one fact at a time. Every change is saved at once.
#[derive(Clone, Debug)]
pub struct UpdateMemoryTool {
    clock: Clock,
    session: Option<String>,
}

/// The source that an input names: inferred unless it says otherwise.
pub open spec fn source_of(input: JsonView) -> Result<FactSource, Seq<char>> {
    match input.get_text("source"@) {
        None => Ok(FactSource::Inferred),
        Some(s) => if s == "inferred"@ {
            Ok(FactSource::Inferred)
        } else if s == "stated"@ {
            Ok(FactSource::Stated)
        } else if s == "corrected"@ {
            Ok(FactSource::Corrected)
        } else {
            Err("unknown source: "@ + s)
        },
    }
}

/// There is a fact with this text.
pub open spec fn is_known(m: Seq<MemorySectionView>, section: Seq<char>, text: Seq<char>) -> bool {
    exists|i: int|
        0 <= i < facts_of(m, section).len() && (#[trigger] facts_of(m, section)[i]).text == text
}

/// What an input does to a memory: the memory after it, and the answer or why
/// the input is refused. A refused input changes nothing.
pub open spec fn memory_change(
    m: Seq<MemorySectionView>,
    input: JsonView,
    now: u64,
    session: Option<Seq<char>>,
) -> (Seq<MemorySectionView>, Result<Seq<char>, Seq<char>>) {
    match (input.get_text("op"@), input.get_text("section"@), input.get_text("text"@)) {
        (None, _, _) => (m, Err("missing 'op'"@)),
        (Some(_), None, _) => (m, Err("missing 'section'"@)),
        (Some(_), Some(_), None) => (m, Err("missing 'text'"@)),
        (Some(op), Some(section), Some(text)) => match source_of(input) {
            Err(e) => (m, Err(e)),
            Ok(source) => if op == "remember"@ {
                (
                    remembered(m, section, text, now, source, session),
                    Ok("remembered in "@ + section + ": "@ + text),
                )
            } else if op == "forget"@ {
                if is_known(m, section, text) {
                    (forgotten(m, section, text), Ok("forgot from "@ + section + ": "@ + text))
                } else {
                    (m, Err("no entry in "@ + section + " matching: "@ + text))
                }
            } else {
                (m, Err("unknown op: "@ + op))
            },
        },
    }
}

/// Whether there is a fact with this text.
fn has_fact(memory: &Memory, section: &str, text: &str) -> (r: bool)
    ensures
        r == is_known(memory@, section@, text@),
{
    let entries = match memory.section(section) {
        Some(entries) => entries,
        None => {
            return false;
        },
    };
    let ghost facts = facts_of(memory@, section@);
    let mut i: usize = 0;
    while i < entries.len()
        invariant
            i <= entries.len(),
            facts == facts_of(memory@, section@),
            facts == seq_views(entries@),
            forall|j: int| 0 <= j < i ==> (#[trigger] facts[j]).text != text@,
        decreases entries.len() - i,
    {
        assert(facts[i as int] == entries@[i as int]@);
        if text_eq(entries[i].text.as_str(), text) {
            return true;
        }
        i = i + 1;
    }
    false
}

/// A refused input changes neither the memory nor what the store has kept, and
/// every accepted one hands the store the memory as it is then.
pub proof fn law_only_what_is_saved_changes(
    m: Seq<MemorySectionView>,
    saves: Seq<SaveView>,
    input: JsonView,
    now: u64,
    session: Option<Seq<char>>,
    m_after: Seq<MemorySectionView>,
    saves_after: Seq<SaveView>,
    result: Result<Seq<char>, HarnessErrorView>,
)
    requires
        memory_updated(m, saves, input, now, session, m_after, saves_after, result),
    ensures
        saves_after == saves ==> m_after == m && result is Err,
        saves_after != saves ==> saves_after.len() == saves.len() + 1 && saves_after.last().memory
            == m_after && saves_after.drop_last() == saves,
{
    match memory_change(m, input, now, session).1 {
        Ok(_) => {
            assert(saves_after.drop_last() =~= saves);
        },
        Err(_) => {},
    }
}

/// A failure of the tool.
pub open spec fn update_error(message: Seq<char>) -> HarnessErrorView {
    HarnessErrorView::Tool { name: UPDATE_MEMORY@, message }
}

/// What one run of the tool does: a refused input is not saved, an accepted one
/// changes the memory and hands it to the store. The answer is a success exactly
/// when the store kept it.
pub open spec fn memory_updated(
    m: Seq<MemorySectionView>,
    saves: Seq<SaveView>,
    input: JsonView,
    now: u64,
    session: Option<Seq<char>>,
    m_after: Seq<MemorySectionView>,
    saves_after: Seq<SaveView>,
    result: Result<Seq<char>, HarnessErrorView>,
) -> bool {
    let (changed, answer) = memory_change(m, input, now, session);
    &&& m_after == changed
    &&& match answer {
        Err(message) => {
            &&& saves_after == saves
            &&& result == Err::<Seq<char>, HarnessErrorView>(update_error(message))
        },
        Ok(answer) => {
            &&& saves_after.len() == saves.len() + 1
            &&& saves_after == saves.push(
                SaveView { memory: changed, outcome: saves_after.last().outcome },
            )
            &&& result == match saves_after.last().outcome {
                Ok(_) => Ok::<Seq<char>, HarnessErrorView>(answer),
                Err(e) => Err(e),
            }
        },
    }
}

/// The schema of the tool's input, as JSON text.
pub const UPDATE_MEMORY_SCHEMA: &'static str = "{\"type\":\"object\",\"properties\":{\"op\":{\"type\":\"string\",\"enum\":[\"remember\",\"forget\"]},\"section\":{\"type\":\"string\",\"description\":\"e.g. vocabulary, people, projects, preferences\"},\"text\":{\"type\":\"string\",\"description\":\"one short fact\"},\"source\":{\"type\":\"string\",\"enum\":[\"stated\",\"inferred\",\"corrected\"],\"description\":\"how you know this; default inferred\"}},\"required\":[\"op\",\"section\",\"text\"]}";

/// What the tool is for, in words for the model.
pub const UPDATE_MEMORY_DESCRIPTION: &'static str = "Remember or forget one fact about the user, their people, projects, vocabulary, or preferences. Use for corrections and durable facts, not session content.";

/// How the tool is offered to the model.
pub open spec fn update_memory_offer() -> ToolSpecView {
    ToolSpecView {
        name: UPDATE_MEMORY@,
        description: UPDATE_MEMORY_DESCRIPTION@,
        input_schema: schema_view(UPDATE_MEMORY_SCHEMA@),
    }
}

/// Joins two texts around a separator, behind a lead.
fn sentence(lead: &str, a: &str, sep: &str, b: &str) -> (r: String)
    ensures
        r@ == lead@ + a@ + sep@ + b@,
{
    let mut out = concat2(lead, a);
    out.append(sep);
    out.append(b);
    out
}

/// Reads the source that an input names.
fn read_source(input: &Json) -> (r: Result<FactSource, String>)
    ensures
        match r {
            Ok(s) => source_of(input@) == Ok::<FactSource, Seq<char>>(s),
            Err(e) => source_of(input@) == Err::<FactSource, Seq<char>>(e@),
        },
{
    match input.get_str("source") {
        None => Ok(FactSource::Inferred),
        Some(s) => if text_eq(s, "inferred") {
            Ok(FactSource::Inferred)
        } else if text_eq(s, "stated") {
            Ok(FactSource::Stated)
        } else if text_eq(s, "corrected") {
            Ok(FactSource::Corrected)
        } else {
            Err(concat2("unknown source: ", s))
        },
    }
}

impl UpdateMemoryTool {
    /// The clock that dates the facts.
    pub closed spec fn clock(self) -> Clock {
        self.clock
    }

    /// The session that the facts are tagged with.
    pub closed spec fn session(self) -> Option<Seq<char>> {
        option_view(self.session)
    }

    /// A tool that dates facts by the machine's clock.
    pub fn new() -> (r: UpdateMemoryTool)
        ensures
            r.clock() == Clock::System,
            r.session() is None,
    {
        Self::with_clock(Clock::System)
    }

    /// A tool that dates facts by this clock.
    pub fn with_clock(clock: Clock) -> (r: UpdateMemoryTool)
        ensures
            r.clock() == clock,
            r.session() is None,
    {
        UpdateMemoryTool { clock, session: None }
    }

    /// Tags every fact that the tool records with a session.
    pub fn for_session(self, id: String) -> (r: UpdateMemoryTool)
        ensures
            r.clock() == self.clock(),
            r.session() == Some(id@),
    {
        UpdateMemoryTool { clock: self.clock, session: Some(id) }
    }

    /// The name that the model calls.
    pub fn name(&self) -> (r: &'static str)
        ensures
            r@ == update_memory_offer().name,
    {
        UPDATE_MEMORY
    }

    /// What the tool is for, in words for the model.
    pub fn description(&self) -> (r: &'static str)
        ensures
            r@ == update_memory_offer().description,
    {
        UPDATE_MEMORY_DESCRIPTION
    }

    /// The JSON schema of the input.
    pub fn input_schema(&self) -> (r: Json)
        ensures
            r@ == update_memory_offer().input_schema,
    {
        schema_of(UPDATE_MEMORY_SCHEMA)
    }

    /// A failure of the tool.
    fn err(message: String) -> (r: HarnessError)
        ensures
            r@ == update_error(message@),
    {
        HarnessError::tool(UPDATE_MEMORY, message)
    }

    /// Changes a memory as the input says, at a given time.
    fn change(&self, memory: &mut Memory, input: &Json, now: u64) -> (r: Result<String, String>)
        requires
            old(memory).wf(),
        ensures
            final(memory).wf(),
            (final(memory)@, result_view(r)) == memory_change(
                old(memory)@,
                input@,
                now,
                self.session(),
            ),
    {
        let op = match input.get_str("op") {
            Some(s) => s,
            None => {
                return Err("missing 'op'".to_string());
            },
        };
        let section = match input.get_str("section") {
            Some(s) => s,
            None => {
                return Err("missing 'section'".to_string());
            },
        };
        let text = match input.get_str("text") {
            Some(s) => s,
            None => {
                return Err("missing 'text'".to_string());
            },
        };
        let source = match read_source(input) {
            Ok(s) => s,
            Err(e) => {
                return Err(e);
            },
        };
        if text_eq(op, "remember") {
            memory.remember_from(section, text, now, source, copy_option(&self.session));
            Ok(sentence("remembered in ", section, ": ", text))
        } else {
            if text_eq(op, "forget") {
                if has_fact(memory, section, text) {
                    memory.forget(section, text);
                    Ok(sentence("forgot from ", section, ": ", text))
                } else {
                    Err(sentence("no entry in ", section, " matching: ", text))
                }
            } else {
                Err(concat2("unknown op: ", op))
            }
        }
    }

    /// Runs the tool at a given time.
    pub fn execute_at<M: MemoryStore>(
        &self,
        memory: &mut Memory,
        store: &mut M,
        input: &Json,
        now: u64,
    ) -> (r: Result<String, HarnessError>)
        requires
            old(memory).wf(),
        ensures
            final(memory).wf(),
            memory_updated(
                old(memory)@,
                old(store).saves(),
                input@,
                now,
                self.session(),
                final(memory)@,
                final(store).saves(),
                result_view(r),
            ),
    {
        match self.change(memory, input, now) {
            Err(message) => Err(Self::err(message)),
            Ok(answer) => match store.save(memory) {
                Ok(_) => Ok(answer),
                Err(e) => Err(e),
            },
        }
    }

    /// Runs the tool: `op` remembers or forgets the fact `text` in `section`.
    pub fn execute<M: MemoryStore>(
        &self,
        memory: &mut Memory,
        store: &mut M,
        input: &Json,
    ) -> (r: Result<String, HarnessError>)
        requires
            old(memory).wf(),
        ensures
            final(memory).wf(),
            exists|now: u64| #[trigger]
                self.clock().shows(now) && memory_updated(
                    old(memory)@,
                    old(store).saves(),
                    input@,
                    now,
                    self.session(),
                    final(memory)@,
                    final(store).saves(),
                    result_view(r),
                ),
    {
        let now: u64 = self.clock.read();
        self.execute_at(memory, store, input, now)
    }
}

} // verus!
