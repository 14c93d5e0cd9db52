//! What the agent's memory tool does, said of its input and the memory.

use vstd::prelude::*;
use crate::harness::error::HarnessError;
use crate::harness::memory::FactSource;
use crate::harness::memory::Memory;
use crate::harness::memory::model::facts_of;
use crate::harness::memory::model::forgotten;
use crate::harness::memory::model::remembered;
use crate::harness::memory::store::MemoryStore;
use crate::harness::memory::tool::source_of;
use crate::harness::memory::tool::UpdateMemoryTool;
use crate::json::Json;
use crate::json::JsonView;

verus! {

/// The input says this text under the key.
pub open spec fn told(input: JsonView, key: Seq<char>, text: Seq<char>) -> bool {
    input.get(key) == Some(JsonView::Str(text))
}

/// The input says nothing under the key.
pub open spec fn untold(input: JsonView, key: Seq<char>) -> bool {
    forall|text: Seq<char>| !told(input, key, text)
}

/// The three sources have their names. An input that names none infers, and
/// another name is refused.
pub proof fn law_source_is_named(input: JsonView)
    ensures
        told(input, "source"@, "corrected"@) <==> source_of(input) == Ok::<FactSource, Seq<char>>(
            FactSource::Corrected,
        ),
        told(input, "source"@, "stated"@) <==> source_of(input) == Ok::<FactSource, Seq<char>>(
            FactSource::Stated,
        ),
        untold(input, "source"@) || told(input, "source"@, "inferred"@) <==> source_of(input)
            == Ok::<FactSource, Seq<char>>(FactSource::Inferred),
{
    reveal_strlit("corrected");
    reveal_strlit("stated");
    reveal_strlit("inferred");
    assert("corrected"@.len() == 9 && "stated"@.len() == 6 && "inferred"@.len() == 8);
    match input.get("source"@) {
        Some(JsonView::Str(s)) => {
            assert(told(input, "source"@, s));
        },
        _ => {},
    }
}

/// The memory tool remembers what it is told to remember and forgets what it is
/// told to forget, and refuses everything else. A refusal changes nothing and is
/// not saved; anything else is saved.
pub proof fn law_update_memory<M: MemoryStore>(
    tool: &UpdateMemoryTool,
    memory: &mut Memory,
    store: &mut M,
    input: &Json,
    now: u64,
    r: Result<String, HarnessError>,
    section: Seq<char>,
    text: Seq<char>,
)
    requires
        old(memory).wf(),
        call_ensures(UpdateMemoryTool::execute_at::<M>, (tool, memory, store, input, now), r),
        told(input@, "section"@, section),
        told(input@, "text"@, text),
    ensures
        ({
            let m = old(memory)@;
            let w = final(memory)@;
            let facts = facts_of(m, section);
            let known = exists|i: int| 0 <= i < facts.len() && (#[trigger] facts[i]).text == text;
            let saved = final(store).saves().len() == old(store).saves().len() + 1
                && final(store).saves().last().memory == w;
            let refused = r is Err && w == m && final(store).saves() == old(store).saves();
            &&& source_of(input@) is Err ==> refused
            &&& untold(input@, "op"@) ==> refused
            &&& forall|op: Seq<char>| #[trigger]
                told(input@, "op"@, op) && op != "remember"@ && op != "forget"@ ==> refused
            &&& told(input@, "op"@, "forget"@) && !known ==> refused
            &&& told(input@, "op"@, "forget"@) && known && source_of(input@) is Ok ==> saved && (
            r is Ok <==> final(store).saves().last().outcome is Ok) && w
                == forgotten(m, section, text)
            &&& told(input@, "op"@, "remember"@) && source_of(input@) is Ok ==> saved && (r is Ok
                <==> final(store).saves().last().outcome is Ok) && w
                == remembered(
                m,
                section,
                text,
                now,
                source_of(input@)->Ok_0,
                tool.session(),
            )
        }),
{
    reveal_strlit("remember");
    reveal_strlit("forget");
    assert("remember"@.len() == 8 && "forget"@.len() == 6);
    match input@.get("op"@) {
        Some(JsonView::Str(op)) => {
            assert(told(input@, "op"@, op));
        },
        _ => {},
    }
}

/// Without a section or a text there is nothing to remember or forget.
pub proof fn law_update_memory_needs_its_words<M: MemoryStore>(
    tool: &UpdateMemoryTool,
    memory: &mut Memory,
    store: &mut M,
    input: &Json,
    now: u64,
    r: Result<String, HarnessError>,
)
    requires
        old(memory).wf(),
        call_ensures(UpdateMemoryTool::execute_at::<M>, (tool, memory, store, input, now), r),
        untold(input@, "section"@) || untold(input@, "text"@) || untold(input@, "op"@),
    ensures
        r is Err,
        final(memory)@ == old(memory)@,
        final(store).saves() == old(store).saves(),
{
    match input@.get("op"@) {
        Some(JsonView::Str(s)) => {
            assert(told(input@, "op"@, s));
        },
        _ => {},
    }
    match input@.get("section"@) {
        Some(JsonView::Str(s)) => {
            assert(told(input@, "section"@, s));
        },
        _ => {},
    }
    match input@.get("text"@) {
        Some(JsonView::Str(s)) => {
            assert(told(input@, "text"@, s));
        },
        _ => {},
    }
}

} // verus!
