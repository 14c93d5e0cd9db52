//! What the pieces of a run do: prompt context, token counts, answers and tools.

use vstd::prelude::*;
use crate::harness::context::approx_tokens;
use crate::harness::context::assembled_text;
use crate::harness::context::AssembledContext;
use crate::harness::context::ContextAssembler;
use crate::harness::context::ContextSection;
use crate::harness::context::cut_titles;
use crate::harness::context::section_text;
use crate::harness::context::section_texts_of;
use crate::harness::context::SectionView;
use crate::harness::error::HarnessError;
use crate::harness::error::HarnessErrorView;
use crate::harness::llm::BlockView;
use crate::harness::llm::CompletionResponse;
use crate::harness::llm::first_call;
use crate::harness::llm::Message;
use crate::harness::llm::Role;
use crate::harness::llm::ToolSpec;
use crate::harness::llm::Usage;
use crate::harness::tool::offers;
use crate::harness::tool::Tool;
use crate::harness::tool::tool_at;
use crate::harness::tool::ToolRegistry;
use crate::json::Json;
use crate::text::joined;
use crate::text::lemma_lex_irreflexive;
use crate::text_laws::law_joined_holds_every_part;
use crate::views::result_view;
use crate::views::seq_views;

verus! {

/// A token stands for four characters, and a rest for one more.
pub proof fn law_approx_tokens(text: &str, r: usize)
    requires
        call_ensures(approx_tokens, (text,), r),
    ensures
        4 * r >= text@.len(),
        4 * r < text@.len() + 4,
{
}

/// Sections are rendered one after the other; one without content adds nothing,
/// and one that is larger than its budget is named among those that were cut.
pub proof fn law_sections_one_by_one(sections: Seq<SectionView>, s: SectionView)
    ensures
        section_texts_of(Seq::empty()).len() == 0,
        cut_titles(Seq::empty()).len() == 0,
        s.content.len() == 0 ==> section_texts_of(sections.push(s)) == section_texts_of(sections),
        s.content.len() > 0 && s.content.len() <= 4 * s.budget_tokens ==> section_texts_of(
            sections.push(s),
        ) == section_texts_of(sections).push("## "@ + s.title + "\n"@ + s.content),
        s.content.len() > 4 * s.budget_tokens ==> section_texts_of(sections.push(s))
            == section_texts_of(sections).push(
            "## "@ + s.title + "\n"@ + (s.content.take(4 * s.budget_tokens as int)
                + "\n…[truncated]"@),
        ),
        s.content.len() > 4 * s.budget_tokens ==> cut_titles(sections.push(s)) == cut_titles(
            sections,
        ).push(s.title),
        s.content.len() <= 4 * s.budget_tokens ==> cut_titles(sections.push(s)) == cut_titles(
            sections,
        ),
{
    assert(sections.push(s).drop_last() =~= sections);
}

/// Every section with content is among the rendered ones.
proof fn lemma_section_is_rendered(sections: Seq<SectionView>, i: int)
    requires
        0 <= i < sections.len(),
        sections[i].content.len() > 0,
    ensures
        section_texts_of(sections).contains(section_text(sections[i])),
        sections[i].content.len() > 4 * sections[i].budget_tokens ==> cut_titles(
            sections,
        ).contains(sections[i].title),
    decreases sections.len(),
{
    let before = sections.drop_last();
    if i < before.len() {
        assert(before[i] == sections[i]);
        lemma_section_is_rendered(before, i);
        let texts = section_texts_of(before);
        let k = choose|k: int| 0 <= k < texts.len() && texts[k] == section_text(sections[i]);
        assert(section_texts_of(sections)[k] == texts[k]);
        if sections[i].content.len() > 4 * sections[i].budget_tokens {
            let titles = cut_titles(before);
            let t = choose|t: int| 0 <= t < titles.len() && titles[t] == sections[i].title;
            assert(cut_titles(sections)[t] == titles[t]);
        }
    } else {
        assert(section_texts_of(sections).last() == section_text(sections[i]));
        if sections[i].content.len() > 4 * sections[i].budget_tokens {
            assert(cut_titles(sections).last() == sections[i].title);
        }
    }
}

/// A section with content stands in the prompt under its title, whole where its
/// budget allows it, and otherwise cut, marked and named as cut.
pub proof fn law_assemble(sections: &[ContextSection], r: AssembledContext, i: int)
    requires
        call_ensures(ContextAssembler::assemble, (sections,), r),
    ensures
        4 * r.approx_tokens >= r.text@.len(),
        4 * r.approx_tokens < r.text@.len() + 4,
        0 <= i < sections@.len() && 0 < sections@[i].content@.len() <= 4
            * sections@[i].budget_tokens ==> exists|a: Seq<char>, b: Seq<char>|
            r.text@ == #[trigger] (a + ("## "@ + sections@[i].title@ + "\n"@
                + sections@[i].content@) + b),
        0 <= i < sections@.len() && sections@[i].content@.len() > 4 * sections@[i].budget_tokens
            ==> seq_views(r.truncated_sections@).contains(sections@[i].title@) && exists|
            a: Seq<char>,
            b: Seq<char>,
        |
            r.text@ == #[trigger] (a + ("## "@ + sections@[i].title@ + "\n"@
                + (sections@[i].content@.take(4 * sections@[i].budget_tokens as int)
                + "\n…[truncated]"@)) + b),
{
    let all = seq_views(sections@);
    if 0 <= i < sections@.len() && sections@[i].content@.len() > 0 {
        lemma_section_is_rendered(all, i);
        let texts = section_texts_of(all);
        let k = choose|k: int| 0 <= k < texts.len() && texts[k] == section_text(all[i]);
        law_joined_holds_every_part(texts, "\n\n"@, k);
        assert(assembled_text(all) == joined(texts, "\n\n"@));
    }
}

/// Tokens add up, and stop at the largest count.
pub proof fn law_usage_add(usage: &mut Usage, other: &Usage)
    requires
        call_ensures(Usage::add, (usage, other), ()),
    ensures
        old(usage).input_tokens + other.input_tokens <= u64::MAX ==> final(usage).input_tokens
            == old(usage).input_tokens + other.input_tokens,
        old(usage).output_tokens + other.output_tokens <= u64::MAX ==> final(usage).output_tokens
            == old(usage).output_tokens + other.output_tokens,
        old(usage).input_tokens + other.input_tokens > u64::MAX ==> final(usage).input_tokens
            == u64::MAX,
        old(usage).output_tokens + other.output_tokens > u64::MAX ==> final(usage).output_tokens
            == u64::MAX,
{
}

/// A text of the user is one block in the user's name.
pub proof fn law_user_text(text: String, r: Message)
    requires
        call_ensures(Message::user_text, (text,), r),
    ensures
        r.role == Role::User,
        r@.content.len() == 1,
        r@.content[0] == (BlockView::Text { text: text@ }),
{
}

/// The block calls the tool.
pub open spec fn calls(block: BlockView, tool: Seq<char>) -> bool {
    block matches BlockView::ToolUse { name, .. } && name == tool
}

/// The block is the first that calls the tool.
pub open spec fn calls_first(content: Seq<BlockView>, i: int, tool: Seq<char>) -> bool {
    &&& 0 <= i < content.len()
    &&& calls(content[i], tool)
    &&& forall|j: int| 0 <= j < i ==> !calls(#[trigger] content[j], tool)
}

/// The first call of a tool in an answer is found by its name.
pub proof fn law_first_call(content: Seq<BlockView>, tool: Seq<char>)
    ensures
        match first_call(content, tool) {
            Some(input) => exists|i: int| #[trigger]
                calls_first(content, i, tool) && content[i]->input == input,
            None => forall|j: int| 0 <= j < content.len() ==> !calls(#[trigger] content[j], tool),
        },
    decreases content.len(),
{
    if content.len() > 0 {
        let rest = content.drop_first();
        law_first_call(rest, tool);
        assert forall|j: int| 0 <= j < rest.len() implies #[trigger] rest[j] == content[j + 1] by {}
        if calls(content[0], tool) {
            assert(calls_first(content, 0, tool));
        } else {
            assert(first_call(content, tool) == first_call(rest, tool));
            match first_call(rest, tool) {
                Some(input) => {
                    let i = choose|i: int| #[trigger]
                        calls_first(rest, i, tool) && rest[i]->input == input;
                    assert forall|j: int| 0 <= j < i + 1 implies !calls(
                        #[trigger] content[j],
                        tool,
                    ) by {
                        if j > 0 {
                            assert(rest[j - 1] == content[j]);
                        }
                    }
                    assert(calls_first(content, i + 1, tool));
                },
                None => {
                    assert forall|j: int| 0 <= j < content.len() implies !calls(
                        #[trigger] content[j],
                        tool,
                    ) by {
                        if j > 0 {
                            assert(rest[j - 1] == content[j]);
                        }
                    }
                },
            }
        }
    }
}

/// Finding a call in an answer.
pub proof fn law_find_call(resp: &CompletionResponse, tool: &str, r: Option<&Json>)
    requires
        call_ensures(CompletionResponse::find_call, (resp, tool), r),
    ensures
        match r {
            Some(input) => exists|i: int| #[trigger]
                calls_first(resp@.content, i, tool@) && resp@.content[i]->input == input@,
            None => forall|j: int|
                0 <= j < resp@.content.len() ==> !calls(#[trigger] resp@.content[j], tool@),
        },
{
    law_first_call(resp@.content, tool@);
}

/// A tool that is registered is there, and every tool of another name stays.
pub proof fn law_register<T: Tool>(registry: &mut ToolRegistry<T>, tool: T, other: T)
    requires
        old(registry).wf(),
        call_ensures(ToolRegistry::<T>::register, (registry, tool), ()),
    ensures
        final(registry)@.contains(tool),
        other.offered().name != tool.offered().name ==> (final(registry)@.contains(other)
            <==> old(registry)@.contains(other)),
        forall|i: int, j: int|
            0 <= i < j < final(registry)@.len() ==> (#[trigger] final(registry)@[i]).offered().name
                != (#[trigger] final(registry)@[j]).offered().name,
{
    let before = old(registry)@;
    let after = final(registry)@;
    let name = tool.offered().name;
    if exists|i: int| #[trigger] tool_at(before, i, name) && after == before.update(i, tool) {
        let i = choose|i: int| #[trigger]
            tool_at(before, i, name) && after == before.update(i, tool);
        assert(after[i] == tool);
        if before.contains(other) && other.offered().name != name {
            let k = choose|k: int| 0 <= k < before.len() && before[k] == other;
            assert(after[k] == other);
        }
        if after.contains(other) && other.offered().name != name {
            let k = choose|k: int| 0 <= k < after.len() && after[k] == other;
            assert(before[k] == other);
        }
    } else {
        let i = choose|i: int| 0 <= i <= before.len() && after == #[trigger] before.insert(i, tool);
        assert(after[i] == tool);
        if before.contains(other) {
            let k = choose|k: int| 0 <= k < before.len() && before[k] == other;
            if k < i {
                assert(after[k] == other);
            } else {
                assert(after[k + 1] == other);
            }
        }
        if after.contains(other) && other.offered().name != name {
            let k = choose|k: int| 0 <= k < after.len() && after[k] == other;
            if k < i {
                assert(before[k] == other);
            } else {
                assert(before[k - 1] == other);
            }
        }
    }
    assert forall|i: int, j: int| 0 <= i < j < after.len() implies (
    #[trigger] after[i]).offered().name != (#[trigger] after[j]).offered().name by {
        lemma_lex_irreflexive(after[i].offered().name);
    }
}

/// Every tool is offered as it describes itself.
pub proof fn law_specs<T: Tool>(registry: &ToolRegistry<T>, r: Vec<ToolSpec>, i: int)
    requires
        call_ensures(ToolRegistry::<T>::specs, (registry,), r),
    ensures
        r@.len() == registry@.len(),
        0 <= i < r@.len() ==> r@[i]@ == registry@[i].offered(),
{
    assert(seq_views(r@).len() == offers(registry@).len());
    if 0 <= i < r@.len() {
        assert(seq_views(r@)[i] == offers(registry@)[i]);
    }
}

/// A call reaches the tool of that name and no other. A name that no tool has is
/// an error, and nothing happens.
pub proof fn law_execute<T: Tool>(
    registry: &mut ToolRegistry<T>,
    env: &mut T::Env,
    name: &str,
    input: &Json,
    r: Result<String, HarnessError>,
)
    requires
        old(registry).wf(),
        call_ensures(ToolRegistry::<T>::execute, (registry, env, name, input), r),
    ensures
        (forall|i: int|
            0 <= i < old(registry)@.len() ==> (#[trigger] old(registry)@[i]).offered().name
                != name@) ==> final(registry)@ == old(registry)@ && *final(env) == *old(env)
            && result_view(r) == Err::<Seq<char>, HarnessErrorView>(
            HarnessErrorView::UnknownTool(name@),
        ),
        forall|i: int|
            0 <= i < old(registry)@.len() && (#[trigger] old(registry)@[i]).offered().name == name@
                ==> T::runs(
                old(registry)@[i],
                *old(env),
                input@,
                final(registry)@[i],
                *final(env),
                result_view(r),
            ),
        final(registry)@.len() == old(registry)@.len(),
        forall|j: int|
            0 <= j < old(registry)@.len() && (#[trigger] old(registry)@[j]).offered().name != name@
                ==> final(registry)@[j] == old(registry)@[j],
{
    let before = old(registry)@;
    let after = final(registry)@;
    if forall|i: int| 0 <= i < before.len() ==> (#[trigger] before[i]).offered().name != name@ {
        assert forall|i: int| !tool_at(before, i, name@) by {
            if 0 <= i < before.len() {
                assert(before[i].offered().name != name@);
            }
        }
    } else {
        let k = choose|k: int|
            0 <= k < before.len() && (#[trigger] before[k]).offered().name == name@;
        assert(tool_at(before, k, name@));
        assert forall|i: int|
            0 <= i < before.len() && (#[trigger] before[i]).offered().name == name@ implies i
            == k by {
            lemma_lex_irreflexive(name@);
        }
        assert forall|i: int| tool_at(before, i, name@) implies i == k by {
            assert(before[i].offered().name == name@);
        }
    }
}

} // verus!
