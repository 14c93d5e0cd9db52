//! What a reflection asks and what comes of the answer.

use vstd::prelude::*;
use crate::harness::agent::RunError;
use crate::harness::error::HarnessError;
use crate::harness::llm::BlockView;
use crate::harness::llm::CompletionRequest;
use crate::harness::llm::CompletionResponse;
use crate::harness::memory::EntryView;
use crate::harness::memory::FactSource;
use crate::harness::memory::Memory;
use crate::harness::memory::MemorySectionView;
use crate::harness::memory::model::fact_index;
use crate::harness::memory::model::facts_of;
use crate::harness::memory::model::learned_fact;
use crate::harness::memory::model::lemma_fact_index;
use crate::harness::memory::model::lemma_with_facts;
use crate::harness::memory::model::memory_prompt;
use crate::harness::memory::model::remembered;
use crate::harness::memory::model::sections_in_order;
use crate::harness::memory::tool::is_known;
use crate::harness::reflection::churn::churn_between;
use crate::harness::reflection::churn::churn_of;
use crate::harness::reflection::churn::fact_keys;
use crate::harness::reflection::engine::activity_block;
use crate::harness::reflection::engine::activity_lines;
use crate::harness::reflection::engine::origin;
use crate::harness::reflection::engine::rebuilt;
use crate::harness::reflection::engine::reflection;
use crate::harness::reflection::engine::ReflectionEngine;
use crate::harness::reflection::engine::ReflectionOutcome;
use crate::harness::reflection::engine::sections_in;
use crate::harness::reflection::engine::with_texts;
use crate::harness::reflection::engine::written_sections;
use crate::harness::reflection::laws::lemma_fact_keys_finite;
use crate::json::JsonView;
use crate::ratio::Ratio;
use crate::text::decimal;
use crate::text_laws::law_joined_holds_every_part;
use crate::views::result_view;
use crate::views::seq_views;

verus! {

/// The facts that one of two memories has and the other has not.
pub open spec fn moved_facts(a: Seq<MemorySectionView>, b: Seq<MemorySectionView>) -> Set<
    (Seq<char>, Seq<char>),
> {
    Set::new(|k: (Seq<char>, Seq<char>)| fact_keys(a).contains(k) != fact_keys(b).contains(k))
}

/// The churn is the share of facts that came or went, over the facts before and
/// after together. It does not depend on the direction.
pub proof fn law_churn_between(old_memory: &Memory, new_memory: &Memory, r: Ratio, back: Ratio)
    requires
        old_memory.wf(),
        new_memory.wf(),
        call_ensures(churn_between, (old_memory, new_memory), r),
        call_ensures(churn_between, (new_memory, old_memory), back),
        fact_keys(old_memory@).len() + fact_keys(new_memory@).len() <= u64::MAX,
    ensures
        ({
            let whole = fact_keys(old_memory@).len() + fact_keys(new_memory@).len();
            let part = moved_facts(old_memory@, new_memory@).len();
            &&& whole > 0 ==> r.num == part && r.den == whole
            &&& whole == 0 ==> r.num == 0 && r.den > 0
        }),
        r == back,
{
    let a = fact_keys(old_memory@);
    let b = fact_keys(new_memory@);
    lemma_fact_keys_finite(old_memory@);
    lemma_fact_keys_finite(new_memory@);
    let came = b.difference(a);
    let went = a.difference(b);
    vstd::set_lib::lemma_len_subset(came, b);
    vstd::set_lib::lemma_len_subset(went, a);
    assert(moved_facts(old_memory@, new_memory@) =~= came + went);
    vstd::set_lib::lemma_set_disjoint_lens(came, went);
}

/// The block is the first that writes sections.
pub open spec fn writes_first(content: Seq<BlockView>, i: int) -> bool {
    &&& 0 <= i < content.len()
    &&& writes(content[i])
    &&& forall|j: int| 0 <= j < i ==> !writes(#[trigger] content[j])
}

/// The block is a call of `write_memory` with an object of sections.
pub open spec fn writes(block: BlockView) -> bool {
    block matches BlockView::ToolUse { name, input, .. } && name == "write_memory"@ && (input.get(
        "sections"@,
    ) matches Some(JsonView::Object(_)))
}

/// The sections of an answer are those of the first block that writes any.
pub proof fn law_written_sections(content: Seq<BlockView>)
    ensures
        match written_sections(content) {
            Some(fields) => exists|i: int| #[trigger]
                writes_first(content, i) && content[i]->input.get("sections"@) == Some(
                    JsonView::Object(fields),
                ),
            None => forall|j: int| 0 <= j < content.len() ==> !writes(#[trigger] content[j]),
        },
    decreases content.len(),
{
    if content.len() > 0 {
        let rest = content.drop_first();
        law_written_sections(rest);
        assert forall|j: int| 0 <= j < rest.len() implies #[trigger] rest[j] == content[j + 1] by {}
        assert(writes(content[0]) <==> sections_in(content[0]) is Some);
        if writes(content[0]) {
            assert(writes_first(content, 0));
        } else {
            match written_sections(rest) {
                Some(fields) => {
                    let i = choose|i: int| #[trigger]
                        writes_first(rest, i) && rest[i]->input.get("sections"@) == Some(
                            JsonView::Object(fields),
                        );
                    assert forall|j: int| 0 <= j < i + 1 implies !writes(#[trigger] content[j]) by {
                        if j > 0 {
                            assert(rest[j - 1] == content[j]);
                        }
                    }
                    assert(writes_first(content, i + 1));
                },
                None => {
                    assert forall|j: int| 0 <= j < content.len() implies !writes(
                        #[trigger] content[j],
                    ) by {
                        if j > 0 {
                            assert(rest[j - 1] == content[j]);
                        }
                    }
                },
            }
        }
    }
}

/// A fact that was known keeps its history, word for word; any other is inferred
/// now.
pub proof fn law_origin(current: Seq<MemorySectionView>, section: Seq<char>, text: Seq<char>, now: u64)
    ensures
        ({
            let facts = facts_of(current, section);
            let e = origin(current, section, text, now);
            &&& e.text == text
            &&& facts.contains(e) || e == (EntryView {
                text,
                last_touched: now,
                source: FactSource::Inferred,
                session: None,
            })
            &&& (exists|i: int| 0 <= i < facts.len() && (#[trigger] facts[i]).text == text)
                ==> facts.contains(e)
        }),
{
    let facts = facts_of(current, section);
    lemma_fact_index(facts, text);
}

/// A fact that is learned is known then, as is every fact that was known before,
/// and no other.
proof fn lemma_learned_is_known(
    m: Seq<MemorySectionView>,
    section: Seq<char>,
    text: Seq<char>,
    now: u64,
    source: FactSource,
    session: Option<Seq<char>>,
    s: Seq<char>,
    t: Seq<char>,
)
    requires
        sections_in_order(m),
    ensures
        sections_in_order(remembered(m, section, text, now, source, session)),
        is_known(remembered(m, section, text, now, source, session), s, t) <==> is_known(m, s, t)
            || (s == section && t == text),
{
    let before = facts_of(m, section);
    let target = learned_fact(before, text, now, source, session);
    let after = remembered(m, section, text, now, source, session);
    lemma_with_facts(m, section, target);
    lemma_fact_index(before, text);
    let i = fact_index(before, text) as int;
    assert(facts_of(after, section) == target);
    if s == section {
        if t == text {
            assert(target[i].text == t);
            assert(facts_of(after, s)[i].text == t);
        }
        if is_known(m, s, t) {
            let k = choose|k: int|
                0 <= k < facts_of(m, s).len() && (#[trigger] facts_of(m, s)[k]).text == t;
            assert(target[k].text == t);
            assert(facts_of(after, s)[k].text == t);
        }
        if is_known(after, s, t) && t != text {
            let k = choose|k: int|
                0 <= k < facts_of(after, s).len() && (#[trigger] facts_of(after, s)[k]).text == t;
            assert(target[k].text == t);
            assert(k < before.len());
            assert(facts_of(m, s)[k].text == t);
        }
    } else {
        assert(facts_of(after, s) == facts_of(m, s));
    }
}

proof fn lemma_texts_are_known(
    m: Seq<MemorySectionView>,
    current: Seq<MemorySectionView>,
    section: Seq<char>,
    texts: Seq<JsonView>,
    now: u64,
    s: Seq<char>,
    t: Seq<char>,
)
    requires
        sections_in_order(m),
    ensures
        sections_in_order(with_texts(m, current, section, texts, now)),
        is_known(with_texts(m, current, section, texts, now), s, t) <==> is_known(m, s, t) || (s
            == section && texts.contains(JsonView::Str(t))),
    decreases texts.len(),
{
    if texts.len() > 0 {
        let before = with_texts(m, current, section, texts.drop_last(), now);
        lemma_texts_are_known(m, current, section, texts.drop_last(), now, s, t);
        let part = texts.drop_last();
        assert(part.contains(JsonView::Str(t)) || texts.last() == JsonView::Str(t)
            <==> texts.contains(JsonView::Str(t))) by {
            if texts.contains(JsonView::Str(t)) {
                let k = choose|k: int| 0 <= k < texts.len() && texts[k] == JsonView::Str(t);
                if k < part.len() {
                    assert(part[k] == JsonView::Str(t));
                }
            }
            if part.contains(JsonView::Str(t)) {
                let k = choose|k: int| 0 <= k < part.len() && part[k] == JsonView::Str(t);
                assert(texts[k] == JsonView::Str(t));
            }
        }
        match texts.last() {
            JsonView::Str(text) => {
                let e = origin(current, section, text, now);
                lemma_learned_is_known(
                    before,
                    section,
                    text,
                    e.last_touched,
                    e.source,
                    e.session,
                    s,
                    t,
                );
            },
            _ => {},
        }
    } else {
        assert(!texts.contains(JsonView::Str(t)));
    }
}

/// The section says the text: it has the name, is a list, and the text is in it.
pub open spec fn section_says(field: (Seq<char>, JsonView), s: Seq<char>, t: Seq<char>) -> bool {
    field.0 == s && (field.1 matches JsonView::Array(texts) && texts.contains(JsonView::Str(t)))
}

/// The rewritten memory knows what the written sections say, and nothing else.
pub proof fn law_rebuilt_says_what_was_written(
    current: Seq<MemorySectionView>,
    sections: Seq<(Seq<char>, JsonView)>,
    now: u64,
    s: Seq<char>,
    t: Seq<char>,
)
    ensures
        sections_in_order(rebuilt(current, sections, now)),
        is_known(rebuilt(current, sections, now), s, t) <==> exists|i: int|
            0 <= i < sections.len() && section_says(#[trigger] sections[i], s, t),
    decreases sections.len(),
{
    if sections.len() > 0 {
        let part = sections.drop_last();
        let before = rebuilt(current, part, now);
        law_rebuilt_says_what_was_written(current, part, now, s, t);
        match sections.last().1 {
            JsonView::Array(texts) => {
                lemma_texts_are_known(before, current, sections.last().0, texts, now, s, t);
            },
            _ => {},
        }
        if is_known(before, s, t) {
            let i = choose|i: int| 0 <= i < part.len() && section_says(#[trigger] part[i], s, t);
            assert(sections[i] == part[i]);
        }
        if section_says(sections.last(), s, t) {
            assert(section_says(sections[sections.len() - 1], s, t));
        }
        if exists|i: int| 0 <= i < sections.len() && section_says(#[trigger] sections[i], s, t) {
            let i = choose|i: int|
                0 <= i < sections.len() && section_says(#[trigger] sections[i], s, t);
            if i < part.len() {
                assert(part[i] == sections[i]);
            }
        }
    }
}

/// A reflection fails where the model cannot be reached, at no cost, and where
/// the answer writes no memory, at the cost of the answer. Otherwise it costs what
/// the answer cost, and its churn is the one between the two memories.
pub proof fn law_reflect(
    engine: &ReflectionEngine,
    current: &Memory,
    now: u64,
    reply: Result<CompletionResponse, HarnessError>,
    r: Result<ReflectionOutcome, RunError>,
)
    requires
        current.wf(),
        call_ensures(ReflectionEngine::reflect, (engine, current, now, reply), r),
    ensures
        r is Ok <==> reply is Ok && exists|i: int|
            0 <= i < reply->Ok_0@.content.len() && writes(#[trigger] reply->Ok_0@.content[i]),
        reply is Err ==> r->Err_0.usage.input_tokens == 0 && r->Err_0.usage.output_tokens == 0
            && r->Err_0.source@ == reply->Err_0@,
        reply is Ok && r is Err ==> r->Err_0.usage == reply->Ok_0.usage,
        r matches Ok(o) ==> o.usage == reply->Ok_0.usage && o.churn == churn_of(
            current@,
            o.memory@,
        ),
{
    let view = result_view(r);
    assert(view == reflection(*engine, current@, now, result_view(reply)));
    if reply is Ok {
        let content = reply->Ok_0@.content;
        law_written_sections(content);
        if written_sections(content) is Some {
            let i = choose|i: int| #[trigger]
                writes_first(content, i) && content[i]->input.get("sections"@) == Some(
                    JsonView::Object(written_sections(content)->0),
                );
            assert(writes(content[i]));
        }
    }
}

/// The model is asked once, with the one tool that it must call. It sees the cap,
/// the memory with its corrections marked, and every line of activity.
pub proof fn law_request(
    engine: &ReflectionEngine,
    current: &Memory,
    activity: &[String],
    r: CompletionRequest,
)
    requires
        call_ensures(ReflectionEngine::request, (engine, current, activity), r),
    ensures
        r.max_tokens == engine.max_tokens,
        r@.tools.len() == 1,
        r@.tools[0].name == "write_memory"@,
        r@.tool_choice == Some("write_memory"@),
        r@.messages.len() == 1,
        r@.messages[0].content.len() == 1,
        exists|a: Seq<char>, b: Seq<char>|
            r@.system == #[trigger] (a + decimal(engine.word_cap as nat) + b),
        r@.messages[0].content[0] matches BlockView::Text { text } ==> {
            &&& current@.len() > 0 ==> exists|a: Seq<char>, b: Seq<char>|
                text == #[trigger] (a + memory_prompt(current@, true) + b)
        },
        r@.messages[0].content[0] is Text,
{
    if current@.len() > 0 {
        let text = r@.messages[0].content[0]->Text_text;
        let b = text.skip(
            ("Current memory:\n"@ + memory_prompt(current@, true)).len() as int,
        );
        assert(text =~= "Current memory:\n"@ + memory_prompt(current@, true) + b);
    }
}

/// The activity is numbered from one, a line each, and every line stands whole in
/// what the model sees.
pub proof fn law_activity_is_numbered(activity: Seq<Seq<char>>, i: int)
    requires
        0 <= i < activity.len(),
    ensures
        activity_lines(activity).len() == activity.len(),
        activity_lines(activity)[i] == decimal((i + 1) as nat) + ". "@ + activity[i],
        exists|a: Seq<char>, b: Seq<char>|
            activity_block(activity) == #[trigger] (a + (decimal((i + 1) as nat) + ". "@
                + activity[i]) + b),
{
    law_joined_holds_every_part(activity_lines(activity), "\n"@, i);
}

/// What the model is asked holds the memory and the activity, one behind the other.
pub proof fn law_request_holds_the_activity(
    engine: &ReflectionEngine,
    current: &Memory,
    activity: &[String],
    r: CompletionRequest,
)
    requires
        call_ensures(ReflectionEngine::request, (engine, current, activity), r),
    ensures
        r@.messages[0].content[0] matches BlockView::Text { text } && activity_block(
            seq_views(activity@),
        ).is_suffix_of(text),
        activity@.len() == 0 ==> activity_block(seq_views(activity@)) == "(none)"@,
        current@.len() == 0 ==> (r@.messages[0].content[0] matches BlockView::Text { text }
            && ("Current memory:\n"@ + "(empty)"@).is_prefix_of(text)),
{
    let text = r@.messages[0].content[0]->Text_text;
    let block = activity_block(seq_views(activity@));
    assert(block =~= text.subrange(text.len() - block.len(), text.len() as int));
    if current@.len() == 0 {
        let start = "Current memory:\n"@ + "(empty)"@;
        assert(start =~= text.take(start.len() as int));
    }
}

} // verus!
