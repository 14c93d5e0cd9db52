//! Reflection: the model rewrites the whole memory in the light of recent
//! activity. Facts that survive word for word keep their history. How much
//! changed is the churn, which sets the pace of later reflections.

use vstd::prelude::*;
use crate::harness::agent::RunError;
use crate::harness::agent::RunErrorView;
use crate::harness::error::HarnessError;
use crate::harness::error::HarnessErrorView;
use crate::harness::llm::BlockView;
use crate::harness::llm::CompletionRequest;
use crate::harness::llm::CompletionResponse;
use crate::harness::llm::ContentBlock;
use crate::harness::llm::Message;
use crate::harness::llm::no_usage;
use crate::harness::llm::RequestView;
use crate::harness::llm::ResponseView;
use crate::harness::llm::ToolSpec;
use crate::harness::llm::ToolSpecView;
use crate::harness::llm::Usage;
use crate::harness::llm::user_text_view;
use crate::harness::memory::DEFAULT_WORD_CAP;
use crate::harness::memory::EntryView;
use crate::harness::memory::FactSource;
use crate::harness::memory::Memory;
use crate::harness::memory::MemorySectionView;
use crate::harness::memory::model::clamped;
use crate::harness::memory::model::fact_index;
use crate::harness::memory::model::facts_of;
use crate::harness::memory::model::memory_prompt;
use crate::harness::memory::model::remembered;
use crate::harness::reflection::churn::churn_between;
use crate::harness::reflection::churn::churn_of;
use crate::harness::tool::schema_of;
use crate::harness::tool::schema_view;
use crate::json::field_views;
use crate::json::Json;
use crate::json::JsonView;
use crate::ratio::Ratio;
use crate::text::concat2;
use crate::text::concat3;
use crate::text::decimal;
use crate::text::decimal_text;
use crate::text::join;
use crate::text::joined;
use crate::text::text_eq;
use crate::views::copy_option;
use crate::views::result_view;
use crate::views::seq_views;

verus! {

/// The tool that the model must call.
pub const WRITE_MEMORY: &'static str = "write_memory";

/// What the tool is for, in words for the model.
pub const WRITE_MEMORY_DESCRIPTION: &'static str = "Write the complete updated memory. This REPLACES all sections.";

/// The schema of the tool's input, as JSON text.
pub const WRITE_MEMORY_SCHEMA: &'static str = "{\"type\":\"object\",\"properties\":{\"sections\":{\"type\":\"object\",\"description\":\"section name -> list of short fact strings\",\"additionalProperties\":{\"type\":\"array\",\"items\":{\"type\":\"string\"}}}},\"required\":[\"sections\"]}";

/// The prompt up to the word cap.
pub const PROMPT_BEFORE_CAP: &'static str = "You maintain a compact long-term memory about one user for a field-work assistant. Rewrite the ENTIRE memory: keep what stays true, integrate what the recent activity shows, drop what is stale or disproven. Prefer fewer, sharper facts. Hard limit: ";

/// The prompt behind the word cap.
pub const PROMPT_AFTER_CAP: &'static str = " words total. Keep facts that survive VERBATIM, character for character \u{2014} do not paraphrase them. When recent activity contradicts an existing fact, drop the stale fact and write the corrected one; never merge the two into a blended claim. Facts marked [corrected] are user corrections and outrank everything else \u{2014} do not drop or alter them. Typical sections: vocabulary, people, projects, preferences. Call write_memory exactly once with the full result.";

/// What a reflection leaves behind.
#[derive(Debug)]
pub struct ReflectionOutcome {
    pub memory: Memory,
    /// Facts that came or went, over all facts before and after.
    pub churn: Ratio,
    pub usage: Usage,
}

/// The mathematical counterpart of [`ReflectionOutcome`].
pub struct ReflectionOutcomeView {
    pub memory: Seq<MemorySectionView>,
    pub churn: Ratio,
    pub usage: Usage,
}

impl View for ReflectionOutcome {
    type V = ReflectionOutcomeView;

    open spec fn view(&self) -> ReflectionOutcomeView {
        ReflectionOutcomeView { memory: self.memory@, churn: self.churn, usage: self.usage }
    }
}

/// Asks the model to rewrite a memory and takes the answer in.
#[derive(Clone, Copy, Debug, PartialEq, Eq, Structural)]
pub struct ReflectionEngine {
    pub word_cap: usize,
    pub max_tokens: u32,
}

/// How the tool is offered to the model.
pub open spec fn write_memory_offer() -> ToolSpecView {
    ToolSpecView {
        name: WRITE_MEMORY@,
        description: WRITE_MEMORY_DESCRIPTION@,
        input_schema: schema_view(WRITE_MEMORY_SCHEMA@),
    }
}

/// The memory as the model sees it, with the user's corrections marked.
pub open spec fn memory_block(m: Seq<MemorySectionView>) -> Seq<char> {
    if m.len() == 0 {
        "(empty)"@
    } else {
        memory_prompt(m, true)
    }
}

/// The activity, one numbered line each.
pub open spec fn activity_lines(activity: Seq<Seq<char>>) -> Seq<Seq<char>> {
    Seq::new(activity.len(), |i: int| decimal((i + 1) as nat) + ". "@ + activity[i])
}

/// The activity as the model sees it.
pub open spec fn activity_block(activity: Seq<Seq<char>>) -> Seq<char> {
    if activity.len() == 0 {
        "(none)"@
    } else {
        joined(activity_lines(activity), "\n"@)
    }
}

/// The request of a reflection.
pub open spec fn reflection_request(
    engine: ReflectionEngine,
    current: Seq<MemorySectionView>,
    activity: Seq<Seq<char>>,
) -> RequestView {
    RequestView {
        system: PROMPT_BEFORE_CAP@ + decimal(engine.word_cap as nat) + PROMPT_AFTER_CAP@,
        messages: seq![
            user_text_view(
                "Current memory:\n"@ + memory_block(current)
                    + "\n\nRecent activity since last reflection:\n"@ + activity_block(activity),
            ),
        ],
        tools: seq![write_memory_offer()],
        max_tokens: engine.max_tokens,
        tool_choice: Some(WRITE_MEMORY@),
    }
}

/// The sections that an answer writes: those of the first call that has any.
pub open spec fn written_sections(content: Seq<BlockView>) -> Option<Seq<(Seq<char>, JsonView)>>
    decreases content.len(),
{
    if content.len() == 0 {
        None
    } else {
        match sections_in(content[0]) {
            Some(sections) => Some(sections),
            None => written_sections(content.drop_first()),
        }
    }
}

/// The sections that one block writes.
pub open spec fn sections_in(block: BlockView) -> Option<Seq<(Seq<char>, JsonView)>> {
    match block {
        BlockView::ToolUse { name, input, .. } => if name == WRITE_MEMORY@ {
            match input.get("sections"@) {
                Some(v) => v.fields(),
                None => None,
            }
        } else {
            None
        },
        _ => None,
    }
}

/// What is known of a rewritten fact: its whole history if it was there before,
/// otherwise that it was inferred now.
pub open spec fn origin(
    current: Seq<MemorySectionView>,
    section: Seq<char>,
    text: Seq<char>,
    now: u64,
) -> EntryView {
    let facts = facts_of(current, section);
    let i = fact_index(facts, text);
    if i < facts.len() {
        facts[i as int]
    } else {
        EntryView { text, last_touched: now, source: FactSource::Inferred, session: None }
    }
}

/// The memory with one rewritten fact added.
pub open spec fn rewritten(
    m: Seq<MemorySectionView>,
    current: Seq<MemorySectionView>,
    section: Seq<char>,
    text: Seq<char>,
    now: u64,
) -> Seq<MemorySectionView> {
    let e = origin(current, section, text, now);
    remembered(m, section, text, e.last_touched, e.source, e.session)
}

/// The memory with the texts of one section added. What is not a text is
/// skipped.
pub open spec fn with_texts(
    m: Seq<MemorySectionView>,
    current: Seq<MemorySectionView>,
    section: Seq<char>,
    texts: Seq<JsonView>,
    now: u64,
) -> Seq<MemorySectionView>
    decreases texts.len(),
{
    if texts.len() == 0 {
        m
    } else {
        let before = with_texts(m, current, section, texts.drop_last(), now);
        match texts.last().text() {
            Some(text) => rewritten(before, current, section, text, now),
            None => before,
        }
    }
}

/// The memory that the written sections make. What is not a list is skipped.
pub open spec fn rebuilt(
    current: Seq<MemorySectionView>,
    sections: Seq<(Seq<char>, JsonView)>,
    now: u64,
) -> Seq<MemorySectionView>
    decreases sections.len(),
{
    if sections.len() == 0 {
        Seq::empty()
    } else {
        let before = rebuilt(current, sections.drop_last(), now);
        match sections.last().1.items() {
            Some(texts) => with_texts(before, current, sections.last().0, texts, now),
            None => before,
        }
    }
}

/// What comes of a reflection. A failure carries what it cost.
pub open spec fn reflection(
    engine: ReflectionEngine,
    current: Seq<MemorySectionView>,
    now: u64,
    reply: Result<ResponseView, HarnessErrorView>,
) -> Result<ReflectionOutcomeView, RunErrorView> {
    match reply {
        Err(e) => Err(RunErrorView { source: e, usage: no_usage() }),
        Ok(resp) => match written_sections(resp.content) {
            None => Err(
                RunErrorView {
                    source: HarnessErrorView::Provider(
                        "reflection response missing write_memory call"@,
                    ),
                    usage: resp.usage,
                },
            ),
            Some(sections) => {
                let memory = clamped(rebuilt(current, sections, now), engine.word_cap).0;
                Ok(
                    ReflectionOutcomeView {
                        memory,
                        churn: churn_of(current, memory),
                        usage: resp.usage,
                    },
                )
            },
        },
    }
}

/// Finds the sections that an answer writes.
fn find_sections(content: &Vec<ContentBlock>) -> (r: Option<&Vec<(String, Json)>>)
    ensures
        match r {
            Some(v) => written_sections(seq_views(content@)) == Some(field_views(v@)),
            None => written_sections(seq_views(content@)) is None,
        },
{
    let ghost all = seq_views(content@);
    let mut i: usize = 0;
    assert(all.skip(0) =~= all);
    while i < content.len()
        invariant
            i <= content.len(),
            all == seq_views(content@),
            written_sections(all) == written_sections(all.skip(i as int)),
        decreases content.len() - i,
    {
        proof {
            assert(all.skip(i as int)[0] == content@[i as int]@);
            assert(all.skip(i as int).drop_first() =~= all.skip(i + 1));
        }
        if let ContentBlock::ToolUse { name, input, .. } = &content[i] {
            if text_eq(name.as_str(), WRITE_MEMORY) {
                if let Some(v) = input.get("sections") {
                    if let Some(fields) = v.as_object() {
                        return Some(fields);
                    }
                }
            }
        }
        i = i + 1;
    }
    None
}

/// Adds one rewritten fact to a memory.
fn rewrite(memory: &mut Memory, current: &Memory, section: &str, text: &str, now: u64)
    requires
        old(memory).wf(),
        current.wf(),
    ensures
        final(memory).wf(),
        final(memory)@ == rewritten(old(memory)@, current@, section@, text@, now),
{
    if let Some(facts) = current.section(section) {
        let ghost all = seq_views(facts@);
        let mut i: usize = 0;
        assert(all.skip(0) =~= all);
        while i < facts.len()
            invariant
                i <= facts.len(),
                memory@ == old(memory)@,
                memory.wf(),
                all == seq_views(facts@),
                all == facts_of(current@, section@),
                fact_index(all, text@) == i + fact_index(all.skip(i as int), text@),
            decreases facts.len() - i,
        {
            proof {
                assert(all.skip(i as int)[0] == facts@[i as int]@);
                assert(all.skip(i as int).drop_first() =~= all.skip(i + 1));
            }
            if text_eq(facts[i].text.as_str(), text) {
                let e = &facts[i];
                memory.remember_from(
                    section,
                    text,
                    e.last_touched,
                    e.source,
                    copy_option(&e.session),
                );
                return ;
            }
            i = i + 1;
        }
    }
    memory.remember_from(section, text, now, FactSource::Inferred, None);
}

/// Adds the texts of one section to a memory.
fn add_texts(memory: &mut Memory, current: &Memory, section: &str, texts: &Vec<Json>, now: u64)
    requires
        old(memory).wf(),
        current.wf(),
    ensures
        final(memory).wf(),
        final(memory)@ == with_texts(
            old(memory)@,
            current@,
            section@,
            seq_views(texts@),
            now,
        ),
{
    let ghost all = seq_views(texts@);
    let mut i: usize = 0;
    assert(all.take(0) =~= Seq::<JsonView>::empty());
    while i < texts.len()
        invariant
            i <= texts.len(),
            all == seq_views(texts@),
            memory.wf(),
            current.wf(),
            memory@ == with_texts(old(memory)@, current@, section@, all.take(i as int), now),
        decreases texts.len() - i,
    {
        proof {
            assert(all.take(i + 1).drop_last() =~= all.take(i as int));
            assert(all.take(i + 1).last() == texts@[i as int]@);
        }
        if let Some(text) = texts[i].as_str() {
            rewrite(memory, current, section, text, now);
        }
        i = i + 1;
    }
    assert(all.take(all.len() as int) =~= all);
}

/// Makes the memory that the written sections describe.
fn rebuild(current: &Memory, sections: &Vec<(String, Json)>, now: u64) -> (r: Memory)
    requires
        current.wf(),
    ensures
        r.wf(),
        r@ == rebuilt(current@, field_views(sections@), now),
{
    let ghost all = field_views(sections@);
    let mut memory = Memory::default();
    let mut i: usize = 0;
    assert(all.take(0) =~= Seq::<(Seq<char>, JsonView)>::empty());
    while i < sections.len()
        invariant
            i <= sections.len(),
            all == field_views(sections@),
            memory.wf(),
            current.wf(),
            memory@ == rebuilt(current@, all.take(i as int), now),
        decreases sections.len() - i,
    {
        proof {
            assert(all.take(i + 1).drop_last() =~= all.take(i as int));
            assert(all.take(i + 1).last() == all[i as int]);
        }
        if let Some(texts) = sections[i].1.as_array() {
            add_texts(&mut memory, current, sections[i].0.as_str(), texts, now);
        }
        i = i + 1;
    }
    assert(all.take(all.len() as int) =~= all);
    memory
}

/// Renders the activity for the model.
fn render_activity(activity: &[String]) -> (r: String)
    ensures
        r@ == activity_block(seq_views(activity@)),
{
    if activity.len() == 0 {
        return "(none)".to_string();
    }
    let mut lines: Vec<String> = Vec::new();
    let mut i: usize = 0;
    while i < activity.len()
        invariant
            i <= activity.len(),
            lines.len() == i,
            forall|k: int|
                0 <= k < i ==> (#[trigger] lines@[k])@ == decimal((k + 1) as nat) + ". "@
                    + activity@[k]@,
        decreases activity.len() - i,
    {
        let line = concat3(decimal_text(i as u64 + 1).as_str(), ". ", activity[i].as_str());
        lines.push(line);
        i = i + 1;
    }
    assert(seq_views(lines@) =~= activity_lines(seq_views(activity@)));
    join(&lines, "\n")
}

impl Default for ReflectionEngine {
    fn default() -> (r: ReflectionEngine)
        ensures
            r.word_cap == DEFAULT_WORD_CAP,
            r.max_tokens == 2048,
    {
        ReflectionEngine { word_cap: DEFAULT_WORD_CAP, max_tokens: 2048 }
    }
}

impl ReflectionEngine {
    /// An engine with the usual limits.
    pub fn new() -> (r: ReflectionEngine)
        ensures
            r.word_cap == DEFAULT_WORD_CAP,
            r.max_tokens == 2048,
    {
        ReflectionEngine::default()
    }

    /// How the tool is offered to the model.
    fn tool_spec(&self) -> (r: ToolSpec)
        ensures
            r@ == write_memory_offer(),
    {
        ToolSpec {
            name: WRITE_MEMORY.to_string(),
            description: WRITE_MEMORY_DESCRIPTION.to_string(),
            input_schema: schema_of(WRITE_MEMORY_SCHEMA),
        }
    }

    /// The instructions for the model.
    fn system_prompt(&self) -> (r: String)
        ensures
            r@ == PROMPT_BEFORE_CAP@ + decimal(self.word_cap as nat) + PROMPT_AFTER_CAP@,
    {
        concat3(
            PROMPT_BEFORE_CAP,
            decimal_text(self.word_cap as u64).as_str(),
            PROMPT_AFTER_CAP,
        )
    }

    /// Renders a memory for the model, with the user's corrections marked.
    fn render_memory(&self, memory: &Memory) -> (r: String)
        ensures
            r@ == memory_block(memory@),
    {
        if memory.sections().len() == 0 {
            "(empty)".to_string()
        } else {
            memory.render(true)
        }
    }

    /// The request that starts a reflection.
    pub fn request(&self, current: &Memory, activity: &[String]) -> (r: CompletionRequest)
        ensures
            r@ == reflection_request(*self, current@, seq_views(activity@)),
    {
        let mut user = concat2("Current memory:\n", self.render_memory(current).as_str());
        user.append("\n\nRecent activity since last reflection:\n");
        user.append(render_activity(activity).as_str());
        let mut messages: Vec<Message> = Vec::new();
        messages.push(Message::user_text(user));
        let mut tools: Vec<ToolSpec> = Vec::new();
        tools.push(self.tool_spec());
        let r = CompletionRequest {
            system: self.system_prompt(),
            messages,
            tools,
            max_tokens: self.max_tokens,
            tool_choice: Some(WRITE_MEMORY.to_string()),
        };
        proof {
            let want = reflection_request(*self, current@, seq_views(activity@));
            assert(r@.messages =~= want.messages);
            assert(r@.tools =~= want.tools);
        }
        r
    }

    /// Takes the model's answer in: the memory as rewritten and cut to the word
    /// cap, and how much of it is new or gone.
    pub fn reflect(
        &self,
        current: &Memory,
        now: u64,
        reply: Result<CompletionResponse, HarnessError>,
    ) -> (r: Result<ReflectionOutcome, RunError>)
        requires
            current.wf(),
        ensures
            result_view(r) == reflection(*self, current@, now, result_view(reply)),
            r matches Ok(o) ==> o.memory.wf(),
    {
        let resp = match reply {
            Ok(resp) => resp,
            Err(e) => {
                return Err(RunError { source: e, usage: Usage::default() });
            },
        };
        match find_sections(&resp.content) {
            None => Err(
                RunError {
                    source: HarnessError::Provider(
                        "reflection response missing write_memory call".to_string(),
                    ),
                    usage: resp.usage,
                },
            ),
            Some(sections) => {
                let mut memory = rebuild(current, sections, now);
                memory.clamp_to_cap(self.word_cap);
                let churn = churn_between(current, &memory);
                Ok(ReflectionOutcome { memory, churn, usage: resp.usage })
            },
        }
    }
}

} // verus!
