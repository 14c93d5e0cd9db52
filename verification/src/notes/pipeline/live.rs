//! Passes over a session while it is recording: clearly-stated items go onto a
//! live board as they are spoken. The processing at the end has the last word.
//!
//! A pass runs only while the session is recording. A pass that fails never
//! disturbs the recording: its cost is logged, and the next pass reads the same
//! part of the transcript again. What it had already written stays, and the
//! list of what is already captured keeps it from being written twice.

use vstd::prelude::*;
use crate::harness::agent::advanced;
use crate::harness::agent::Agent;
use crate::harness::agent::AgentConfig;
use crate::harness::agent::AgentRun;
use crate::harness::agent::AgentStep;
use crate::harness::agent::begun;
use crate::harness::agent::calls_made;
use crate::harness::agent::calls_of;
use crate::harness::agent::ConfigView;
use crate::harness::agent::request_of;
use crate::harness::agent::RunView;
use crate::harness::agent::StepView;
use crate::harness::context::assembled_text;
use crate::harness::context::budget_chars_of;
use crate::harness::context::ContextAssembler;
use crate::harness::context::ContextSection;
use crate::harness::context::SectionView;
use crate::harness::error::HarnessError;
use crate::harness::error::HarnessErrorView;
use crate::harness::llm::CompletionRequest;
use crate::harness::llm::CompletionResponse;
use crate::harness::llm::Message;
use crate::harness::llm::no_usage;
use crate::harness::llm::ResponseView;
use crate::harness::llm::Usage;
use crate::harness::llm::user_text_view;
use crate::harness::memory::model::memory_prompt;
use crate::harness::memory::store::MemoryStore;
use crate::harness::tool::ToolRegistry;
use crate::notes::domain::CapturedItemView;
use crate::notes::domain::ItemSource;
use crate::notes::domain::SessionStatus;
use crate::notes::domain::SessionView;
use crate::notes::error::CoreError;
use crate::notes::error::CoreErrorView;
use crate::notes::pipeline::prompts::add_memory;
use crate::notes::pipeline::prompts::captured_lines;
use crate::notes::pipeline::prompts::format_already_captured;
use crate::notes::pipeline::prompts::LIVE_PROMPT;
use crate::notes::pipeline::prompts::with_memory;
use crate::notes::pipeline::tools::AddItemTool;
use crate::notes::pipeline::tools::AddItemToolView;
use crate::notes::pipeline::workspace::NotesTool;
use crate::notes::pipeline::workspace::PipelineTool;
use crate::notes::pipeline::workspace::WorkView;
use crate::notes::pipeline::workspace::Workspace;
use crate::notes::store::items::lists_items;
use crate::notes::store::items::of_session;
use crate::notes::store::not_found;
use crate::notes::store::StampView;
use crate::notes::store::usage::usage_recorded;
use crate::text::joined;
use crate::text::skip_chars;
use crate::text::tail;
use crate::views::result_view;
use crate::views::seq_views;

verus! {

/// What came of one pass.
#[derive(Clone, Copy, Debug, PartialEq, Eq, Structural)]
pub enum LiveExtractOutcome {
    /// The pass ran. The count is by how much the board grew: a hint to redraw.
    Extracted { items_added: usize, usage: Usage },
    /// No pass: too little new transcript, or the session is not recording.
    Skipped,
    /// The pass failed, and the same part of the transcript will be read again.
    Failed { usage: Usage },
}

/// How far the passes over a session have come.
#[derive(Clone, Debug)]
pub struct LiveProgress {
    session_id: String,
    cursor: usize,
}

/// The mathematical counterpart of [`LiveProgress`].
pub struct LiveProgressView {
    pub session_id: Seq<char>,
    /// Characters of the transcript that successful passes have covered.
    pub cursor: usize,
}

impl View for LiveProgress {
    type V = LiveProgressView;

    closed spec fn view(&self) -> LiveProgressView {
        LiveProgressView { session_id: self.session_id@, cursor: self.cursor }
    }
}

/// Drives the passes of one recording session.
#[derive(Clone, Debug)]
pub struct LiveExtractor {
    /// Which session, and how far the passes have come.
    pub progress: LiveProgress,
    /// How much new transcript makes a pass worth while.
    pub min_new_chars: usize,
    /// Tokens of new transcript in one pass.
    pub transcript_window_tokens: usize,
    /// Tokens of the list of what is already captured.
    pub already_captured_budget_tokens: usize,
    pub max_turns: usize,
    pub max_tokens: u32,
}

/// The mathematical counterpart of [`LiveExtractor`].
pub struct LiveExtractorView {
    pub session_id: Seq<char>,
    /// Characters of the transcript that successful passes have covered.
    pub cursor: usize,
    pub min_new_chars: usize,
    pub transcript_window_tokens: usize,
    pub already_captured_budget_tokens: usize,
    pub max_turns: usize,
    pub max_tokens: u32,
}

impl View for LiveExtractor {
    type V = LiveExtractorView;

    open spec fn view(&self) -> LiveExtractorView {
        LiveExtractorView {
            session_id: self.progress@.session_id,
            cursor: self.progress@.cursor,
            min_new_chars: self.min_new_chars,
            transcript_window_tokens: self.transcript_window_tokens,
            already_captured_budget_tokens: self.already_captured_budget_tokens,
            max_turns: self.max_turns,
            max_tokens: self.max_tokens,
        }
    }
}

/// A pass that waits for the model's reply.
pub struct LiveRun<M> {
    session_id: String,
    agent: AgentRun<PipelineTool<M>>,
    items_before: usize,
    cursor_after: usize,
}

/// What a pass needs to know throughout.
pub struct PassView {
    pub session_id: Seq<char>,
    /// How many items the board had.
    pub items_before: nat,
    /// Where the cursor goes when the pass succeeds.
    pub cursor_after: usize,
}

/// The mathematical counterpart of [`LiveRun`].
pub struct LiveRunView<M> {
    pub pass: PassView,
    pub agent: RunView<PipelineTool<M>>,
}

impl<M: MemoryStore> View for LiveRun<M> {
    type V = LiveRunView<M>;

    closed spec fn view(&self) -> LiveRunView<M> {
        LiveRunView {
            pass: PassView {
                session_id: self.session_id@,
                items_before: self.items_before as nat,
                cursor_after: self.cursor_after,
            },
            agent: self.agent@,
        }
    }
}

/// What to do next.
pub enum LiveStep<M> {
    /// Send the pass's request to the model and hand back the reply.
    Ask(LiveRun<M>),
    /// The pass is over.
    Done(LiveExtractOutcome),
}

/// What to do next, over views.
pub enum LiveStepView<M> {
    Ask(LiveRunView<M>),
    Done(LiveExtractOutcome),
}

impl<M: MemoryStore> View for LiveStep<M> {
    type V = LiveStepView<M>;

    open spec fn view(&self) -> LiveStepView<M> {
        match self {
            LiveStep::Ask(run) => LiveStepView::Ask(run@),
            LiveStep::Done(outcome) => LiveStepView::Done(*outcome),
        }
    }
}

/// Characters of the transcript that no pass has covered.
pub open spec fn new_chars(x: LiveExtractorView, transcript: Seq<char>) -> nat {
    if transcript.len() >= x.cursor {
        (transcript.len() - x.cursor) as nat
    } else {
        0
    }
}

/// A pass is worth while.
pub open spec fn pass_due(x: LiveExtractorView, session: SessionView) -> bool {
    session.status == SessionStatus::Recording && new_chars(x, session.transcript)
        >= x.min_new_chars
}

/// Where the cursor goes after a pass over the transcript: not beyond what the
/// model was shown.
pub open spec fn cursor_after(x: LiveExtractorView, transcript: Seq<char>) -> usize {
    if x.cursor + x.transcript_window_tokens * 4 < transcript.len() {
        (x.cursor + x.transcript_window_tokens * 4) as usize
    } else {
        transcript.len() as usize
    }
}

/// What the model is shown.
pub open spec fn pass_message(
    x: LiveExtractorView,
    transcript: Seq<char>,
    items: Seq<CapturedItemView>,
) -> Seq<char> {
    assembled_text(
        seq![
            SectionView {
                title: "already captured"@,
                content: joined(captured_lines(items), "\n"@),
                budget_tokens: x.already_captured_budget_tokens as nat,
            },
            SectionView {
                title: "new transcript"@,
                content: tail(transcript, x.cursor as int),
                budget_tokens: x.transcript_window_tokens as nat,
            },
        ],
    )
}

/// How the agent of a pass runs.
pub open spec fn pass_config(x: LiveExtractorView, memory: Seq<char>) -> ConfigView {
    ConfigView {
        system_prompt: with_memory(LIVE_PROMPT@, memory),
        max_turns: x.max_turns,
        max_tokens: x.max_tokens,
    }
}

/// The one tool of a pass: it writes only while the session is recording.
pub open spec fn pass_tools<M: MemoryStore>(
    tools: Seq<PipelineTool<M>>,
    session_id: Seq<char>,
) -> bool {
    &&& tools.len() == 1
    &&& tools[0].tool matches NotesTool::Item(t) && t@ == (AddItemToolView {
        session_id,
        source: ItemSource::Live,
        required_status: Some(SessionStatus::Recording),
        created_ids: None,
    })
}

/// By how much a count grew.
pub open spec fn growth(before: nat, after: nat) -> usize {
    if after >= before {
        (after - before) as usize
    } else {
        0
    }
}

/// The step of the pass after the agent's. The cursor moves only when the pass
/// succeeded and its cost is logged.
pub open spec fn pass_step<M: MemoryStore>(
    pass: PassView,
    x: LiveExtractorView,
    agent: StepView<PipelineTool<M>>,
    work: WorkView,
    work_after: WorkView,
    x_after: LiveExtractorView,
    r: Result<LiveStepView<M>, CoreErrorView>,
) -> bool {
    match agent {
        StepView::Ask(run) => {
            &&& work_after == work
            &&& x_after == x
            &&& r == Ok::<LiveStepView<M>, CoreErrorView>(
                LiveStepView::Ask(LiveRunView { pass, agent: run }),
            )
        },
        StepView::Done { outcome: Ok(outcome), .. } => exists|st: StampView| #[trigger]
            work.store.gives(st) && pass_done(
                pass,
                x,
                outcome.usage,
                work,
                st,
                work_after,
                x_after,
                r,
            ),
        StepView::Done { outcome: Err(e), .. } => {
            &&& x_after == x
            &&& r == Ok::<LiveStepView<M>, CoreErrorView>(
                LiveStepView::Done(LiveExtractOutcome::Failed { usage: e.usage }),
            )
            &&& if e.usage == no_usage() {
                work_after == work
            } else {
                exists|st: StampView| #[trigger]
                    work.store.gives(st) && work_after == (WorkView {
                        store: usage_recorded(
                            work.store,
                            Some(pass.session_id),
                            "live_extraction"@,
                            e.usage,
                            st,
                        ).0,
                        ..work
                    })
            }
        },
    }
}

/// The end of a pass that succeeded.
pub open spec fn pass_done<M: MemoryStore>(
    pass: PassView,
    x: LiveExtractorView,
    usage: Usage,
    work: WorkView,
    st: StampView,
    work_after: WorkView,
    x_after: LiveExtractorView,
    r: Result<LiveStepView<M>, CoreErrorView>,
) -> bool {
    match usage_recorded(
        work.store,
        Some(pass.session_id),
        "live_extraction"@,
        usage,
        st,
    ) {
        (_, Err(e)) => {
            &&& work_after == work
            &&& x_after == x
            &&& r == Err::<LiveStepView<M>, CoreErrorView>(e)
        },
        (store, Ok(_)) => {
            &&& work_after == (WorkView { store, ..work })
            &&& x_after == (LiveExtractorView { cursor: pass.cursor_after, ..x })
            &&& exists|items: Seq<CapturedItemView>| #[trigger]
                lists_items(store, of_session(pass.session_id), items) && r == Ok::<
                    LiveStepView<M>,
                    CoreErrorView,
                >(
                    LiveStepView::Done(
                        LiveExtractOutcome::Extracted {
                            items_added: growth(pass.items_before, items.len()),
                            usage,
                        },
                    ),
                )
        },
    }
}

/// What begins a pass.
pub open spec fn pass_begun<M: MemoryStore>(
    x: LiveExtractorView,
    work: WorkView,
    work_after: WorkView,
    x_after: LiveExtractorView,
    r: Result<LiveStepView<M>, CoreErrorView>,
) -> bool {
    match work.store.session(x.session_id) {
        None => {
            &&& work_after == work
            &&& x_after == x
            &&& r == Err::<LiveStepView<M>, CoreErrorView>(not_found("session"@, x.session_id))
        },
        Some(session) => if !pass_due(x, session) {
            &&& work_after == work
            &&& x_after == x
            &&& r == Ok::<LiveStepView<M>, CoreErrorView>(
                LiveStepView::Done(LiveExtractOutcome::Skipped),
            )
        } else {
            exists|items: Seq<CapturedItemView>, tools: Seq<PipelineTool<M>>|
                #![trigger lists_items(work.store, of_session(x.session_id), items), pass_tools(tools, x.session_id)]
                lists_items(work.store, of_session(x.session_id), items) && pass_tools(
                    tools,
                    x.session_id,
                ) && pass_step(
                    PassView {
                        session_id: x.session_id,
                        items_before: items.len(),
                        cursor_after: cursor_after(x, session.transcript),
                    },
                    x,
                    begun(
                        tools,
                        pass_config(x, memory_prompt(work.memory, false)),
                        seq![user_text_view(pass_message(x, session.transcript, items))],
                    ),
                    work,
                    work_after,
                    x_after,
                    r,
                )
        },
    }
}

/// What a reply does to a pass.
pub open spec fn pass_advanced<M: MemoryStore>(
    run: LiveRunView<M>,
    x: LiveExtractorView,
    before: Workspace<M>,
    reply: Result<ResponseView, HarnessErrorView>,
    after: Workspace<M>,
    x_after: LiveExtractorView,
    r: Result<LiveStepView<M>, CoreErrorView>,
) -> bool {
    exists|
        tools: Seq<Seq<PipelineTool<M>>>,
        envs: Seq<Workspace<M>>,
        results: Seq<Result<Seq<char>, HarnessErrorView>>,
    | #[trigger]
        calls_made(calls_of(reply), tools, envs, results) && tools[0] == run.agent.tools && envs[0]
            == before && pass_step(
            run.pass,
            x,
            advanced(run.agent, reply, tools.last(), results),
            envs.last()@,
            after@,
            x_after,
            r,
        )
}

/// The tool of a pass.
fn make_pass_tools<M: MemoryStore>(session_id: &str) -> (r: ToolRegistry<PipelineTool<M>>)
    ensures
        r.wf(),
        pass_tools(r@, session_id@),
{
    let mut registry: ToolRegistry<PipelineTool<M>> = ToolRegistry::new();
    let item: PipelineTool<M> = PipelineTool::new(NotesTool::Item(AddItemTool::live(session_id)));
    registry.register(item);
    assert(registry@ =~= seq![item]);
    registry
}

impl LiveExtractor {
    /// Passes over a session, from the start of its transcript.
    pub fn new(session_id: &str) -> (r: LiveExtractor)
        ensures
            r@ == (LiveExtractorView {
                session_id: session_id@,
                cursor: 0,
                min_new_chars: 120,
                transcript_window_tokens: 2000,
                already_captured_budget_tokens: 400,
                max_turns: 8,
                max_tokens: 1024,
            }),
    {
        LiveExtractor {
            progress: LiveProgress { session_id: session_id.to_string(), cursor: 0 },
            min_new_chars: 120,
            transcript_window_tokens: 2000,
            already_captured_budget_tokens: 400,
            max_turns: 8,
            max_tokens: 1024,
        }
    }

    /// Characters of the transcript that successful passes have covered.
    pub fn cursor(&self) -> (r: usize)
        ensures
            r == self@.cursor,
    {
        self.progress.cursor
    }

    /// Where the cursor goes after a pass over a transcript of this length.
    fn next_cursor(&self, total: usize) -> (r: usize)
        ensures
            forall|transcript: Seq<char>|
                transcript.len() == total ==> r == #[trigger] cursor_after(self@, transcript),
    {
        let budget: usize = budget_chars_of(self.transcript_window_tokens);
        let end: usize = self.progress.cursor.saturating_add(budget);
        if end < total {
            end
        } else {
            total
        }
    }

    /// Begins a pass, if one is worth while. Only a fault of the store is an
    /// error; the model's failures end the pass and nothing else.
    pub fn maybe_extract<M: MemoryStore>(&mut self, work: &mut Workspace<M>) -> (r: Result<
        LiveStep<M>,
        CoreError,
    >)
        requires
            old(work).wf(),
        ensures
            final(work).wf(),
            r matches Ok(step) ==> step.wf(),
            pass_begun(old(self)@, old(work)@, final(work)@, final(self)@, result_view(r)),
    {
        let session = match work.store.get_session(self.progress.session_id.as_str()) {
            Ok(s) => s,
            Err(e) => {
                return Err(e);
            },
        };
        if session.status != SessionStatus::Recording {
            return Ok(LiveStep::Done(LiveExtractOutcome::Skipped));
        }
        let total: usize = session.transcript.as_str().unicode_len();
        if total.saturating_sub(self.progress.cursor) < self.min_new_chars {
            return Ok(LiveStep::Done(LiveExtractOutcome::Skipped));
        }
        let items = match work.store.list_items_for_session(self.progress.session_id.as_str()) {
            Ok(v) => v,
            Err(e) => {
                return Err(e);
            },
        };
        let mut sections: Vec<ContextSection> = Vec::new();
        sections.push(
            ContextSection {
                title: "already captured".to_string(),
                content: format_already_captured(&items),
                budget_tokens: self.already_captured_budget_tokens,
            },
        );
        sections.push(
            ContextSection {
                title: "new transcript".to_string(),
                content: skip_chars(session.transcript.as_str(), self.progress.cursor),
                budget_tokens: self.transcript_window_tokens,
            },
        );
        let assembled = ContextAssembler::assemble(sections.as_slice());
        let ghost views = seq_views(items@);
        assert(assembled.text@ == pass_message(self@, session@.transcript, views)) by {
            assert(seq_views(sections@) =~= seq![
                SectionView {
                    title: "already captured"@,
                    content: joined(captured_lines(views), "\n"@),
                    budget_tokens: self@.already_captured_budget_tokens as nat,
                },
                SectionView {
                    title: "new transcript"@,
                    content: tail(session@.transcript, self@.cursor as int),
                    budget_tokens: self@.transcript_window_tokens as nat,
                },
            ]);
        }
        let tools: ToolRegistry<PipelineTool<M>> = make_pass_tools(
            self.progress.session_id.as_str(),
        );
        let config = AgentConfig {
            system_prompt: add_memory(LIVE_PROMPT, work.memory.to_prompt().as_str()),
            max_turns: self.max_turns,
            max_tokens: self.max_tokens,
        };
        let mut messages: Vec<Message> = Vec::new();
        messages.push(Message::user_text(assembled.text));
        assert(seq_views(messages@) =~= seq![
            user_text_view(pass_message(self@, session@.transcript, views)),
        ]);
        let next: usize = self.next_cursor(total);
        let session_id = self.progress.session_id.clone();
        let ghost pass = PassView {
            session_id: session_id@,
            items_before: views.len(),
            cursor_after: next,
        };
        let ghost x = self@;
        let ghost before = work@;
        let ghost tool_seq = tools@;
        assert(lists_items(before.store, of_session(x.session_id), views));
        assert(pass_tools(tool_seq, x.session_id));
        let step = Agent::new(tools, config).run(messages);
        let r = self.settle(session_id, items.len(), next, step, work);
        assert(pass_step(
            pass,
            x,
            begun(
                tool_seq,
                pass_config(x, memory_prompt(before.memory, false)),
                seq![user_text_view(pass_message(x, session@.transcript, views))],
            ),
            before,
            work@,
            self@,
            result_view(r),
        ));
        r
    }

    /// Takes the agent's step over into the pass.
    fn settle<M: MemoryStore>(
        &mut self,
        session_id: String,
        items_before: usize,
        cursor_after: usize,
        step: AgentStep<PipelineTool<M>>,
        work: &mut Workspace<M>,
    ) -> (r: Result<LiveStep<M>, CoreError>)
        requires
            old(work).wf(),
            step.wf(),
        ensures
            final(work).wf(),
            r matches Ok(next) ==> next.wf(),
            pass_step(
                PassView {
                    session_id: session_id@,
                    items_before: items_before as nat,
                    cursor_after,
                },
                old(self)@,
                step@,
                old(work)@,
                final(work)@,
                final(self)@,
                result_view(r),
            ),
    {
        let outcome = match step {
            AgentStep::Ask(agent) => {
                return Ok(LiveStep::Ask(LiveRun { session_id, agent, items_before, cursor_after }));
            },
            AgentStep::Done { outcome, .. } => outcome,
        };
        match outcome {
            Ok(outcome) => {
                if let Err(e) = work.store.record_llm_usage(
                    Some(session_id.as_str()),
                    "live_extraction",
                    &outcome.usage,
                ) {
                    return Err(e);
                }
                let items_after: usize = match work.store.list_items_for_session(
                    session_id.as_str(),
                ) {
                    Ok(items) => items.len(),
                    Err(e) => {
                        return Err(e);
                    },
                };
                self.progress.cursor = cursor_after;
                Ok(
                    LiveStep::Done(
                        LiveExtractOutcome::Extracted {
                            items_added: items_after.saturating_sub(items_before),
                            usage: outcome.usage,
                        },
                    ),
                )
            },
            Err(e) => {
                if e.usage != Usage::default() {
                    let _ = work.store.record_llm_usage(
                        Some(session_id.as_str()),
                        "live_extraction",
                        &e.usage,
                    );
                }
                Ok(LiveStep::Done(LiveExtractOutcome::Failed { usage: e.usage }))
            },
        }
    }
}

impl<M: MemoryStore> LiveStep<M> {
    /// A step that can be taken.
    pub open spec fn wf(&self) -> bool {
        match self {
            LiveStep::Ask(run) => run.wf(),
            LiveStep::Done(_) => true,
        }
    }
}

impl<M: MemoryStore> LiveRun<M> {
    /// The agent waits for a reply.
    pub closed spec fn wf(&self) -> bool {
        self.agent.wf()
    }

    /// The request to send.
    pub fn request(&self) -> (r: &CompletionRequest)
        requires
            self.wf(),
        ensures
            r@ == request_of(self@.agent),
    {
        self.agent.request()
    }

    /// Takes the model's reply and says what to do next.
    pub fn advance(
        self,
        extractor: &mut LiveExtractor,
        work: &mut Workspace<M>,
        reply: Result<CompletionResponse, HarnessError>,
    ) -> (r: Result<LiveStep<M>, CoreError>)
        requires
            self.wf(),
            old(work).wf(),
        ensures
            final(work).wf(),
            r matches Ok(step) ==> step.wf(),
            pass_advanced(
                self@,
                old(extractor)@,
                *old(work),
                result_view(reply),
                *final(work),
                final(extractor)@,
                result_view(r),
            ),
    {
        let step = self.agent.advance(work, reply);
        extractor.settle(self.session_id, self.items_before, self.cursor_after, step, work)
    }
}

/// The cursor never goes back, as long as the transcript only grows, and never
/// goes beyond the transcript.
pub proof fn law_cursor_only_advances(x: LiveExtractorView, transcript: Seq<char>)
    requires
        x.cursor <= transcript.len() <= usize::MAX,
    ensures
        x.cursor <= cursor_after(x, transcript) <= transcript.len(),
{
}

/// Every character is shown to the model before the cursor moves past it: what
/// the pass covers is what the budget lets through.
pub proof fn law_nothing_is_skipped(x: LiveExtractorView, transcript: Seq<char>)
    requires
        x.cursor <= transcript.len() <= usize::MAX,
    ensures
        cursor_after(x, transcript) - x.cursor <= x.transcript_window_tokens * 4,
        tail(transcript, x.cursor as int).len() <= x.transcript_window_tokens * 4 ==> cursor_after(
            x,
            transcript,
        ) == transcript.len(),
{
}

/// A failed pass leaves the cursor where it is, so that the next one reads the
/// same part again.
pub proof fn law_failure_holds_the_cursor<M: MemoryStore>(
    pass: PassView,
    x: LiveExtractorView,
    agent: StepView<PipelineTool<M>>,
    work: WorkView,
    work_after: WorkView,
    x_after: LiveExtractorView,
    r: Result<LiveStepView<M>, CoreErrorView>,
)
    requires
        pass_step(pass, x, agent, work, work_after, x_after, r),
        !(r matches Ok(LiveStepView::Done(LiveExtractOutcome::Extracted { .. }))),
    ensures
        x_after == x,
{
    if let StepView::Done { outcome: Ok(outcome), .. } = agent {
        let st = choose|st: StampView| #[trigger]
            work.store.gives(st) && pass_done(
                pass,
                x,
                outcome.usage,
                work,
                st,
                work_after,
                x_after,
                r,
            );
        assert(pass_done(pass, x, outcome.usage, work, st, work_after, x_after, r));
    }
}

} // verus!
