//! Processing at the end of a session: transcript in, structured records,
//! summary and document out.
//!
//! Processing again is safe. What an earlier, failed run wrote is cleared
//! before anything new is written, and the live board makes way only in the
//! step that marks the session processed. A failure leaves the board as it was.

use vstd::prelude::*;
use crate::clock::Clock;
use crate::harness::agent::advanced;
use crate::harness::agent::Agent;
use crate::harness::agent::AgentConfig;
use crate::harness::agent::AgentRun;
use crate::harness::agent::AgentStep;
use crate::harness::agent::begun;
use crate::harness::agent::calls_made;
use crate::harness::agent::calls_of;
use crate::harness::agent::ConfigView;
use crate::harness::agent::request_of;
use crate::harness::agent::RunView;
use crate::harness::agent::StepView;
use crate::harness::context::assembled_text;
use crate::harness::context::ContextAssembler;
use crate::harness::context::ContextSection;
use crate::harness::context::SectionView;
use crate::harness::error::HarnessError;
use crate::harness::error::HarnessErrorView;
use crate::harness::llm::CompletionRequest;
use crate::harness::llm::CompletionResponse;
use crate::harness::llm::first_call;
use crate::harness::llm::Message;
use crate::harness::llm::no_usage;
use crate::harness::llm::RequestView;
use crate::harness::llm::ResponseView;
use crate::harness::llm::Usage;
use crate::harness::llm::usage_sum;
use crate::harness::llm::user_text_view;
use crate::harness::memory::model::memory_prompt;
use crate::harness::memory::store::MemoryStore;
use crate::harness::memory::tool::UpdateMemoryTool;
use crate::harness::tool::knows_tool;
use crate::harness::tool::registered;
use crate::harness::tool::Tool;
use crate::harness::tool::ToolRegistry;
use crate::harness::tool::tools_in_order;
use crate::json::Json;
use crate::json::json_parse;
use crate::notes::domain::ItemSource;
use crate::notes::domain::Session;
use crate::notes::domain::SessionStatus;
use crate::notes::domain::SessionSummaryView;
use crate::notes::domain::SessionView;
use crate::notes::error::CoreError;
use crate::notes::error::CoreErrorView;
use crate::notes::pipeline::document::BUILD_DOCUMENT;
use crate::notes::pipeline::document::BuildDocumentTool;
use crate::notes::pipeline::document::BuildDocumentToolView;
use crate::notes::pipeline::document::document_run;
use crate::notes::pipeline::document::line_ids;
use crate::notes::pipeline::prompts::add_memory;
use crate::notes::pipeline::prompts::ask_document;
use crate::notes::pipeline::prompts::ask_summary;
use crate::notes::pipeline::prompts::document_request;
use crate::notes::pipeline::prompts::EXTRACTION_PROMPT;
use crate::notes::pipeline::prompts::read_summary;
use crate::notes::pipeline::prompts::summary_in;
use crate::notes::pipeline::prompts::summary_request;
use crate::notes::pipeline::prompts::with_memory;
use crate::notes::pipeline::tools::AddItemTool;
use crate::notes::pipeline::tools::AddItemToolView;
use crate::notes::pipeline::tools::UpsertContactTool;
use crate::notes::pipeline::tools::WriteReportTool;
use crate::notes::pipeline::workspace::NotesTool;
use crate::notes::pipeline::workspace::PipelineTool;
use crate::notes::pipeline::workspace::WorkView;
use crate::notes::pipeline::workspace::Workspace;
use crate::notes::store::artifacts::latest_document;
use crate::notes::store::not_found;
use crate::notes::store::outcomes::finished_failed;
use crate::notes::store::outcomes::finished_processed;
use crate::notes::store::outcomes::outputs_cleared;
use crate::notes::store::sessions::lists_summaries;
use crate::notes::store::StampView;
use crate::notes::store::Store;
use crate::notes::store::StoreView;
use crate::text::blank;
use crate::text::concat2;
use crate::text::concat3;
use crate::text::is_blank;
use crate::text::lemma_lex_at;
use crate::text::lemma_lex_irreflexive;
use crate::text::lemma_lex_transitive;
use crate::text::lex_lt;
use crate::text::text_eq;
use crate::views::option_view;
use crate::views::result_view;
use crate::views::seq_views;

verus! {

/// The kind of document that a template leads to.
pub open spec fn doc_kind_of(template: Option<Seq<char>>) -> Seq<char> {
    match template {
        Some(t) => if t == "landscape"@ {
            "estimate"@
        } else if t == "inspection"@ {
            "inspection"@
        } else {
            "report"@
        },
        None => "report"@,
    }
}

/// The kind of document that a template leads to. Without a known template it
/// is a report, which has lines with and without amounts.
pub fn doc_kind_for_template(template: Option<&str>) -> (r: &'static str)
    ensures
        r@ == doc_kind_of(
            match template {
                Some(t) => Some(t@),
                None => None,
            },
        ),
{
    match template {
        Some(t) => if text_eq(t, "landscape") {
            "estimate"
        } else if text_eq(t, "inspection") {
            "inspection"
        } else {
            "report"
        },
        None => "report",
    }
}

/// What successful processing leaves behind.
#[derive(Debug)]
pub struct ProcessOutcome {
    pub session: Session,
    pub usage: Usage,
    /// The document of this run; none for an empty transcript.
    pub document_artifact_id: Option<String>,
}

/// The mathematical counterpart of [`ProcessOutcome`].
pub struct ProcessOutcomeView {
    pub session: SessionView,
    pub usage: Usage,
    pub document_artifact_id: Option<Seq<char>>,
}

impl View for ProcessOutcome {
    type V = ProcessOutcomeView;

    open spec fn view(&self) -> ProcessOutcomeView {
        ProcessOutcomeView {
            session: self.session@,
            usage: self.usage,
            document_artifact_id: option_view(self.document_artifact_id),
        }
    }
}

/// The budgets of processing.
#[derive(Clone, Copy, Debug, PartialEq, Eq, Structural)]
pub struct SessionProcessor {
    /// Turns of the extraction.
    pub max_turns: usize,
    pub max_tokens: u32,
    /// Tokens of the transcript, in every request.
    pub transcript_budget_tokens: usize,
    /// Output of the summary.
    pub summary_max_tokens: u32,
    /// Output of the document.
    pub build_document_max_tokens: u32,
}

/// What one run needs to know throughout.
struct Plan {
    processor: SessionProcessor,
    session_id: String,
    transcript: String,
    memory_prompt: String,
    template: Option<String>,
    doc_kind: &'static str,
    existing_doc_number: Option<u64>,
}

/// What one run needs to know throughout.
pub struct PlanView {
    pub processor: SessionProcessor,
    pub session_id: Seq<char>,
    /// The transcript as the model sees it.
    pub transcript: Seq<char>,
    pub memory_prompt: Seq<char>,
    pub template: Option<Seq<char>>,
    /// The number of the session's document, if it has one.
    pub existing_doc_number: Option<u64>,
}

impl View for Plan {
    type V = PlanView;

    closed spec fn view(&self) -> PlanView {
        PlanView {
            processor: self.processor,
            session_id: self.session_id@,
            transcript: self.transcript@,
            memory_prompt: self.memory_prompt@,
            template: option_view(self.template),
            existing_doc_number: self.existing_doc_number,
        }
    }
}

/// How far a run has come, and what it holds until then.
enum Phase<M> {
    Extracting(AgentRun<PipelineTool<M>>),
    Summarizing { usage: Usage, created_ids: Vec<String>, request: CompletionRequest },
    Building { usage: Usage, created_ids: Vec<String>, summary: String, request: CompletionRequest },
}

/// How far a run has come.
pub enum PhaseView<M> {
    /// The agent extracts records.
    Extracting(RunView<PipelineTool<M>>),
    /// The summary is asked for.
    Summarizing { usage: Usage, created_ids: Seq<Seq<char>> },
    /// The document is asked for.
    Building { usage: Usage, created_ids: Seq<Seq<char>>, summary: Seq<char> },
}

/// A run that waits for the model's reply.
pub struct ProcessRun<M> {
    plan: Plan,
    phase: Phase<M>,
}

/// The mathematical counterpart of [`ProcessRun`].
pub struct ProcessRunView<M> {
    pub plan: PlanView,
    pub phase: PhaseView<M>,
}

impl<M: MemoryStore> View for ProcessRun<M> {
    type V = ProcessRunView<M>;

    closed spec fn view(&self) -> ProcessRunView<M> {
        ProcessRunView {
            plan: self.plan@,
            phase: match self.phase {
                Phase::Extracting(run) => PhaseView::Extracting(run@),
                Phase::Summarizing { usage, created_ids, .. } => PhaseView::Summarizing {
                    usage,
                    created_ids: seq_views(created_ids@),
                },
                Phase::Building { usage, created_ids, summary, .. } => PhaseView::Building {
                    usage,
                    created_ids: seq_views(created_ids@),
                    summary: summary@,
                },
            },
        }
    }
}

/// What to do next.
pub enum ProcessStep<M> {
    /// Send the run's request to the model and hand back the reply.
    Ask(ProcessRun<M>),
    /// The run is over.
    Done(Result<ProcessOutcome, CoreError>),
}

/// What to do next, over views.
pub enum ProcessStepView<M> {
    Ask(ProcessRunView<M>),
    Done(Result<ProcessOutcomeView, CoreErrorView>),
}

impl<M: MemoryStore> View for ProcessStep<M> {
    type V = ProcessStepView<M>;

    open spec fn view(&self) -> ProcessStepView<M> {
        match self {
            ProcessStep::Ask(run) => ProcessStepView::Ask(run@),
            ProcessStep::Done(r) => ProcessStepView::Done(result_view(*r)),
        }
    }
}

/// The template as the model hears of it.
pub open spec fn template_name(template: Option<Seq<char>>) -> Seq<char> {
    match template {
        Some(t) => t,
        None => "report"@,
    }
}

/// The request that a run sends.
pub open spec fn process_request<M: MemoryStore>(run: ProcessRunView<M>) -> RequestView {
    match run.phase {
        PhaseView::Extracting(agent) => request_of(agent),
        PhaseView::Summarizing { .. } => summary_request(
            run.plan.transcript,
            run.plan.processor.summary_max_tokens,
        ),
        PhaseView::Building { .. } => document_request(
            template_name(run.plan.template),
            run.plan.memory_prompt,
            run.plan.transcript,
            run.plan.processor.build_document_max_tokens,
        ),
    }
}

/// The number in a document's body.
pub open spec fn number_in(body: Seq<char>) -> Option<u64> {
    match json_parse(body) {
        Ok(tree) => match tree.get("doc_number"@) {
            Some(n) => n.uint64(),
            None => None,
        },
        Err(_) => None,
    }
}

/// The number that the session's latest document has.
pub open spec fn number_of(v: StoreView, session_id: Seq<char>) -> Option<u64> {
    match latest_document(v, session_id) {
        Some(a) => number_in(a.body),
        None => None,
    }
}

/// The tools of the extraction, in the order of their names.
pub open spec fn extraction_tools<M: MemoryStore>(
    tools: Seq<PipelineTool<M>>,
    session_id: Seq<char>,
) -> bool {
    &&& tools.len() == 4
    &&& tools[0].tool matches NotesTool::Item(t) && t@ == (AddItemToolView {
        session_id,
        source: ItemSource::Authoritative,
        required_status: None,
        created_ids: Some(Seq::empty()),
    })
    &&& tools[1].tool matches NotesTool::Memory(t) && t.clock() == Clock::System
        && t.session() == Some(session_id)
    &&& tools[2].tool is Contact
    &&& tools[3].tool matches NotesTool::Report(t) && t@ == session_id
}

/// How the extraction runs.
pub open spec fn extraction_config(plan: PlanView) -> ConfigView {
    ConfigView {
        system_prompt: with_memory(EXTRACTION_PROMPT@, plan.memory_prompt),
        max_turns: plan.processor.max_turns,
        max_tokens: plan.processor.max_tokens,
    }
}

/// The plan of a run on a session.
pub open spec fn plan_of(
    processor: SessionProcessor,
    work: WorkView,
    session: SessionView,
    session_id: Seq<char>,
) -> PlanView {
    PlanView {
        processor,
        session_id,
        transcript: assembled_text(
            seq![
                SectionView {
                    title: "transcript"@,
                    content: session.transcript,
                    budget_tokens: processor.transcript_budget_tokens as nat,
                },
            ],
        ),
        memory_prompt: memory_prompt(work.memory, false),
        template: session.template,
        existing_doc_number: number_of(work.store, session_id),
    }
}

/// A failed run: the session is marked, the cost is logged, and what failed is
/// what is reported, even when the marking fails.
pub open spec fn process_failed<M>(
    work: WorkView,
    plan: PlanView,
    usage: Usage,
    e: HarnessErrorView,
    st: StampView,
) -> (WorkView, ProcessStepView<M>) {
    (
        WorkView { store: finished_failed(work.store, plan.session_id, usage, st).0, ..work },
        ProcessStepView::Done(Err(CoreErrorView::Agent(e))),
    )
}

/// The end of a successful run.
pub open spec fn process_finished<M>(
    work: WorkView,
    session_id: Seq<char>,
    summary: Seq<char>,
    usage: Usage,
    created_ids: Seq<Seq<char>>,
    document: Option<Seq<char>>,
    st: StampView,
) -> (WorkView, ProcessStepView<M>) {
    let (store, r) = finished_processed(work.store, session_id, summary, usage, created_ids, st);
    (
        WorkView { store, ..work },
        ProcessStepView::Done(
            match r {
                Ok(session) => Ok(
                    ProcessOutcomeView { session, usage, document_artifact_id: document },
                ),
                Err(e) => Err(e),
            },
        ),
    )
}

/// The step of the extraction after the agent's.
pub open spec fn extraction_step<M: MemoryStore>(
    plan: PlanView,
    agent: StepView<PipelineTool<M>>,
    work: WorkView,
    work_after: WorkView,
    step: ProcessStepView<M>,
) -> bool {
    match agent {
        StepView::Ask(run) => {
            &&& work_after == work
            &&& step == ProcessStepView::Ask(
                ProcessRunView { plan, phase: PhaseView::Extracting(run) },
            )
        },
        StepView::Done { tools, outcome: Ok(outcome) } => {
            &&& work_after == work
            &&& step == ProcessStepView::Ask(
                ProcessRunView::<M> {
                    plan,
                    phase: PhaseView::Summarizing {
                        usage: outcome.usage,
                        created_ids: created_by(tools),
                    },
                },
            )
        },
        StepView::Done { outcome: Err(e), .. } => exists|st: StampView| #[trigger]
            work.store.gives(st) && (work_after, step) == process_failed::<M>(
                work,
                plan,
                e.usage,
                e.source,
                st,
            ),
    }
}

/// The ids of the items that the run's item tool wrote. It comes first in the
/// order of names.
pub open spec fn created_by<M: MemoryStore>(tools: Seq<PipelineTool<M>>) -> Seq<Seq<char>> {
    if tools.len() == 0 {
        Seq::empty()
    } else {
        match tools[0].tool {
            NotesTool::Item(t) => match t@.created_ids {
                Some(ids) => ids,
                None => Seq::empty(),
            },
            _ => Seq::empty(),
        }
    }
}

/// What begins a run. Only a session that waits for processing, or one whose
/// processing failed, is processed. An empty transcript needs no model.
pub open spec fn process_begun<M: MemoryStore>(
    processor: SessionProcessor,
    work: WorkView,
    session_id: Seq<char>,
    work_after: WorkView,
    step: ProcessStepView<M>,
) -> bool {
    match work.store.session(session_id) {
        None => {
            &&& work_after == work
            &&& step == ProcessStepView::<M>::Done(Err(not_found("session"@, session_id)))
        },
        Some(session) => if session.status != SessionStatus::AwaitingProcessing && session.status
            != SessionStatus::Failed {
            &&& work_after == work
            &&& step == ProcessStepView::<M>::Done(
                Err(
                    CoreErrorView::InvalidState(
                        "cannot process a "@ + session.status.name() + " session"@,
                    ),
                ),
            )
        } else {
            exists|now: u64| #[trigger]
                work.store.clock.shows(now) && process_cleared(
                    processor,
                    work,
                    session,
                    session_id,
                    outputs_cleared(work.store, session_id, now).0,
                    work_after,
                    step,
                )
        },
    }
}

/// What follows when the outputs of an earlier run are cleared.
pub open spec fn process_cleared<M: MemoryStore>(
    processor: SessionProcessor,
    work: WorkView,
    session: SessionView,
    session_id: Seq<char>,
    cleared: StoreView,
    work_after: WorkView,
    step: ProcessStepView<M>,
) -> bool {
    let mid = WorkView { store: cleared, ..work };
    if blank(session.transcript) {
        exists|st: StampView| #[trigger]
            cleared.gives(st) && (work_after, step) == process_finished::<M>(
                mid,
                session_id,
                "(empty session)"@,
                no_usage(),
                Seq::empty(),
                None,
                st,
            )
    } else {
        let plan = plan_of(processor, work, session, session_id);
        exists|tools: Seq<PipelineTool<M>>| #[trigger]
            extraction_tools(tools, session_id) && extraction_step(
                plan,
                begun(
                    tools,
                    extraction_config(plan),
                    seq![user_text_view("Process this session.\n\n"@ + plan.transcript)],
                ),
                mid,
                work_after,
                step,
            )
    }
}

/// The step after the reply to the request for a summary. The call is counted
/// before its content is judged.
pub open spec fn summary_step<M: MemoryStore>(
    plan: PlanView,
    usage: Usage,
    created_ids: Seq<Seq<char>>,
    reply: Result<ResponseView, HarnessErrorView>,
    work: WorkView,
    work_after: WorkView,
    step: ProcessStepView<M>,
) -> bool {
    match reply {
        Err(e) => fails(plan, usage, e, work, work_after, step),
        Ok(resp) => match summary_in(resp) {
            None => fails(
                plan,
                usage_sum(usage, resp.usage),
                HarnessErrorView::Provider("summary response missing write_summary call"@),
                work,
                work_after,
                step,
            ),
            Some(summary) => {
                &&& work_after == work
                &&& step == ProcessStepView::Ask(
                    ProcessRunView::<M> {
                        plan,
                        phase: PhaseView::Building {
                            usage: usage_sum(usage, resp.usage),
                            created_ids,
                            summary,
                        },
                    },
                )
            },
        },
    }
}

/// The run fails at some time that the clock shows.
pub open spec fn fails<M>(
    plan: PlanView,
    usage: Usage,
    e: HarnessErrorView,
    work: WorkView,
    work_after: WorkView,
    step: ProcessStepView<M>,
) -> bool {
    exists|st: StampView| #[trigger]
        work.store.gives(st) && (work_after, step) == process_failed::<M>(
            work,
            plan,
            usage,
            e,
            st,
        )
}

/// The tool that builds the run's document.
pub open spec fn document_tool(plan: PlanView) -> BuildDocumentToolView {
    BuildDocumentToolView {
        session_id: plan.session_id,
        doc_kind: doc_kind_of(plan.template),
        existing_doc_number: plan.existing_doc_number,
    }
}

/// The step after the reply to the request for a document.
pub open spec fn document_step<M: MemoryStore>(
    plan: PlanView,
    usage: Usage,
    created_ids: Seq<Seq<char>>,
    summary: Seq<char>,
    reply: Result<ResponseView, HarnessErrorView>,
    work: WorkView,
    work_after: WorkView,
    step: ProcessStepView<M>,
) -> bool {
    match reply {
        Err(e) => fails(plan, usage, e, work, work_after, step),
        Ok(resp) => match first_call(resp.content, BUILD_DOCUMENT@) {
            None => fails(
                plan,
                usage_sum(usage, resp.usage),
                HarnessErrorView::Provider("build_document response missing build_document call"@),
                work,
                work_after,
                step,
            ),
            Some(input) => exists|ids: Seq<Seq<char>>, st: StampView|
                work.store.gives(st) && line_ids(input, ids) && built_step(
                    plan,
                    usage_sum(usage, resp.usage),
                    created_ids,
                    summary,
                    work,
                    #[trigger] document_run(work.store, document_tool(plan), input, ids, st),
                    work_after,
                    step,
                ),
        },
    }
}

/// The step after the document tool ran. The document that the session then
/// shows is the run's.
pub open spec fn built_step<M: MemoryStore>(
    plan: PlanView,
    usage: Usage,
    created_ids: Seq<Seq<char>>,
    summary: Seq<char>,
    work: WorkView,
    built: (StoreView, Result<Seq<char>, HarnessErrorView>),
    work_after: WorkView,
    step: ProcessStepView<M>,
) -> bool {
    let mid = WorkView { store: built.0, ..work };
    match built.1 {
        Err(e) => fails(plan, usage, e, mid, work_after, step),
        Ok(_) => match latest_document(built.0, plan.session_id) {
            None => fails(
                plan,
                usage,
                HarnessErrorView::Provider("document artifact missing immediately after build"@),
                mid,
                work_after,
                step,
            ),
            Some(a) => exists|st: StampView| #[trigger]
                mid.store.gives(st) && (work_after, step) == process_finished::<M>(
                    mid,
                    plan.session_id,
                    summary,
                    usage,
                    created_ids,
                    Some(a.id),
                    st,
                ),
        },
    }
}

/// What a reply does to a run.
pub open spec fn process_advanced<M: MemoryStore>(
    run: ProcessRunView<M>,
    before: Workspace<M>,
    reply: Result<ResponseView, HarnessErrorView>,
    after: Workspace<M>,
    step: ProcessStepView<M>,
) -> bool {
    match run.phase {
        PhaseView::Extracting(agent) => exists|
            tools: Seq<Seq<PipelineTool<M>>>,
            envs: Seq<Workspace<M>>,
            results: Seq<Result<Seq<char>, HarnessErrorView>>,
        | #[trigger]
            calls_made(calls_of(reply), tools, envs, results) && tools[0] == agent.tools && envs[0]
                == before && extraction_step(
                run.plan,
                advanced(agent, reply, tools.last(), results),
                envs.last()@,
                after@,
                step,
            ),
        PhaseView::Summarizing { usage, created_ids } => summary_step(
            run.plan,
            usage,
            created_ids,
            reply,
            before@,
            after@,
            step,
        ),
        PhaseView::Building { usage, created_ids, summary } => document_step(
            run.plan,
            usage,
            created_ids,
            summary,
            reply,
            before@,
            after@,
            step,
        ),
    }
}

/// Reads the number in a document's body.
fn read_number(body: &str) -> (r: Option<u64>)
    ensures
        r == number_in(body@),
{
    match Json::parse(body) {
        Ok(tree) => match tree.get("doc_number") {
            Some(n) => n.as_u64(),
            None => None,
        },
        Err(_) => None,
    }
}

/// The tools of the extraction.
fn make_tools<M: MemoryStore>(session_id: &str) -> (r: ToolRegistry<PipelineTool<M>>)
    ensures
        r.wf(),
        extraction_tools(r@, session_id@),
{
    let mut registry: ToolRegistry<PipelineTool<M>> = ToolRegistry::new();
    proof {
        lemma_tool_names();
    }
    let item: PipelineTool<M> = PipelineTool::new(
        NotesTool::Item(AddItemTool::authoritative(session_id)),
    );
    registry.register(item);
    assert(registry@ =~= seq![item]);
    let memory: PipelineTool<M> = PipelineTool::new(
        NotesTool::Memory(UpdateMemoryTool::new().for_session(session_id.to_string())),
    );
    let ghost before = registry@;
    registry.register(memory);
    proof {
        lemma_registered_last(before, memory, registry@);
    }
    let contact: PipelineTool<M> = PipelineTool::new(
        NotesTool::Contact(UpsertContactTool::new()),
    );
    let ghost before = registry@;
    registry.register(contact);
    proof {
        lemma_registered_last(before, contact, registry@);
    }
    let report: PipelineTool<M> = PipelineTool::new(
        NotesTool::Report(WriteReportTool::new(session_id)),
    );
    let ghost before = registry@;
    registry.register(report);
    proof {
        lemma_registered_last(before, report, registry@);
    }
    registry
}

/// A tool whose name follows all others goes to the end.
proof fn lemma_registered_last<T: Tool>(before: Seq<T>, tool: T, after: Seq<T>)
    requires
        registered(before, tool, after),
        tools_in_order(before),
        before.len() > 0,
        lex_lt(before.last().offered().name, tool.offered().name),
    ensures
        after == before.push(tool),
{
    let name = tool.offered().name;
    assert forall|i: int| 0 <= i < before.len() implies lex_lt(
        (#[trigger] before[i]).offered().name,
        name,
    ) by {
        if i < before.len() - 1 {
            lemma_lex_transitive(before[i].offered().name, before.last().offered().name, name);
        }
    }
    lemma_lex_irreflexive(name);
    assert(!knows_tool(before, name));
    let i = choose|i: int| 0 <= i <= before.len() && after == #[trigger] before.insert(i, tool);
    if i < before.len() {
        assert(after[i] == tool);
        assert(after[i + 1] == before[i]);
        lemma_lex_transitive(name, before[i].offered().name, name);
    }
    assert(after =~= before.push(tool));
}

/// The ids of the items that the run's item tool wrote.
fn take_created<M: MemoryStore>(registry: &ToolRegistry<PipelineTool<M>>) -> (r: Vec<String>)
    ensures
        seq_views(r@) == created_by(registry@),
{
    let tools = registry.tools();
    if tools.len() > 0 {
        if let NotesTool::Item(t) = &tools[0].tool {
            if let Some(ids) = t.created_ids() {
                return copy_texts(ids);
            }
        }
    }
    let none: Vec<String> = Vec::new();
    assert(seq_views(none@) =~= Seq::empty());
    none
}

/// Copies a list of texts.
fn copy_texts(texts: &Vec<String>) -> (r: Vec<String>)
    ensures
        seq_views(r@) == seq_views(texts@),
{
    let mut out: Vec<String> = Vec::new();
    let mut i: usize = 0;
    while i < texts.len()
        invariant
            i <= texts.len(),
            out.len() == i,
            forall|k: int| 0 <= k < i ==> (#[trigger] out@[k])@ == texts@[k]@,
        decreases texts.len() - i,
    {
        out.push(texts[i].clone());
        i = i + 1;
    }
    assert(seq_views(out@) =~= seq_views(texts@));
    out
}

impl Default for SessionProcessor {
    fn default() -> (r: SessionProcessor)
        ensures
            r == default_processor(),
    {
        SessionProcessor {
            max_turns: 16,
            max_tokens: 4096,
            transcript_budget_tokens: 12000,
            summary_max_tokens: 512,
            build_document_max_tokens: 1024,
        }
    }
}

/// The usual budgets.
pub open spec fn default_processor() -> SessionProcessor {
    SessionProcessor {
        max_turns: 16,
        max_tokens: 4096,
        transcript_budget_tokens: 12000,
        summary_max_tokens: 512,
        build_document_max_tokens: 1024,
    }
}

impl SessionProcessor {
    /// Processing with the usual budgets.
    pub fn new() -> (r: SessionProcessor)
        ensures
            r == default_processor(),
    {
        SessionProcessor::default()
    }

    /// Begins to process a session that has ended. What an earlier run wrote is
    /// cleared first; the live board stays until the end.
    pub fn process<M: MemoryStore>(&self, work: &mut Workspace<M>, session_id: &str) -> (r:
        ProcessStep<M>)
        requires
            old(work).wf(),
        ensures
            final(work).wf(),
            r.wf(),
            process_begun(*self, old(work)@, session_id@, final(work)@, r@),
    {
        let session = match work.store.get_session(session_id) {
            Ok(s) => s,
            Err(e) => {
                return ProcessStep::Done(Err(e));
            },
        };
        if session.status != SessionStatus::AwaitingProcessing && session.status
            != SessionStatus::Failed {
            return ProcessStep::Done(
                Err(
                    CoreError::InvalidState(
                        concat3("cannot process a ", session.status.as_str(), " session"),
                    ),
                ),
            );
        }
        let existing_doc_number = match work.store.latest_document_artifact(session_id) {
            Ok(Some(a)) => read_number(a.body.as_str()),
            Ok(None) => None,
            Err(e) => {
                return ProcessStep::Done(Err(e));
            },
        };
        if let Err(e) = work.store.clear_authoritative_outputs(session_id) {
            return ProcessStep::Done(Err(e));
        }
        if is_blank(session.transcript.as_str()) {
            let usage = Usage::default();
            let none: Vec<String> = Vec::new();
            assert(seq_views(none@) =~= Seq::empty());
            return match work.store.finish_session_processed(
                session_id,
                "(empty session)",
                &usage,
                &none,
            ) {
                Ok(session) => ProcessStep::Done(
                    Ok(ProcessOutcome { session, usage, document_artifact_id: None }),
                ),
                Err(e) => ProcessStep::Done(Err(e)),
            };
        }
        let mut sections: Vec<ContextSection> = Vec::new();
        sections.push(
            ContextSection {
                title: "transcript".to_string(),
                content: session.transcript,
                budget_tokens: self.transcript_budget_tokens,
            },
        );
        let assembled = ContextAssembler::assemble(sections.as_slice());
        let doc_kind = match &session.template {
            Some(t) => doc_kind_for_template(Some(t.as_str())),
            None => doc_kind_for_template(None),
        };
        let plan = Plan {
            processor: *self,
            session_id: session_id.to_string(),
            transcript: assembled.text,
            memory_prompt: work.memory.to_prompt(),
            template: session.template,
            doc_kind,
            existing_doc_number,
        };
        assert(plan@ == plan_of(*self, old(work)@, session@, session_id@)) by {
            assert(seq_views(sections@) =~= seq![
                SectionView {
                    title: "transcript"@,
                    content: session@.transcript,
                    budget_tokens: self.transcript_budget_tokens as nat,
                },
            ]);
        }
        let tools = make_tools(session_id);
        let config = AgentConfig {
            system_prompt: add_memory(EXTRACTION_PROMPT, plan.memory_prompt.as_str()),
            max_turns: self.max_turns,
            max_tokens: self.max_tokens,
        };
        let mut messages: Vec<Message> = Vec::new();
        messages.push(
            Message::user_text(concat2("Process this session.\n\n", plan.transcript.as_str())),
        );
        assert(seq_views(messages@) =~= seq![
            user_text_view("Process this session.\n\n"@ + plan@.transcript),
        ]);
        let step = Agent::new(tools, config).run(messages);
        settle_extraction(plan, step, work)
    }
}

/// The sessions that wait for processing, the newest first: it is the one that
/// the user waits for. Failed sessions are not among them; to try them again is
/// up to the user.
pub(crate) fn pending_ids(store: &Store) -> (r: Result<Vec<String>, CoreError>)
    requires
        store.wf(),
    ensures
        r matches Ok(ids) && lists_pending(store@, seq_views(ids@)),
{
    let queued = match store.list_session_summaries_by_status(
        SessionStatus::AwaitingProcessing,
    ) {
        Ok(v) => v,
        Err(e) => {
            return Err(e);
        },
    };
    let mut ids: Vec<String> = Vec::new();
    let mut i: usize = 0;
    while i < queued.len()
        invariant
            i <= queued.len(),
            ids.len() == i,
            forall|k: int| 0 <= k < i ==> (#[trigger] ids@[k])@ == queued@[k]@.id,
        decreases queued.len() - i,
    {
        ids.push(queued[i].id.clone());
        i = i + 1;
    }
    proof {
        let views = seq_views(queued@);
        let status = SessionStatus::AwaitingProcessing;
        assert((|s: SessionView| s.status == status) =~= (|s: SessionView|
            s.status == SessionStatus::AwaitingProcessing));
        assert(lists_waiting(store@, views));
        assert(seq_views(ids@) =~= Seq::new(views.len(), |k: int| views[k].id));
    }
    Ok(ids)
}

/// These are the ids of the sessions that wait for processing, newest first.
pub open spec fn lists_pending(v: StoreView, ids: Seq<Seq<char>>) -> bool {
    exists|out: Seq<SessionSummaryView>| #[trigger]
        lists_waiting(v, out) && ids == Seq::new(out.len(), |k: int| out[k].id)
}

/// These are the sessions that wait for processing, newest first.
pub open spec fn lists_waiting(v: StoreView, out: Seq<SessionSummaryView>) -> bool {
    lists_summaries(v, |s: SessionView| s.status == SessionStatus::AwaitingProcessing, out)
}

/// Takes the agent's step over into the run.
fn settle_extraction<M: MemoryStore>(
    plan: Plan,
    step: AgentStep<PipelineTool<M>>,
    work: &mut Workspace<M>,
) -> (r: ProcessStep<M>)
    requires
        old(work).wf(),
        plan.wf(),
        step.wf(),
    ensures
        final(work).wf(),
        r.wf(),
        extraction_step(plan@, step@, old(work)@, final(work)@, r@),
{
    match step {
        AgentStep::Ask(run) => ProcessStep::Ask(
            ProcessRun { plan, phase: Phase::Extracting(run) },
        ),
        AgentStep::Done { tools, outcome } => match outcome {
            Ok(outcome) => {
                let created_ids = take_created(&tools);
                let request = ask_summary(
                    plan.transcript.as_str(),
                    plan.processor.summary_max_tokens,
                );
                ProcessStep::Ask(
                    ProcessRun {
                        plan,
                        phase: Phase::Summarizing { usage: outcome.usage, created_ids, request },
                    },
                )
            },
            Err(e) => plan.fail(work, e.usage, e.source),
        },
    }
}

impl Plan {
    /// The kind of document is that of the template.
    spec fn wf(&self) -> bool {
        self.doc_kind@ == doc_kind_of(option_view(self.template))
    }

    /// Marks the session failed, logs the cost, and reports what failed.
    fn fail<M: MemoryStore>(&self, work: &mut Workspace<M>, usage: Usage, e: HarnessError) -> (r:
        ProcessStep<M>)
        requires
            old(work).wf(),
        ensures
            final(work).wf(),
            r.wf(),
            fails(self@, usage, e@, old(work)@, final(work)@, r@),
    {
        let _ = work.store.finish_session_failed(self.session_id.as_str(), &usage);
        ProcessStep::Done(Err(CoreError::Agent(e)))
    }
}

impl<M: MemoryStore> ProcessStep<M> {
    /// A step that can be taken.
    pub open spec fn wf(&self) -> bool {
        match self {
            ProcessStep::Ask(run) => run.wf(),
            ProcessStep::Done(_) => true,
        }
    }
}

impl<M: MemoryStore> ProcessRun<M> {
    /// The request is the one that the phase calls for.
    pub closed spec fn wf(&self) -> bool {
        &&& self.plan.wf()
        &&& match self.phase {
            Phase::Extracting(run) => run.wf(),
            Phase::Summarizing { request, .. } => request@ == process_request(self@),
            Phase::Building { request, .. } => request@ == process_request(self@),
        }
    }

    /// The request to send.
    pub fn request(&self) -> (r: &CompletionRequest)
        requires
            self.wf(),
        ensures
            r@ == process_request(self@),
    {
        match &self.phase {
            Phase::Extracting(run) => run.request(),
            Phase::Summarizing { request, .. } => request,
            Phase::Building { request, .. } => request,
        }
    }

    /// Takes the model's reply and says what to do next. A failure marks the
    /// session failed; its cost is logged all the same.
    pub fn advance(
        self,
        work: &mut Workspace<M>,
        reply: Result<CompletionResponse, HarnessError>,
    ) -> (r: ProcessStep<M>)
        requires
            self.wf(),
            old(work).wf(),
        ensures
            final(work).wf(),
            r.wf(),
            process_advanced(self@, *old(work), result_view(reply), *final(work), r@),
    {
        let ghost before = *work;
        match self.phase {
            Phase::Extracting(run) => {
                let step = run.advance(work, reply);
                settle_extraction(self.plan, step, work)
            },
            Phase::Summarizing { usage, created_ids, .. } => take_summary(
                self.plan,
                usage,
                created_ids,
                work,
                reply,
            ),
            Phase::Building { usage, created_ids, summary, .. } => take_document(
                self.plan,
                usage,
                created_ids,
                summary,
                work,
                reply,
            ),
        }
    }
}

/// Takes the reply to the request for a summary.
fn take_summary<M: MemoryStore>(
    plan: Plan,
    usage: Usage,
    created_ids: Vec<String>,
    work: &mut Workspace<M>,
    reply: Result<CompletionResponse, HarnessError>,
) -> (r: ProcessStep<M>)
    requires
        old(work).wf(),
        plan.wf(),
    ensures
        final(work).wf(),
        r.wf(),
        summary_step(
            plan@,
            usage,
            seq_views(created_ids@),
            result_view(reply),
            old(work)@,
            final(work)@,
            r@,
        ),
{
    let mut usage = usage;
    let resp = match reply {
        Ok(resp) => resp,
        Err(e) => {
            return plan.fail(work, usage, e);
        },
    };
    usage.add(&resp.usage);
    match read_summary(&resp) {
        None => plan.fail(
            work,
            usage,
            HarnessError::Provider("summary response missing write_summary call".to_string()),
        ),
        Some(summary) => {
            let template = match &plan.template {
                Some(t) => t.as_str(),
                None => "report",
            };
            let request = ask_document(
                template,
                plan.memory_prompt.as_str(),
                plan.transcript.as_str(),
                plan.processor.build_document_max_tokens,
            );
            ProcessStep::Ask(
                ProcessRun { plan, phase: Phase::Building { usage, created_ids, summary, request } },
            )
        },
    }
}

/// Takes the reply to the request for a document.
fn take_document<M: MemoryStore>(
    plan: Plan,
    usage: Usage,
    created_ids: Vec<String>,
    summary: String,
    work: &mut Workspace<M>,
    reply: Result<CompletionResponse, HarnessError>,
) -> (r: ProcessStep<M>)
    requires
        old(work).wf(),
        plan.wf(),
    ensures
        final(work).wf(),
        r.wf(),
        document_step(
            plan@,
            usage,
            seq_views(created_ids@),
            summary@,
            result_view(reply),
            old(work)@,
            final(work)@,
            r@,
        ),
{
    let mut usage = usage;
    let resp = match reply {
        Ok(resp) => resp,
        Err(e) => {
            return plan.fail(work, usage, e);
        },
    };
    usage.add(&resp.usage);
    let input = match resp.find_call(BUILD_DOCUMENT) {
        Some(input) => input,
        None => {
            return plan.fail(
                work,
                usage,
                HarnessError::Provider(
                    "build_document response missing build_document call".to_string(),
                ),
            );
        },
    };
    let tool = BuildDocumentTool::new(
        plan.session_id.as_str(),
        plan.doc_kind,
        plan.existing_doc_number,
    );
    if let Err(e) = tool.execute(&mut work.store, input) {
        return plan.fail(work, usage, e);
    }
    match work.store.latest_document_artifact(plan.session_id.as_str()) {
        Err(e) => plan.fail(work, usage, HarnessError::Provider(e.to_text())),
        Ok(None) => plan.fail(
            work,
            usage,
            HarnessError::Provider("document artifact missing immediately after build".to_string()),
        ),
        Ok(Some(a)) => match work.store.finish_session_processed(
            plan.session_id.as_str(),
            summary.as_str(),
            &usage,
            &created_ids,
        ) {
            Ok(session) => ProcessStep::Done(
                Ok(ProcessOutcome { session, usage, document_artifact_id: Some(a.id) }),
            ),
            Err(e) => ProcessStep::Done(Err(e)),
        },
    }
}

proof fn lemma_tool_names()
    ensures
        lex_lt("add_item"@, "update_memory"@),
        lex_lt("update_memory"@, "upsert_contact"@),
        lex_lt("upsert_contact"@, "write_report"@),
{
    reveal_strlit("add_item");
    reveal_strlit("update_memory");
    reveal_strlit("upsert_contact");
    reveal_strlit("write_report");
    lemma_lex_at("add_item"@, "update_memory"@, 0);
    lemma_lex_at("update_memory"@, "upsert_contact"@, 2);
    lemma_lex_at("upsert_contact"@, "write_report"@, 0);
}

} // verus!
