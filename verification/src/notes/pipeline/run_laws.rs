//! What processing a session does at each reply, said of the session.

use vstd::prelude::*;
use crate::harness::base_laws::law_sections_one_by_one;
use crate::harness::context::section_texts_of;
use crate::harness::context::SectionView;
use crate::harness::error::HarnessError;
use crate::harness::error::HarnessErrorView;
use crate::harness::llm::BlockView;
use crate::harness::llm::CompletionRequest;
use crate::harness::llm::CompletionResponse;
use crate::harness::memory::model::memory_prompt;
use crate::harness::memory::store::MemoryStore;
use crate::json::Json;
use crate::json::json_parse;
use crate::json::JsonView;
use crate::notes::domain::Artifact;
use crate::notes::domain::ItemSource;
use crate::notes::domain::SessionStatus;
use crate::notes::domain::SessionSummaryView;
use crate::notes::domain::SessionView;
use crate::notes::domain::summarized;
use crate::notes::error::CoreError;
use crate::notes::pipeline::document::BuildDocumentTool;
use crate::notes::pipeline::document::document_payload;
use crate::notes::pipeline::document_laws::law_document_holds_what_was_written;
use crate::notes::pipeline::document_laws::law_document_is_refused_only_for_cause;
use crate::notes::pipeline::document_laws::law_gap_only_where_said_or_unpriced;
use crate::notes::pipeline::document_laws::law_line_says_what_was_written;
use crate::notes::pipeline::processor::lists_pending;
use crate::notes::pipeline::processor::lists_waiting;
use crate::notes::pipeline::processor::number_in;
use crate::notes::pipeline::processor::PhaseView;
use crate::notes::pipeline::processor::plan_of;
use crate::notes::pipeline::processor::ProcessRun;
use crate::notes::pipeline::processor::ProcessStep;
use crate::notes::pipeline::processor::ProcessStepView;
use crate::notes::pipeline::processor::SessionProcessor;
use crate::notes::pipeline::processor::template_name;
use crate::notes::pipeline::prompts::DOCUMENT_PROMPT;
use crate::notes::pipeline::prompts::summary_in;
use crate::notes::pipeline::workspace::notes_run;
use crate::notes::pipeline::workspace::NotesTool;
use crate::notes::pipeline::workspace::Workspace;
use crate::notes::pipeline::workspace::WorkView;
use crate::notes::store::documents::number_for;
use crate::notes::store::documents::takes_number;
use crate::notes::store::sessions::lists_sessions;
use crate::notes::store::sessions::newer;
use crate::notes::store::Stamp;
use crate::notes::store::Store;
use crate::notes::store::StoreView;
use crate::text::blank;
use crate::text::decimal;
use crate::views::seq_views;

verus! {

/// Processing begins only on a session that waits for it or whose processing
/// failed; any other is an error, and nothing changes. A session that said nothing
/// is done at once, without the model. Otherwise the extraction is asked for, with
/// the four tools of the session, and what an earlier run wrote is gone, while what
/// was noted by hand or live stays.
pub proof fn law_process<M: MemoryStore>(
    processor: &SessionProcessor,
    work: &mut Workspace<M>,
    session_id: &str,
    r: ProcessStep<M>,
    k: Seq<char>,
)
    requires
        old(work).wf(),
        processor.max_turns > 0,
        call_ensures(SessionProcessor::process::<M>, (processor, work, session_id), r),
    ensures
        ({
            let v = old(work)@.store;
            let w = final(work)@.store;
            let session = v.session(session_id@);
            let waits = session is Some && (session->0.status == SessionStatus::AwaitingProcessing
                || session->0.status == SessionStatus::Failed);
            &&& final(work)@.memory == old(work)@.memory
            &&& session is None ==> final(work)@ == old(work)@ && (
            r@ matches ProcessStepView::Done(Err(e)) && e is NotFound)
            &&& session is Some && !waits ==> final(work)@ == old(work)@ && (
            r@ matches ProcessStepView::Done(Err(e)) && e is InvalidState)
            &&& waits && blank(session->0.transcript) ==> r@ is Done && (
            r@ matches ProcessStepView::Done(Ok(o)) ==> o.session.status == SessionStatus::Processed
                && w.session(session_id@) == Some(o.session) && o.usage.input_tokens == 0
                && o.usage.output_tokens == 0 && o.document_artifact_id is None
                && o.session.summary == Some("(empty session)"@))
            &&& waits && !blank(session->0.transcript) ==> (r@ matches ProcessStepView::Ask(run)
                && run.plan.session_id == session_id@ && run.plan.template == session->0.template
                && run.plan.processor == *processor && (
            run.phase matches PhaseView::Extracting(agent) && agent.tools.len() == 4
                && agent.config.max_turns == processor.max_turns && agent.config.max_tokens
                == processor.max_tokens && (agent.tools[0].tool matches NotesTool::Item(t)
                && t@.session_id == session_id@ && t@.source == ItemSource::Authoritative
                && t@.created_ids is Some) && agent.tools[1].tool is Memory && agent.tools[2].tool
                is Contact && (agent.tools[3].tool matches NotesTool::Report(t) && t@
                == session_id@)) && w.session(session_id@) == session)
            &&& waits && !blank(session->0.transcript) && v.item(k) is Some && (
            v.item(k)->0.source != ItemSource::Authoritative || v.item(k)->0.session_id
                != session_id@) ==> w.item(k) == v.item(k)
            &&& waits && !blank(session->0.transcript) && v.item(k) is Some
                && v.item(k)->0.source == ItemSource::Authoritative && v.item(k)->0.session_id
                == session_id@ ==> w.item(k) is None
            &&& waits && !blank(session->0.transcript) && v.artifact(k) is Some ==> (if v.artifact(
                k,
            )->0.session_id == session_id@ {
                w.artifact(k) is None
            } else {
                w.artifact(k) == v.artifact(k)
            })
        }),
{
}

/// Of the calls that need no agent, each offers the one tool that it forces, within
/// its own limit.
pub proof fn law_process_request<M: MemoryStore>(run: &ProcessRun<M>, r: &CompletionRequest)
    requires
        run.wf(),
        call_ensures(ProcessRun::<M>::request, (run,), r),
    ensures
        run@.phase is Summarizing ==> r@.tools.len() == 1 && r@.tools[0].name == "write_summary"@
            && r@.tool_choice == Some("write_summary"@) && r@.max_tokens
            == run@.plan.processor.summary_max_tokens,
        run@.phase is Building ==> r@.tools.len() == 1 && r@.tools[0].name == "build_document"@
            && r@.tool_choice == Some("build_document"@) && r@.max_tokens
            == run@.plan.processor.build_document_max_tokens,
        run@.phase is Extracting ==> r@.tool_choice is None,
{
}

/// The reply to the request for a summary: with a summary the run goes on to the
/// document and nothing is written; without one it fails.
pub proof fn law_summary_reply<M: MemoryStore>(
    run: ProcessRun<M>,
    work: &mut Workspace<M>,
    reply: Result<CompletionResponse, HarnessError>,
    r: ProcessStep<M>,
)
    requires
        run.wf(),
        old(work).wf(),
        run@.phase is Summarizing,
        call_ensures(ProcessRun::<M>::advance, (run, work, reply), r),
    ensures
        ({
            let spent = run@.phase->Summarizing_usage;
            let summary = if reply is Ok {
                summary_in(reply->Ok_0@)
            } else {
                None
            };
            &&& summary is None ==> (r@ matches ProcessStepView::Done(Err(e)) && e is Agent)
                && final(work)@.store.items == old(work)@.store.items
                && final(work)@.store.artifacts == old(work)@.store.artifacts
            &&& summary is Some ==> final(work)@ == old(work)@ && (
            r@ matches ProcessStepView::Ask(next) && next.plan == run@.plan && (
            next.phase matches PhaseView::Building { usage, created_ids, summary: s } && s
                == summary->0 && created_ids == run@.phase->Summarizing_created_ids && (
            spent.input_tokens + reply->Ok_0.usage.input_tokens <= u64::MAX ==> usage.input_tokens
                == spent.input_tokens + reply->Ok_0.usage.input_tokens) && (spent.output_tokens
                + reply->Ok_0.usage.output_tokens <= u64::MAX ==> usage.output_tokens
                == spent.output_tokens + reply->Ok_0.usage.output_tokens)))
        }),
{
}

/// A run that ends well leaves a processed session with the run's summary, its cost
/// logged, and its latest document is the one that is reported.
pub proof fn law_document_reply<M: MemoryStore>(
    run: ProcessRun<M>,
    work: &mut Workspace<M>,
    reply: Result<CompletionResponse, HarnessError>,
    r: ProcessStep<M>,
)
    requires
        run.wf(),
        old(work).wf(),
        run@.phase is Building,
        call_ensures(ProcessRun::<M>::advance, (run, work, reply), r),
    ensures
        r@ is Done,
        reply is Err ==> r@->Done_0 is Err,
        r@ matches ProcessStepView::Done(Ok(o)) ==> {
            let w = final(work)@.store;
            let id = run@.plan.session_id;
            &&& w.session(id) == Some(o.session)
            &&& o.session.status == SessionStatus::Processed
            &&& o.session.summary == Some(run@.phase->Building_summary)
            &&& o.document_artifact_id is Some
            &&& w.artifact(o.document_artifact_id->0) is Some
            &&& w.artifact(o.document_artifact_id->0)->0.session_id == id
            &&& w.artifact(o.document_artifact_id->0)->0.kind == "document"@
            &&& w.usage.len() > 0
            &&& w.usage.last().session_id == Some(id)
            &&& w.usage.last().purpose == "processing"@
            &&& w.usage.last().input_tokens == o.usage.input_tokens
            &&& w.usage.last().output_tokens == o.usage.output_tokens
        },
{
}

/// A document is written under the number that it has, or else under the next one
/// of its kind, which is then taken; its title names kind and number. What fails
/// takes no number and writes nothing.
pub proof fn law_write_document(
    store: &mut Store,
    session_id: &str,
    doc_kind: &str,
    existing: Option<u64>,
    payload: Json,
    st: Stamp,
    r: Result<Artifact, CoreError>,
)
    requires
        old(store).wf(),
        takes_number(payload@),
        call_ensures(
            Store::write_document_as,
            (store, session_id, doc_kind, existing, payload, st),
            r,
        ),
    ensures
        r is Err ==> final(store)@ == old(store)@,
        r matches Ok(a) ==> {
            let n = number_for(old(store)@, doc_kind@, existing);
            &&& existing is Some ==> n == existing->0 && final(store)@.sequences
                == old(store)@.sequences
            &&& existing is None ==> final(store)@.sequences.contains_key(doc_kind@) && final(
                store)@.sequences[doc_kind@].last == n && (if old(
                store)@.sequences.contains_key(doc_kind@) {
                n == old(store)@.sequences[doc_kind@].last + 1
            } else {
                n == 1
            })
            &&& old(store)@.session(session_id@) is Some
            &&& old(store)@.artifact(a@.id) is None
            &&& final(store)@.artifact(a@.id) == Some(a@)
            &&& a@.session_id == session_id@
            &&& a@.kind == "document"@
            &&& a@.title == doc_kind@ + " #"@ + decimal(n as nat)
            &&& final(store)@.items == old(store)@.items
            &&& final(store)@.sessions == old(store)@.sessions
        },
{
}

/// The number of a document is the count that its body holds under `doc_number`.
pub proof fn law_number_in(body: Seq<char>)
    ensures
        match json_parse(body) {
            Ok(tree) => match tree.get("doc_number"@) {
                Some(JsonView::Uint(n)) => number_in(body) == Some(n),
                Some(JsonView::Int(n)) => n < 0 ==> number_in(body) is None,
                _ => number_in(body) is None,
            },
            Err(_) => number_in(body) is None,
        },
{
}

/// The document that the tool builds is stored for its session, under its number,
/// dated by the beginning of the session, and reads back as it was built: its lines
/// are those of the input. What is refused writes nothing.
pub proof fn law_build_document(
    tool: &BuildDocumentTool,
    store: &mut Store,
    input: &Json,
    ids: &Vec<String>,
    st: Stamp,
    r: Result<String, HarnessError>,
    i: int,
)
    requires
        old(store).wf(),
        call_ensures(BuildDocumentTool::execute_as, (tool, store, input, ids, st), r),
    ensures
        r is Err ==> final(store)@ == old(store)@,
        document_payload(input@, tool@.doc_kind, 0, seq_views(ids@)) is Err ==> r is Err,
        r is Ok ==> {
            let a = final(store)@.artifact(st@.id)->0;
            let tree = json_parse(a.body)->Ok_0;
            let n = number_for(old(store)@, tool@.doc_kind, tool@.existing_doc_number);
            &&& old(store)@.session(tool@.session_id) is Some
            &&& old(store)@.artifact(st@.id) is None
            &&& final(store)@.artifact(st@.id) is Some
            &&& a.session_id == tool@.session_id
            &&& a.kind == "document"@
            &&& json_parse(a.body) is Ok
            &&& tree.get("doc_kind"@) == Some(JsonView::Str(tool@.doc_kind))
            &&& tree.get("doc_number"@) == Some(JsonView::Uint(n))
            &&& tool@.existing_doc_number is Some ==> n == tool@.existing_doc_number->0
            &&& tree.get("job_date_unix"@) == Some(
                JsonView::Uint(old(store)@.session(tool@.session_id)->0.started_at),
            )
            &&& input@.get("lines"@) matches Some(JsonView::Array(lines)) && (tree.get(
                "lines"@,
            ) matches Some(JsonView::Array(built)) && built.len() == lines.len() && (0 <= i
                < lines.len() ==> built[i].get("title"@) == lines[i].get("title"@) && (lines[i].get(
                "is_gap"@,
            ) matches Some(JsonView::Bool(said)) ==> built[i].get("is_gap"@) == Some(
                JsonView::Bool(said),
            ))))
        },
{
    if r is Ok {
        let v = old(store)@;
        let started = v.session(tool@.session_id)->0.started_at;
        let n = number_for(v, tool@.doc_kind, tool@.existing_doc_number);
        let lines = input@.get("lines"@)->0->Array_0;
        law_document_holds_what_was_written(
            input@,
            tool@.doc_kind,
            started,
            seq_views(ids@),
            n,
        );
        if 0 <= i < lines.len() {
            law_line_says_what_was_written(lines, tool@.doc_kind, seq_views(ids@), i);
            law_gap_only_where_said_or_unpriced(lines, tool@.doc_kind, seq_views(ids@), i);
        } else if lines.len() > 0 {
            law_line_says_what_was_written(lines, tool@.doc_kind, seq_views(ids@), 0);
        }
    } else {
        law_document_is_refused_only_for_cause(input@, tool@.doc_kind, 0, seq_views(ids@));
    }
    let started = match old(store)@.session(tool@.session_id) {
        Some(s) => s.started_at,
        None => 0,
    };
    law_document_is_refused_only_for_cause(input@, tool@.doc_kind, 0, seq_views(ids@));
    law_document_is_refused_only_for_cause(input@, tool@.doc_kind, started, seq_views(ids@));
}

/// A tool stays what it is. One that writes records leaves the memory alone, and the
/// one that writes the memory leaves the records alone.
pub proof fn law_tools_keep_apart(
    before: NotesTool,
    work: WorkView,
    input: JsonView,
    after: NotesTool,
    work_after: WorkView,
    result: Result<Seq<char>, HarnessErrorView>,
)
    requires
        notes_run(before, work, input, after, work_after, result),
    ensures
        before is Item <==> after is Item,
        before is Contact <==> after is Contact,
        before is Report <==> after is Report,
        before is Memory <==> after is Memory,
        !(before is Memory) ==> work_after.memory == work.memory && work_after.saves == work.saves,
        before is Memory ==> work_after.store == work.store,
        work_after.store.sessions == work.store.sessions,
        work_after.store.signals == work.store.signals,
        !(before is Item) ==> work_after.store.items == work.store.items,
        !(before is Contact) ==> work_after.store.contacts == work.store.contacts,
        !(before is Report) ==> work_after.store.artifacts == work.store.artifacts,
{
}

/// The queue is the sessions that wait for processing, and no others, the later one
/// first. Times beyond what the database holds are left aside.
pub proof fn law_queue_is_what_waits(v: StoreView, ids: Seq<Seq<char>>, id: Seq<char>, a: int, b: int)
    requires
        lists_pending(v, ids),
        forall|k: Seq<char>|
            (#[trigger] v.session(k)) is Some ==> v.session(k)->0.id == k,
    ensures
        ids.contains(id) <==> v.session(id) is Some && v.session(id)->0.status
            == SessionStatus::AwaitingProcessing,
        0 <= a < b < ids.len() && v.session(ids[a])->0.started_at <= i64::MAX && v.session(
            ids[b],
        )->0.started_at <= i64::MAX ==> v.session(ids[a])->0.started_at >= v.session(
            ids[b],
        )->0.started_at,
{
    let keep = |s: SessionView| s.status == SessionStatus::AwaitingProcessing;
    let out = choose|out: Seq<SessionSummaryView>| #[trigger]
        lists_waiting(v, out) && ids == Seq::new(out.len(), |k: int| out[k].id);
    let full = choose|full: Seq<SessionView>| #[trigger]
        lists_sessions(v, keep, full) && out.len() == full.len() && forall|i: int|
            0 <= i < out.len() ==> #[trigger] out[i] == summarized(full[i]);
    assert forall|i: int| 0 <= i < ids.len() implies #[trigger] ids[i] == full[i].id by {
        assert(out[i] == summarized(full[i]));
    }
    if ids.contains(id) {
        let i = choose|i: int| 0 <= i < ids.len() && ids[i] == id;
        assert(v.session(full[i].id) == Some(full[i]) && keep(full[i]));
    }
    if v.session(id) is Some && v.session(id)->0.status == SessionStatus::AwaitingProcessing {
        assert(keep(v.session(id)->0));
        let i = choose|i: int| 0 <= i < full.len() && #[trigger] full[i] == v.session(id)->0;
        assert(ids[i] == id);
    }
    if 0 <= a < b < ids.len() {
        assert(newer(full[a], full[b]));
        assert(v.session(full[a].id) == Some(full[a]));
        assert(v.session(full[b].id) == Some(full[b]));
    }
}

/// The model is shown the transcript whole, as far as the budget for it allows, and
/// the template by its name; a session without one is written up as a report.
pub proof fn law_plan(
    processor: SessionProcessor,
    work: WorkView,
    session: SessionView,
    session_id: Seq<char>,
)
    ensures
        ({
            let plan = plan_of(processor, work, session, session_id);
            &&& 0 < session.transcript.len() <= 4 * processor.transcript_budget_tokens
                ==> plan.transcript == "## transcript\n"@ + session.transcript
            &&& session.transcript.len() > 4 * processor.transcript_budget_tokens
                ==> plan.transcript == "## transcript\n"@ + (session.transcript.take(
                4 * processor.transcript_budget_tokens as int,
            ) + "\n…[truncated]"@)
            &&& plan.memory_prompt == memory_prompt(work.memory, false)
        }),
        session.template matches Some(t) ==> template_name(session.template) == t,
        session.template is None ==> template_name(session.template) == "report"@,
{
    let s = SectionView {
        title: "transcript"@,
        content: session.transcript,
        budget_tokens: processor.transcript_budget_tokens as nat,
    };
    let none = Seq::<SectionView>::empty();
    assert(seq![s] =~= none.push(s));
    law_sections_one_by_one(none, s);
    assert(section_texts_of(none).len() == 0);
    reveal_strlit("## ");
    reveal_strlit("transcript");
    reveal_strlit("\n");
    reveal_strlit("## transcript\n");
    assert("## "@ + "transcript"@ + "\n"@ =~= "## transcript\n"@);
}

/// A document is asked for under the template's name, with the transcript that the
/// plan shows.
pub proof fn law_document_request<M: MemoryStore>(run: &ProcessRun<M>, r: &CompletionRequest)
    requires
        run.wf(),
        call_ensures(ProcessRun::<M>::request, (run,), r),
    ensures
        run@.phase is Building ==> exists|a: Seq<char>, b: Seq<char>|
            r@.system == #[trigger] (a + template_name(run@.plan.template) + b),
        !(run@.phase is Extracting) ==> r@.messages.len() == 1 && (
        r@.messages[0].content[0] matches BlockView::Text { text }
            && run@.plan.transcript.is_suffix_of(text)),
{
    if !(run@.phase is Extracting) {
        let text = r@.messages[0].content[0]->Text_text;
        let t = run@.plan.transcript;
        assert(t =~= text.subrange(text.len() - t.len(), text.len() as int));
    }
    if run@.phase is Building {
        let name = template_name(run@.plan.template);
        let a = DOCUMENT_PROMPT@;
        let b = r@.system.skip((a + name).len() as int);
        assert(r@.system =~= a + name + b);
    }
}

} // verus!
