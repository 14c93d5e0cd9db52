//! What holds of every run of the pipeline.

use vstd::prelude::*;
use crate::harness::agent::advanced;
use crate::harness::agent::begun;
use crate::harness::agent::CallView;
use crate::harness::agent::calls_made;
use crate::harness::agent::calls_of;
use crate::harness::agent::StepView;
use crate::harness::error::HarnessErrorView;
use crate::harness::llm::first_call;
use crate::harness::llm::ResponseView;
use crate::harness::llm::Usage;
use crate::harness::llm::usage_sum;
use crate::harness::llm::user_text_view;
use crate::harness::memory::store::MemoryStore;
use crate::harness::tool::called;
use crate::harness::tool::knows_tool;
use crate::harness::tool::Tool;
use crate::harness::tool::tool_at;
use crate::json::JsonView;
use crate::notes::domain::ItemSource;
use crate::notes::domain::SessionStatus;
use crate::notes::error::CoreErrorView;
use crate::notes::pipeline::document::BUILD_DOCUMENT;
use crate::notes::pipeline::document::BuildDocumentToolView;
use crate::notes::pipeline::document::document_line;
use crate::notes::pipeline::document::document_run;
use crate::notes::pipeline::document::integer_field;
use crate::notes::pipeline::document::line_ids;
use crate::notes::pipeline::document::line_is_gap;
use crate::notes::pipeline::live::LiveExtractorView;
use crate::notes::pipeline::live::pass_due;
use crate::notes::pipeline::processor::built_step;
use crate::notes::pipeline::processor::doc_kind_of;
use crate::notes::pipeline::processor::document_tool;
use crate::notes::pipeline::processor::extraction_config;
use crate::notes::pipeline::processor::extraction_step;
use crate::notes::pipeline::processor::extraction_tools;
use crate::notes::pipeline::processor::fails;
use crate::notes::pipeline::processor::number_of;
use crate::notes::pipeline::processor::PhaseView;
use crate::notes::pipeline::processor::plan_of;
use crate::notes::pipeline::processor::PlanView;
use crate::notes::pipeline::processor::process_advanced;
use crate::notes::pipeline::processor::process_begun;
use crate::notes::pipeline::processor::process_cleared;
use crate::notes::pipeline::processor::process_finished;
use crate::notes::pipeline::processor::ProcessOutcomeView;
use crate::notes::pipeline::processor::ProcessRunView;
use crate::notes::pipeline::processor::ProcessStepView;
use crate::notes::pipeline::processor::SessionProcessor;
use crate::notes::pipeline::prompts::summary_in;
use crate::notes::pipeline::tools::AddItemToolView;
use crate::notes::pipeline::tools::item_run;
use crate::notes::pipeline::workspace::NotesTool;
use crate::notes::pipeline::workspace::notes_run;
use crate::notes::pipeline::workspace::PipelineTool;
use crate::notes::pipeline::workspace::WorkView;
use crate::notes::pipeline::workspace::Workspace;
use crate::notes::store::artifacts::latest_document;
use crate::notes::store::documents::document_title;
use crate::notes::store::laws::law_clear_is_scoped_and_idempotent;
use crate::notes::store::laws::law_swap_keeps_manual_and_this_run;
use crate::notes::store::outcomes::outputs_cleared;
use crate::notes::store::StampView;
use crate::notes::store::StoreView;
use crate::text::blank;

verus! {

/// Every item that is not of an earlier processing run is as it was: the live
/// board and what was noted by hand.
pub open spec fn board_kept(v: StoreView, w: StoreView) -> bool {
    forall|k: Seq<char>|
        #![trigger w.item(k)]
        v.item(k) is Some && v.item(k)->0.source != ItemSource::Authoritative ==> w.item(k)
            == v.item(k)
}

/// No document number was taken.
pub open spec fn numbers_kept(v: StoreView, w: StoreView) -> bool {
    w.sequences == v.sequences
}

/// Every other session is as it was.
pub open spec fn others_kept(v: StoreView, w: StoreView, session_id: Seq<char>) -> bool {
    forall|k: Seq<char>| k != session_id ==> #[trigger] w.session(k) == v.session(k)
}

proof fn lemma_board_kept_transitive(u: StoreView, v: StoreView, w: StoreView)
    requires
        board_kept(u, v),
        board_kept(v, w),
    ensures
        board_kept(u, w),
{
    assert forall|k: Seq<char>|
        #![trigger w.item(k)]
        u.item(k) is Some && u.item(k)->0.source != ItemSource::Authoritative implies w.item(k)
        == u.item(k) by {
        assert(v.item(k) == u.item(k));
    }
}

proof fn lemma_item_run_keeps(v: StoreView, t: AddItemToolView, input: JsonView, st: StampView)
    ensures
        board_kept(v, item_run(v, t, input, st).0),
        numbers_kept(v, item_run(v, t, input, st).0),
{
    let w = item_run(v, t, input, st).0;
    assert forall|k: Seq<char>|
        #![trigger w.item(k)]
        v.item(k) is Some && v.item(k)->0.source != ItemSource::Authoritative implies w.item(k)
        == v.item(k) by {}
}

/// A tool keeps the board and takes no number.
proof fn lemma_tool_keeps(
    before: NotesTool,
    work: WorkView,
    input: JsonView,
    after: NotesTool,
    work_after: WorkView,
    result: Result<Seq<char>, HarnessErrorView>,
)
    requires
        notes_run(before, work, input, after, work_after, result),
    ensures
        board_kept(work.store, work_after.store),
        numbers_kept(work.store, work_after.store),
        work_after.store.sessions == work.store.sessions,
{
    if let NotesTool::Item(t) = before {
        if let NotesTool::Item(u) = after {
            let st = choose|st: StampView| #[trigger]
                work.store.gives(st) && (work_after.store, u@, result) == item_run(
                    work.store,
                    t@,
                    input,
                    st,
                );
            lemma_item_run_keeps(work.store, t@, input, st);
        }
    } else {
        assert(work_after.store.items == work.store.items);
        assert forall|k: Seq<char>| #[trigger] work_after.store.item(k) == work.store.item(k) by {}
    }
}

/// Tool calls, one after another, keep the board and take no number.
proof fn lemma_calls_keep<M: MemoryStore>(
    calls: Seq<CallView>,
    tools: Seq<Seq<PipelineTool<M>>>,
    envs: Seq<Workspace<M>>,
    results: Seq<Result<Seq<char>, HarnessErrorView>>,
    n: int,
)
    requires
        calls_made(calls, tools, envs, results),
        0 <= n <= calls.len(),
    ensures
        board_kept(envs[0]@.store, envs[n]@.store),
        numbers_kept(envs[0]@.store, envs[n]@.store),
        envs[n]@.store.sessions == envs[0]@.store.sessions,
    decreases n,
{
    if n > 0 {
        lemma_calls_keep(calls, tools, envs, results, n - 1);
        let call = calls[n - 1];
        assert(called(
            tools[n - 1],
            envs[n - 1],
            call.name,
            call.input,
            tools[n],
            envs[n],
            results[n - 1],
        ));
        if knows_tool(tools[n - 1], call.name) {
            let i = choose|i: int| #[trigger]
                tool_at(tools[n - 1], i, call.name) && tools[n].len() == tools[n - 1].len()
                    && tools[n] =~= tools[n - 1].update(i, tools[n][i]) && <PipelineTool<
                    M,
                > as Tool>::runs(
                    tools[n - 1][i],
                    envs[n - 1],
                    call.input,
                    tools[n][i],
                    envs[n],
                    results[n - 1],
                );
            lemma_tool_keeps(
                tools[n - 1][i].tool,
                envs[n - 1]@,
                call.input,
                tools[n][i].tool,
                envs[n]@,
                results[n - 1],
            );
        }
        lemma_board_kept_transitive(envs[0]@.store, envs[n - 1]@.store, envs[n]@.store);
    }
}

proof fn lemma_failing_keeps<M: MemoryStore>(
    plan: PlanView,
    usage: Usage,
    e: HarnessErrorView,
    work: WorkView,
    work_after: WorkView,
    step: ProcessStepView<M>,
)
    requires
        fails(plan, usage, e, work, work_after, step),
    ensures
        work_after.store.items == work.store.items,
        board_kept(work.store, work_after.store),
        numbers_kept(work.store, work_after.store),
        others_kept(work.store, work_after.store, plan.session_id),
        step == ProcessStepView::<M>::Done(Err(CoreErrorView::Agent(e))),
{
    assert forall|k: Seq<char>| work_after.store.items == work.store.items implies
        #[trigger] work_after.store.item(k) == work.store.item(k) by {}
}

proof fn lemma_extraction_keeps<M: MemoryStore>(
    plan: PlanView,
    agent: StepView<PipelineTool<M>>,
    work: WorkView,
    work_after: WorkView,
    step: ProcessStepView<M>,
)
    requires
        extraction_step(plan, agent, work, work_after, step),
    ensures
        board_kept(work.store, work_after.store),
        numbers_kept(work.store, work_after.store),
        others_kept(work.store, work_after.store, plan.session_id),
        !(step matches ProcessStepView::Done(Ok(_))),
{
    if let StepView::Done { outcome: Err(e), .. } = agent {
        assert(fails(plan, e.usage, e.source, work, work_after, step));
        lemma_failing_keeps(plan, e.usage, e.source, work, work_after, step);
    }
}

/// Until a session is processed, every step keeps its board: a run that fails,
/// at whatever point, leaves every live item and everything noted by hand as it
/// was. This is the step that begins a run.
pub proof fn law_beginning_keeps_the_board<M: MemoryStore>(
    processor: SessionProcessor,
    work: WorkView,
    session_id: Seq<char>,
    work_after: WorkView,
    step: ProcessStepView<M>,
)
    requires
        process_begun(processor, work, session_id, work_after, step),
        !(step matches ProcessStepView::Done(Ok(_))),
    ensures
        board_kept(work.store, work_after.store),
        numbers_kept(work.store, work_after.store),
{
    if let Some(session) = work.store.session(session_id) {
        if session.status == SessionStatus::AwaitingProcessing || session.status
            == SessionStatus::Failed {
            let now = choose|now: u64| #[trigger]
                work.store.clock.shows(now) && process_cleared(
                    processor,
                    work,
                    session,
                    session_id,
                    outputs_cleared(work.store, session_id, now).0,
                    work_after,
                    step,
                );
            let cleared = outputs_cleared(work.store, session_id, now).0;
            law_clear_is_scoped_and_idempotent(work.store, session_id, now, now);
            assert(board_kept(work.store, cleared));
            let mid = WorkView { store: cleared, ..work };
            if blank(session.transcript) {
                assert(work_after.store == cleared);
            } else {
                let plan = plan_of(processor, work, session, session_id);
                let message = user_text_view("Process this session.\n\n"@ + plan.transcript);
                let tools = choose|tools: Seq<PipelineTool<M>>| #[trigger]
                    extraction_tools(tools, session_id) && extraction_step(
                        plan,
                        begun(tools, extraction_config(plan), seq![message]),
                        mid,
                        work_after,
                        step,
                    );
                lemma_extraction_keeps(
                    plan,
                    begun(tools, extraction_config(plan), seq![message]),
                    mid,
                    work_after,
                    step,
                );
            }
            lemma_board_kept_transitive(work.store, cleared, work_after.store);
        }
    }
}

/// Until a session is processed, every step keeps its board. These are the
/// steps after the first.
pub proof fn law_failed_processing_keeps_the_board<M: MemoryStore>(
    run: ProcessRunView<M>,
    before: Workspace<M>,
    reply: Result<ResponseView, HarnessErrorView>,
    after: Workspace<M>,
    step: ProcessStepView<M>,
)
    requires
        process_advanced(run, before, reply, after, step),
        !(step matches ProcessStepView::Done(Ok(_))),
    ensures
        board_kept(before@.store, after@.store),
{
    lemma_step_keeps(run, before, reply, after, step);
}

/// A document number is taken only together with a document: no other step
/// touches the sequences, and a run that fails before its document is written
/// takes none.
pub proof fn law_number_is_taken_only_with_a_document<M: MemoryStore>(
    run: ProcessRunView<M>,
    before: Workspace<M>,
    reply: Result<ResponseView, HarnessErrorView>,
    after: Workspace<M>,
    step: ProcessStepView<M>,
)
    requires
        process_advanced(run, before, reply, after, step),
    ensures
        numbers_kept(before@.store, after@.store) || (run.phase is Building && exists|
            input: JsonView,
            ids: Seq<Seq<char>>,
            st: StampView,
        |
            #![trigger document_run(before@.store, document_tool(run.plan), input, ids, st)]
            document_run(before@.store, document_tool(run.plan), input, ids, st).1 is Ok),
{
    lemma_step_keeps(run, before, reply, after, step);
}

proof fn lemma_step_keeps<M: MemoryStore>(
    run: ProcessRunView<M>,
    before: Workspace<M>,
    reply: Result<ResponseView, HarnessErrorView>,
    after: Workspace<M>,
    step: ProcessStepView<M>,
)
    requires
        process_advanced(run, before, reply, after, step),
    ensures
        !(step matches ProcessStepView::Done(Ok(_))) ==> board_kept(before@.store, after@.store),
        others_kept(before@.store, after@.store, run.plan.session_id),
        numbers_kept(before@.store, after@.store) || (run.phase is Building && exists|
            input: JsonView,
            ids: Seq<Seq<char>>,
            st: StampView,
        |
            #![trigger document_run(before@.store, document_tool(run.plan), input, ids, st)]
            document_run(before@.store, document_tool(run.plan), input, ids, st).1 is Ok),
{
    let v = before@.store;
    match run.phase {
        PhaseView::Extracting(agent) => {
            let (tools, envs, results) = choose|
                tools: Seq<Seq<PipelineTool<M>>>,
                envs: Seq<Workspace<M>>,
                results: Seq<Result<Seq<char>, HarnessErrorView>>,
            | #[trigger]
                calls_made(calls_of(reply), tools, envs, results) && tools[0] == agent.tools
                    && envs[0] == before && extraction_step(
                    run.plan,
                    advanced(agent, reply, tools.last(), results),
                    envs.last()@,
                    after@,
                    step,
                );
            let n = calls_of(reply).len() as int;
            lemma_calls_keep(calls_of(reply), tools, envs, results, n);
            lemma_extraction_keeps(
                run.plan,
                advanced(agent, reply, tools.last(), results),
                envs.last()@,
                after@,
                step,
            );
            lemma_board_kept_transitive(v, envs.last()@.store, after@.store);
            assert forall|k: Seq<char>| k != run.plan.session_id implies #[trigger] after@.store.session(
                k,
            ) == v.session(k) by {
                assert(envs.last()@.store.session(k) == v.session(k));
            }
        },
        PhaseView::Summarizing { usage, created_ids } => {
            match reply {
                Err(e) => {
                    lemma_failing_keeps(run.plan, usage, e, before@, after@, step);
                },
                Ok(resp) => {
                    if summary_in(resp) is None {
                        lemma_failing_keeps(
                            run.plan,
                            usage_sum(usage, resp.usage),
                            HarnessErrorView::Provider(
                                "summary response missing write_summary call"@,
                            ),
                            before@,
                            after@,
                            step,
                        );
                    }
                },
            }
        },
        PhaseView::Building { usage, created_ids, summary } => {
            match reply {
                Err(e) => {
                    lemma_failing_keeps(run.plan, usage, e, before@, after@, step);
                },
                Ok(resp) => {
                    let spent = usage_sum(usage, resp.usage);
                    match first_call(resp.content, BUILD_DOCUMENT@) {
                        None => {
                            lemma_failing_keeps(
                                run.plan,
                                spent,
                                HarnessErrorView::Provider(
                                    "build_document response missing build_document call"@,
                                ),
                                before@,
                                after@,
                                step,
                            );
                        },
                        Some(input) => {
                            let (ids, st) = choose|ids: Seq<Seq<char>>, st: StampView|
                                v.gives(st) && line_ids(input, ids) && built_step(
                                    run.plan,
                                    spent,
                                    created_ids,
                                    summary,
                                    before@,
                                    #[trigger] document_run(
                                        v,
                                        document_tool(run.plan),
                                        input,
                                        ids,
                                        st,
                                    ),
                                    after@,
                                    step,
                                );
                            lemma_built_keeps(
                                run,
                                spent,
                                created_ids,
                                summary,
                                before@,
                                input,
                                ids,
                                st,
                                after@,
                                step,
                            );
                        },
                    }
                },
            }
        },
    }
}

proof fn lemma_built_keeps<M: MemoryStore>(
    run: ProcessRunView<M>,
    spent: Usage,
    created_ids: Seq<Seq<char>>,
    summary: Seq<char>,
    work: WorkView,
    input: JsonView,
    ids: Seq<Seq<char>>,
    st: StampView,
    work_after: WorkView,
    step: ProcessStepView<M>,
)
    requires
        built_step(
            run.plan,
            spent,
            created_ids,
            summary,
            work,
            document_run(work.store, document_tool(run.plan), input, ids, st),
            work_after,
            step,
        ),
    ensures
        !(step matches ProcessStepView::Done(Ok(_))) ==> board_kept(work.store, work_after.store),
        others_kept(work.store, work_after.store, run.plan.session_id),
        numbers_kept(work.store, work_after.store) || document_run(
            work.store,
            document_tool(run.plan),
            input,
            ids,
            st,
        ).1 is Ok,
{
    let v = work.store;
    let built = document_run(v, document_tool(run.plan), input, ids, st);
    law_refused_document_changes_nothing(v, document_tool(run.plan), input, ids, st);
    let mid = WorkView { store: built.0, ..work };
    assert(built.0.items == v.items);
    assert forall|k: Seq<char>| #[trigger] built.0.item(k) == v.item(k) by {}
    assert(built.0.sessions == v.sessions);
    assert forall|k: Seq<char>| k != run.plan.session_id && mid.store.session(k)
        == work_after.store.session(k) implies #[trigger] work_after.store.session(k) == v.session(
        k,
    ) by {}
    match built.1 {
        Err(e) => {
            lemma_failing_keeps(run.plan, spent, e, mid, work_after, step);
            lemma_board_kept_transitive(v, mid.store, work_after.store);
        },
        Ok(_) => {
            match latest_document(built.0, run.plan.session_id) {
                None => {
                    lemma_failing_keeps(
                        run.plan,
                        spent,
                        HarnessErrorView::Provider(
                            "document artifact missing immediately after build"@,
                        ),
                        mid,
                        work_after,
                        step,
                    );
                    lemma_board_kept_transitive(v, mid.store, work_after.store);
                },
                Some(a) => {
                    let end = choose|end: StampView| #[trigger]
                        mid.store.gives(end) && (work_after, step) == process_finished::<
                            M,
                        >(mid, run.plan.session_id, summary, spent, created_ids, Some(a.id), end);
                    if !(step matches ProcessStepView::Done(Ok(_))) {
                        assert(work_after.store == mid.store);
                    }
                },
            }
        },
    }
}

/// Processing one session leaves every other as it was: those that wait go on
/// waiting, whatever comes of it. This is the step that begins a run.
pub proof fn law_beginning_leaves_other_sessions<M: MemoryStore>(
    processor: SessionProcessor,
    work: WorkView,
    session_id: Seq<char>,
    work_after: WorkView,
    step: ProcessStepView<M>,
)
    requires
        process_begun(processor, work, session_id, work_after, step),
    ensures
        others_kept(work.store, work_after.store, session_id),
{
    if let Some(session) = work.store.session(session_id) {
        if session.status == SessionStatus::AwaitingProcessing || session.status
            == SessionStatus::Failed {
            let now = choose|now: u64| #[trigger]
                work.store.clock.shows(now) && process_cleared(
                    processor,
                    work,
                    session,
                    session_id,
                    outputs_cleared(work.store, session_id, now).0,
                    work_after,
                    step,
                );
            let cleared = outputs_cleared(work.store, session_id, now).0;
            let mid = WorkView { store: cleared, ..work };
            assert forall|k: Seq<char>| #[trigger] cleared.session(k) == work.store.session(k) by {}
            if !blank(session.transcript) {
                let plan = plan_of(processor, work, session, session_id);
                let message = user_text_view("Process this session.\n\n"@ + plan.transcript);
                let tools = choose|tools: Seq<PipelineTool<M>>| #[trigger]
                    extraction_tools(tools, session_id) && extraction_step(
                        plan,
                        begun(tools, extraction_config(plan), seq![message]),
                        mid,
                        work_after,
                        step,
                    );
                lemma_extraction_keeps(
                    plan,
                    begun(tools, extraction_config(plan), seq![message]),
                    mid,
                    work_after,
                    step,
                );
                assert forall|k: Seq<char>| k != session_id implies #[trigger] work_after.store.session(
                    k,
                ) == work.store.session(k) by {
                    assert(cleared.session(k) == work.store.session(k));
                }
            }
        }
    }
}

/// Processing one session leaves every other as it was. These are the steps
/// after the first.
pub proof fn law_processing_leaves_other_sessions<M: MemoryStore>(
    run: ProcessRunView<M>,
    before: Workspace<M>,
    reply: Result<ResponseView, HarnessErrorView>,
    after: Workspace<M>,
    step: ProcessStepView<M>,
)
    requires
        process_advanced(run, before, reply, after, step),
    ensures
        others_kept(before@.store, after@.store, run.plan.session_id),
{
    lemma_step_keeps(run, before, reply, after, step);
}

/// When processing succeeds, the board is swapped as a whole: it then holds what
/// was noted by hand and the items of this run, each as it was, and nothing else.
/// Items of other sessions stay. The session is processed and has its summary.
pub proof fn law_success_swaps_the_board<M: MemoryStore>(
    run: ProcessRunView<M>,
    before: Workspace<M>,
    reply: Result<ResponseView, HarnessErrorView>,
    after: Workspace<M>,
    outcome: ProcessOutcomeView,
)
    requires
        process_advanced(run, before, reply, after, ProcessStepView::Done(Ok(outcome))),
    ensures
        run.phase matches PhaseView::Building { created_ids, summary, .. } && ({
            let id = run.plan.session_id;
            let v = before@.store;
            let w = after@.store;
            &&& w.session(id)->0.status == SessionStatus::Processed
            &&& w.session(id)->0.summary == Some(summary)
            &&& forall|k: Seq<char>|
                #![trigger w.item(k)]
                v.item(k) is Some && (v.item(k)->0.session_id != id || v.item(k)->0.source
                    == ItemSource::Manual || created_ids.contains(v.item(k)->0.id)) ==> w.item(k)
                    == v.item(k)
            &&& forall|k: Seq<char>|
                #![trigger w.item(k)]
                w.item(k) is Some && w.item(k)->0.session_id == id ==> v.item(k) == w.item(k) && (
                w.item(k)->0.source == ItemSource::Manual || created_ids.contains(w.item(k)->0.id))
        }),
{
    let step = ProcessStepView::<M>::Done(Ok(outcome));
    let v = before@.store;
    if let PhaseView::Building { usage, created_ids, summary } = run.phase {
        let resp = reply->Ok_0;
        let spent = usage_sum(usage, resp.usage);
        let input = first_call(resp.content, BUILD_DOCUMENT@)->0;
        let (ids, st) = choose|ids: Seq<Seq<char>>, st: StampView|
            v.gives(st) && line_ids(input, ids) && built_step(
                run.plan,
                spent,
                created_ids,
                summary,
                before@,
                #[trigger] document_run(v, document_tool(run.plan), input, ids, st),
                after@,
                step,
            );
        let built = document_run(v, document_tool(run.plan), input, ids, st);
        let mid = WorkView { store: built.0, ..before@ };
        let a = latest_document(built.0, run.plan.session_id)->0;
        let end = choose|end: StampView| #[trigger]
            mid.store.gives(end) && (after@, step) == process_finished::<M>(
                mid,
                run.plan.session_id,
                summary,
                spent,
                created_ids,
                Some(a.id),
                end,
            );
        law_swap_keeps_manual_and_this_run(
            mid.store,
            run.plan.session_id,
            summary,
            spent,
            created_ids,
            end,
        );
        assert(mid.store.items == v.items);
        assert forall|k: Seq<char>| #[trigger] mid.store.item(k) == v.item(k) by {}
        let w = after@.store;
        assert forall|k: Seq<char>|
            #![trigger w.item(k)]
            v.item(k) is Some && (v.item(k)->0.session_id != run.plan.session_id
                || v.item(k)->0.source == ItemSource::Manual || created_ids.contains(
                v.item(k)->0.id,
            )) implies w.item(k) == v.item(k) by {
            assert(mid.store.item(k) == v.item(k));
        }
        assert forall|k: Seq<char>|
            #![trigger w.item(k)]
            w.item(k) is Some && w.item(k)->0.session_id == run.plan.session_id implies v.item(k)
            == w.item(k) && (w.item(k)->0.source == ItemSource::Manual || created_ids.contains(
            w.item(k)->0.id,
        )) by {
            assert(mid.store.item(k) == v.item(k));
        }
    }
}

/// A session whose document has a number keeps it: a new run on the session uses
/// the number again and takes none from the sequences.
pub proof fn law_reprocessing_keeps_the_number<M: MemoryStore>(
    processor: SessionProcessor,
    work: WorkView,
    session_id: Seq<char>,
    work_after: WorkView,
    run: ProcessRunView<M>,
    n: u64,
    v: StoreView,
    input: JsonView,
    ids: Seq<Seq<char>>,
    st: StampView,
)
    requires
        process_begun(processor, work, session_id, work_after, ProcessStepView::Ask(run)),
        number_of(work.store, session_id) == Some(n),
    ensures
        run.plan.existing_doc_number == Some(n),
        document_run(v, document_tool(run.plan), input, ids, st).0.sequences == v.sequences,
        document_run(v, document_tool(run.plan), input, ids, st).1 is Ok ==> document_run(
            v,
            document_tool(run.plan),
            input,
            ids,
            st,
        ).1 == Ok::<Seq<char>, HarnessErrorView>(
            "document built: "@ + document_title(doc_kind_of(run.plan.template), n),
        ),
{
}

/// A failure is marked and paid for: the session is failed and the log has one
/// more row with all that was spent. Only when the store refuses to write does
/// everything stay as it was.
pub proof fn law_failure_logs_the_cost<M: MemoryStore>(
    plan: PlanView,
    usage: Usage,
    e: HarnessErrorView,
    work: WorkView,
    work_after: WorkView,
    step: ProcessStepView<M>,
)
    requires
        fails(plan, usage, e, work, work_after, step),
    ensures
        step == ProcessStepView::<M>::Done(Err(CoreErrorView::Agent(e))),
        work_after.store == work.store || ({
            let log = work_after.store.usage;
            &&& log.len() == work.store.usage.len() + 1
            &&& log.drop_last() == work.store.usage
            &&& log.last().session_id == Some(plan.session_id)
            &&& log.last().purpose == "processing"@
            &&& log.last().input_tokens == usage.input_tokens
            &&& log.last().output_tokens == usage.output_tokens
            &&& work_after.store.session(plan.session_id)->0.status == SessionStatus::Failed
        }),
{
    if work_after.store != work.store {
        assert(work_after.store.usage.drop_last() =~= work.store.usage);
    }
}

/// A document that is refused changes nothing at all; in particular it takes no
/// number.
pub proof fn law_refused_document_changes_nothing(
    v: StoreView,
    t: BuildDocumentToolView,
    input: JsonView,
    ids: Seq<Seq<char>>,
    st: StampView,
)
    ensures
        document_run(v, t, input, ids, st).1 is Err ==> document_run(v, t, input, ids, st).0 == v,
{
}

/// An item that is refused changes nothing: neither the records nor the ids
/// that the tool keeps.
pub proof fn law_refused_item_changes_nothing(
    v: StoreView,
    t: AddItemToolView,
    input: JsonView,
    st: StampView,
)
    ensures
        item_run(v, t, input, st).2 is Err ==> item_run(v, t, input, st).0 == v && item_run(
            v,
            t,
            input,
            st,
        ).1 == t,
{
}

/// A live item never lands in a session that is no longer recording, however
/// late the pass is.
pub proof fn law_live_item_never_lands_late(
    v: StoreView,
    t: AddItemToolView,
    input: JsonView,
    st: StampView,
)
    requires
        t.required_status == Some(SessionStatus::Recording),
        v.session(t.session_id) is Some,
        v.session(t.session_id)->0.status != SessionStatus::Recording,
    ensures
        item_run(v, t, input, st).0 == v,
        item_run(v, t, input, st).2 is Err,
{
}

/// A live pass and the processing of a session never meet: one needs it
/// recording, the other ended.
pub proof fn law_live_and_processing_exclude_each_other<M: MemoryStore>(
    x: LiveExtractorView,
    processor: SessionProcessor,
    work: WorkView,
    work_after: WorkView,
    step: ProcessStepView<M>,
)
    requires
        work.store.session(x.session_id) is Some,
        pass_due(x, work.store.session(x.session_id)->0),
        process_begun(processor, work, x.session_id, work_after, step),
    ensures
        work_after == work,
        step matches ProcessStepView::Done(Err(CoreErrorView::InvalidState(_))),
{
}

/// An empty session never reaches the model.
pub proof fn law_empty_session_needs_no_model<M: MemoryStore>(
    processor: SessionProcessor,
    work: WorkView,
    session_id: Seq<char>,
    work_after: WorkView,
    step: ProcessStepView<M>,
)
    requires
        work.store.session(session_id) is Some,
        blank(work.store.session(session_id)->0.transcript),
        process_begun(processor, work, session_id, work_after, step),
    ensures
        step is Done,
{
}

/// An amount is never made up: a line has one only if its input has one, and on
/// an estimate a line without one is a gap unless the model says otherwise.
pub proof fn law_unheard_amount_is_a_gap(
    line: JsonView,
    title: Seq<char>,
    doc_kind: Seq<char>,
    id: Seq<char>,
)
    requires
        integer_field(line.get("amount_cents"@)) is None,
        line.get("is_gap"@) is None,
    ensures
        document_line(line, title, doc_kind, id)->Object_0[0] == ("amount_cents"@, JsonView::Null),
        line_is_gap(line, doc_kind) == (doc_kind == "estimate"@),
{
}

} // verus!
