//! What holds of a run of the pipeline as a whole, from its first step to its last.

use vstd::prelude::*;
use crate::harness::agent::advanced;
use crate::harness::agent::begun;
use crate::harness::agent::CallView;
use crate::harness::agent::calls_made;
use crate::harness::agent::calls_of;
use crate::harness::agent::cost_of;
use crate::harness::agent::StepView;
use crate::harness::agent::total_cost;
use crate::harness::error::HarnessErrorView;
use crate::harness::llm::first_call;
use crate::harness::llm::ResponseView;
use crate::harness::llm::Usage;
use crate::harness::llm::no_usage;
use crate::harness::llm::usage_sum;
use crate::harness::llm::user_text_view;
use crate::harness::memory::store::MemoryStore;
use crate::harness::tool::called;
use crate::harness::tool::knows_tool;
use crate::harness::tool::Tool;
use crate::harness::tool::tool_at;
use crate::notes::domain::ItemSource;
use crate::notes::domain::SessionStatus;
use crate::notes::pipeline::document::BUILD_DOCUMENT;
use crate::notes::pipeline::document::document_run;
use crate::notes::pipeline::document::line_ids;
use crate::notes::pipeline::processor::built_step;
use crate::notes::pipeline::processor::created_by;
use crate::notes::pipeline::processor::document_tool;
use crate::notes::pipeline::processor::extraction_config;
use crate::notes::pipeline::processor::extraction_step;
use crate::notes::pipeline::processor::extraction_tools;
use crate::notes::pipeline::processor::PhaseView;
use crate::notes::pipeline::processor::plan_of;
use crate::notes::pipeline::processor::process_advanced;
use crate::notes::pipeline::processor::process_begun;
use crate::notes::pipeline::processor::process_cleared;
use crate::notes::pipeline::processor::process_finished;
use crate::notes::pipeline::processor::ProcessOutcomeView;
use crate::notes::pipeline::processor::ProcessRunView;
use crate::notes::pipeline::processor::ProcessStepView;
use crate::notes::pipeline::processor::SessionProcessor;
use crate::notes::pipeline::tools::ADD_ITEM;
use crate::notes::pipeline::tools::AddItemToolView;
use crate::notes::pipeline::tools::item_input;
use crate::notes::pipeline::tools::item_run;
use crate::notes::pipeline::workspace::NotesTool;
use crate::notes::pipeline::workspace::notes_run;
use crate::notes::pipeline::workspace::PipelineTool;
use crate::notes::pipeline::workspace::WorkView;
use crate::notes::pipeline::workspace::Workspace;
use crate::notes::store::artifacts::latest_document;
use crate::notes::store::items::items_under_their_ids;
use crate::notes::store::items::swept_row;
use crate::notes::store::items::SweepView;
use crate::notes::store::outcomes::finished_processed;
use crate::notes::store::outcomes::outputs_cleared;
use crate::notes::store::StampView;
use crate::notes::store::StoreView;
use crate::text::blank;

verus! {

/// Some reply asked for an item of this kind with this text.
pub open spec fn asked_for(
    replies: Seq<Result<ResponseView, HarnessErrorView>>,
    kind: Seq<char>,
    text: Seq<char>,
) -> bool {
    exists|r: int, c: int|
        0 <= r < replies.len() && 0 <= c < calls_of(replies[r]).len()
            && (#[trigger] calls_of(replies[r])[c]).name == ADD_ITEM@ && item_input(
            calls_of(replies[r])[c].input,
        ) == Ok::<(Seq<char>, Seq<char>), Seq<char>>((kind, text))
}

/// A run of the pipeline, from its first step on, with nothing else at work: every
/// reply was taken by the step before it.
pub open spec fn processed_through<M: MemoryStore>(
    processor: SessionProcessor,
    start: WorkView,
    session_id: Seq<char>,
    replies: Seq<Result<ResponseView, HarnessErrorView>>,
    envs: Seq<Workspace<M>>,
    steps: Seq<ProcessStepView<M>>,
) -> bool {
    &&& steps.len() == replies.len() + 1
    &&& envs.len() == replies.len() + 1
    &&& process_begun(processor, start, session_id, envs[0]@, steps[0])
    &&& forall|i: int|
        0 <= i < replies.len() ==> ((#[trigger] steps[i]) matches ProcessStepView::Ask(run)
            && process_advanced(run, envs[i], replies[i], envs[i + 1], steps[i + 1]))
}

/// An item of this session that the run made because a reply asked for it.
pub open spec fn is_made(
    start: StoreView,
    w: StoreView,
    session_id: Seq<char>,
    replies: Seq<Result<ResponseView, HarnessErrorView>>,
    k: Seq<char>,
) -> bool {
    &&& !start.items.contains_key(k)
    &&& w.items.contains_key(k)
    &&& w.items[k].deleted_at is None
    &&& w.items[k].item.id == k
    &&& w.items[k].item.session_id == session_id
    &&& w.items[k].item.source == ItemSource::Authoritative
    &&& asked_for(replies, w.items[k].item.kind, w.items[k].item.text)
}

/// The board of a session after a run: what was noted by hand before, and what
/// the run made. The items of other sessions are as they were.
pub open spec fn board_swapped(
    start: StoreView,
    w: StoreView,
    session_id: Seq<char>,
    made: Seq<Seq<char>>,
    replies: Seq<Result<ResponseView, HarnessErrorView>>,
) -> bool {
    &&& made.no_duplicates()
    &&& forall|i: int|
        0 <= i < made.len() ==> is_made(start, w, session_id, replies, #[trigger] made[i])
    &&& forall|k: Seq<char>|
        #![trigger w.item(k)]
        start.item(k) is Some && (start.item(k)->0.session_id != session_id
            || start.item(k)->0.source == ItemSource::Manual) ==> w.item(k) == start.item(k)
    &&& forall|k: Seq<char>|
        #![trigger w.item(k)]
        w.item(k) is Some && !made.contains(k) ==> w.item(k) == start.item(k) && (
        w.item(k)->0.session_id != session_id || w.item(k)->0.source == ItemSource::Manual)
}

/// What a run has done to the items so far: it made some, and changed no other.
spec fn only_made(
    u: StoreView,
    v: StoreView,
    session_id: Seq<char>,
    made: Seq<Seq<char>>,
    replies: Seq<Result<ResponseView, HarnessErrorView>>,
) -> bool {
    &&& made.no_duplicates()
    &&& forall|i: int|
        0 <= i < made.len() ==> is_made(u, v, session_id, replies, #[trigger] made[i])
    &&& forall|k: Seq<char>| #[trigger]
        u.items.contains_key(k) ==> v.items.contains_key(k) && v.items[k] == u.items[k]
    &&& forall|k: Seq<char>| #[trigger]
        v.items.contains_key(k) ==> u.items.contains_key(k) || made.contains(k)
    &&& v.usage == u.usage
}

/// The extraction's tools: the one for items knows which it made.
spec fn tools_of_run<M>(
    tools: Seq<PipelineTool<M>>,
    session_id: Seq<char>,
    made: Seq<Seq<char>>,
) -> bool {
    &&& tools.len() == 4
    &&& tools[0].tool matches NotesTool::Item(t) && t@ == (AddItemToolView {
        session_id,
        source: ItemSource::Authoritative,
        required_status: None,
        created_ids: Some(made),
    })
    &&& tools[1].tool is Memory
    &&& tools[2].tool is Contact
    &&& tools[3].tool is Report
}

proof fn lemma_asked_before(
    replies: Seq<Result<ResponseView, HarnessErrorView>>,
    reply: Result<ResponseView, HarnessErrorView>,
    kind: Seq<char>,
    text: Seq<char>,
)
    requires
        asked_for(replies, kind, text),
    ensures
        asked_for(replies.push(reply), kind, text),
{
    let (r, c) = choose|r: int, c: int|
        0 <= r < replies.len() && 0 <= c < calls_of(replies[r]).len()
            && (#[trigger] calls_of(replies[r])[c]).name == ADD_ITEM@ && item_input(
            calls_of(replies[r])[c].input,
        ) == Ok::<(Seq<char>, Seq<char>), Seq<char>>((kind, text));
    assert(replies.push(reply)[r] == replies[r]);
    assert(calls_of(replies.push(reply)[r])[c] == calls_of(replies[r])[c]);
}

proof fn lemma_made_before(
    u: StoreView,
    v: StoreView,
    session_id: Seq<char>,
    made: Seq<Seq<char>>,
    replies: Seq<Result<ResponseView, HarnessErrorView>>,
    reply: Result<ResponseView, HarnessErrorView>,
)
    requires
        only_made(u, v, session_id, made, replies),
    ensures
        only_made(u, v, session_id, made, replies.push(reply)),
{
    assert forall|i: int| 0 <= i < made.len() implies is_made(
        u,
        v,
        session_id,
        replies.push(reply),
        #[trigger] made[i],
    ) by {
        let item = v.items[made[i]].item;
        lemma_asked_before(replies, reply, item.kind, item.text);
    }
}

/// One run of the item tool makes at most one item.
proof fn lemma_item_call(
    u: StoreView,
    v: StoreView,
    t: AddItemToolView,
    call: CallView,
    st: StampView,
    made: Seq<Seq<char>>,
    replies: Seq<Result<ResponseView, HarnessErrorView>>,
) -> (made_after: Seq<Seq<char>>)
    requires
        only_made(u, v, t.session_id, made, replies),
        t.source == ItemSource::Authoritative,
        t.required_status is None,
        t.created_ids == Some(made),
        forall|kind: Seq<char>, text: Seq<char>|
            item_input(call.input) == Ok::<(Seq<char>, Seq<char>), Seq<char>>((kind, text))
                ==> #[trigger] asked_for(replies, kind, text),
    ensures
        only_made(u, item_run(v, t, call.input, st).0, t.session_id, made_after, replies),
        item_run(v, t, call.input, st).1 == (AddItemToolView {
            created_ids: Some(made_after),
            ..t
        }),
{
    let (w, t_after, result) = item_run(v, t, call.input, st);
    if result is Ok {
        let after = made.push(st.id);
        let (kind, text) = item_input(call.input)->Ok_0;
        assert(asked_for(replies, kind, text));
        assert(!v.items.contains_key(st.id));
        assert(w.items.contains_key(st.id));
        assert(!u.items.contains_key(st.id));
        assert forall|i: int| 0 <= i < after.len() implies is_made(
            u,
            w,
            t.session_id,
            replies,
            #[trigger] after[i],
        ) by {
            if i < made.len() {
                assert(after[i] == made[i]);
                assert(is_made(u, v, t.session_id, replies, made[i]));
            }
        }
        assert(!made.contains(st.id)) by {
            if made.contains(st.id) {
                let i = choose|i: int| 0 <= i < made.len() && made[i] == st.id;
                assert(is_made(u, v, t.session_id, replies, made[i]));
            }
        }
        assert(after.no_duplicates());
        assert forall|k: Seq<char>| #[trigger] w.items.contains_key(k) implies u.items.contains_key(
            k,
        ) || after.contains(k) by {
            if k == st.id {
                assert(after[made.len() as int] == k);
            } else {
                assert(v.items.contains_key(k));
                if made.contains(k) {
                    let i = choose|i: int| 0 <= i < made.len() && made[i] == k;
                    assert(after[i] == k);
                }
            }
        }
        after
    } else {
        made
    }
}

/// One call of a tool.
proof fn lemma_call<M: MemoryStore>(
    u: StoreView,
    session_id: Seq<char>,
    tools: Seq<PipelineTool<M>>,
    env: Workspace<M>,
    call: CallView,
    tools_after: Seq<PipelineTool<M>>,
    env_after: Workspace<M>,
    result: Result<Seq<char>, HarnessErrorView>,
    made: Seq<Seq<char>>,
    replies: Seq<Result<ResponseView, HarnessErrorView>>,
) -> (made_after: Seq<Seq<char>>)
    requires
        called(tools, env, call.name, call.input, tools_after, env_after, result),
        tools_of_run(tools, session_id, made),
        only_made(u, env@.store, session_id, made, replies),
        forall|kind: Seq<char>, text: Seq<char>|
            call.name == ADD_ITEM@ && item_input(call.input) == Ok::<
                (Seq<char>, Seq<char>),
                Seq<char>,
            >((kind, text)) ==> #[trigger] asked_for(replies, kind, text),
    ensures
        tools_of_run(tools_after, session_id, made_after),
        only_made(u, env_after@.store, session_id, made_after, replies),
{
    if knows_tool(tools, call.name) {
        let i = choose|i: int| #[trigger]
            tool_at(tools, i, call.name) && tools_after.len() == tools.len() && tools_after
                =~= tools.update(i, tools_after[i]) && <PipelineTool<M> as Tool>::runs(
                tools[i],
                env,
                call.input,
                tools_after[i],
                env_after,
                result,
            );
        assert(notes_run(
            tools[i].tool,
            env@,
            call.input,
            tools_after[i].tool,
            env_after@,
            result,
        ));
        assert forall|j: int| 0 <= j < 4 && j != i implies #[trigger] tools_after[j] == tools[j] by {}
        if i == 0 {
            let t = tools[0].tool->Item_0@;
            let t_after = tools_after[0].tool->Item_0@;
            let st = choose|st: StampView| #[trigger]
                env@.store.gives(st) && (env_after@.store, t_after, result) == item_run(
                    env@.store,
                    t,
                    call.input,
                    st,
                );
            lemma_item_call(u, env@.store, t, call, st, made, replies)
        } else {
            assert(env_after@.store.items == env@.store.items);
            assert(env_after@.store.usage == env@.store.usage);
            assert forall|j: int| 0 <= j < made.len() implies is_made(
                u,
                env_after@.store,
                session_id,
                replies,
                #[trigger] made[j],
            ) by {
                assert(is_made(u, env@.store, session_id, replies, made[j]));
            }
            made
        }
    } else {
        made
    }
}

/// The calls of one reply.
proof fn lemma_calls<M: MemoryStore>(
    u: StoreView,
    session_id: Seq<char>,
    reply: Result<ResponseView, HarnessErrorView>,
    tools: Seq<Seq<PipelineTool<M>>>,
    envs: Seq<Workspace<M>>,
    results: Seq<Result<Seq<char>, HarnessErrorView>>,
    made: Seq<Seq<char>>,
    replies: Seq<Result<ResponseView, HarnessErrorView>>,
    n: int,
) -> (made_after: Seq<Seq<char>>)
    requires
        calls_made(calls_of(reply), tools, envs, results),
        0 <= n <= calls_of(reply).len(),
        replies.len() > 0,
        replies.last() == reply,
        tools_of_run(tools[0], session_id, made),
        only_made(u, envs[0]@.store, session_id, made, replies),
    ensures
        tools_of_run(tools[n], session_id, made_after),
        only_made(u, envs[n]@.store, session_id, made_after, replies),
    decreases n,
{
    if n == 0 {
        made
    } else {
        let so_far = lemma_calls(
            u,
            session_id,
            reply,
            tools,
            envs,
            results,
            made,
            replies,
            n - 1,
        );
        let call = calls_of(reply)[n - 1];
        assert forall|kind: Seq<char>, text: Seq<char>|
            call.name == ADD_ITEM@ && item_input(call.input) == Ok::<
                (Seq<char>, Seq<char>),
                Seq<char>,
            >((kind, text)) implies #[trigger] asked_for(replies, kind, text) by {
            assert(calls_of(replies[replies.len() - 1])[n - 1].name == ADD_ITEM@);
        }
        lemma_call(
            u,
            session_id,
            tools[n - 1],
            envs[n - 1],
            call,
            tools[n],
            envs[n],
            results[n - 1],
            so_far,
            replies,
        )
    }
}

/// What holds of a run that waits for a reply.
spec fn under_way<M: MemoryStore>(
    u: StoreView,
    v: StoreView,
    session_id: Seq<char>,
    run: ProcessRunView<M>,
    replies: Seq<Result<ResponseView, HarnessErrorView>>,
) -> bool {
    &&& run.plan.session_id == session_id
    &&& match run.phase {
        PhaseView::Extracting(agent) => {
            &&& agent.usage == total_cost(replies)
            &&& tools_of_run(agent.tools, session_id, created_by(agent.tools))
            &&& only_made(u, v, session_id, created_by(agent.tools), replies)
        },
        PhaseView::Summarizing { usage, created_ids } => {
            &&& usage == total_cost(replies)
            &&& only_made(u, v, session_id, created_ids, replies)
        },
        PhaseView::Building { usage, created_ids, .. } => {
            &&& usage == total_cost(replies)
            &&& only_made(u, v, session_id, created_ids, replies)
        },
    }
}

/// A step that goes on keeps what holds of the run.
proof fn lemma_goes_on<M: MemoryStore>(
    u: StoreView,
    session_id: Seq<char>,
    run: ProcessRunView<M>,
    before: Workspace<M>,
    reply: Result<ResponseView, HarnessErrorView>,
    after: Workspace<M>,
    next: ProcessRunView<M>,
    replies: Seq<Result<ResponseView, HarnessErrorView>>,
)
    requires
        under_way(u, before@.store, session_id, run, replies),
        process_advanced(run, before, reply, after, ProcessStepView::Ask(next)),
    ensures
        under_way(u, after@.store, session_id, next, replies.push(reply)),
{
    let all = replies.push(reply);
    let step = ProcessStepView::Ask(next);
    assert(all.drop_last() =~= replies);
    match run.phase {
        PhaseView::Extracting(agent) => {
            let (tools, envs, results) = choose|
                tools: Seq<Seq<PipelineTool<M>>>,
                envs: Seq<Workspace<M>>,
                results: Seq<Result<Seq<char>, HarnessErrorView>>,
            | #[trigger]
                calls_made(calls_of(reply), tools, envs, results) && tools[0] == agent.tools
                    && envs[0] == before && extraction_step(
                    run.plan,
                    advanced(agent, reply, tools.last(), results),
                    envs.last()@,
                    after@,
                    step,
                );
            let n = calls_of(reply).len() as int;
            lemma_made_before(
                u,
                before@.store,
                session_id,
                created_by(agent.tools),
                replies,
                reply,
            );
            let made = lemma_calls(
                u,
                session_id,
                reply,
                tools,
                envs,
                results,
                created_by(agent.tools),
                all,
                n,
            );
            assert(created_by(tools.last()) == made);
            assert(after@ == envs.last()@);
            assert(total_cost(all) == usage_sum(total_cost(replies), cost_of(reply)));
            if n == 0 {
                assert(tools.last() == agent.tools);
            }
        },
        PhaseView::Summarizing { usage, created_ids } => {
            lemma_made_before(u, before@.store, session_id, created_ids, replies, reply);
        },
        PhaseView::Building { .. } => {},
    }
}

/// What the first step leaves when it asks the model.
proof fn lemma_begins<M: MemoryStore>(
    processor: SessionProcessor,
    start: WorkView,
    session_id: Seq<char>,
    after: WorkView,
    run: ProcessRunView<M>,
) -> (now: u64)
    requires
        process_begun(processor, start, session_id, after, ProcessStepView::Ask(run)),
    ensures
        outputs_cleared(start.store, session_id, now).1 is Ok,
        after.store == outputs_cleared(start.store, session_id, now).0,
        under_way(after.store, after.store, session_id, run, Seq::empty()),
{
    let step = ProcessStepView::Ask(run);
    let session = start.store.session(session_id)->0;
    let now = choose|now: u64| #[trigger]
        start.store.clock.shows(now) && process_cleared(
            processor,
            start,
            session,
            session_id,
            outputs_cleared(start.store, session_id, now).0,
            after,
            step,
        );
    let cleared = outputs_cleared(start.store, session_id, now).0;
    let mid = WorkView { store: cleared, ..start };
    assert(!blank(session.transcript));
    let plan = plan_of(processor, start, session, session_id);
    let messages = seq![user_text_view("Process this session.\n\n"@ + plan.transcript)];
    let tools = choose|tools: Seq<PipelineTool<M>>| #[trigger]
        extraction_tools(tools, session_id) && extraction_step(
            plan,
            begun(tools, extraction_config(plan), messages),
            mid,
            after,
            step,
        );
    assert(created_by(tools) == Seq::<Seq<char>>::empty());
    now
}

/// A run that waits for a reply, after any number of them.
proof fn lemma_under_way<M: MemoryStore>(
    processor: SessionProcessor,
    start: WorkView,
    session_id: Seq<char>,
    replies: Seq<Result<ResponseView, HarnessErrorView>>,
    envs: Seq<Workspace<M>>,
    steps: Seq<ProcessStepView<M>>,
    n: int,
) -> (now: u64)
    requires
        processed_through(processor, start, session_id, replies, envs, steps),
        0 <= n <= replies.len(),
        steps[n] is Ask,
    ensures
        outputs_cleared(start.store, session_id, now).1 is Ok,
        under_way(
            outputs_cleared(start.store, session_id, now).0,
            envs[n]@.store,
            session_id,
            steps[n]->Ask_0,
            replies.take(n),
        ),
    decreases n,
{
    if n == 0 {
        assert(replies.take(0) =~= Seq::empty());
        lemma_begins(processor, start, session_id, envs[0]@, steps[0]->Ask_0)
    } else {
        assert(steps[n - 1] is Ask);
        let now = lemma_under_way(processor, start, session_id, replies, envs, steps, n - 1);
        let u = outputs_cleared(start.store, session_id, now).0;
        lemma_goes_on(
            u,
            session_id,
            steps[n - 1]->Ask_0,
            envs[n - 1],
            replies[n - 1],
            envs[n],
            steps[n]->Ask_0,
            replies.take(n - 1),
        );
        assert(replies.take(n - 1).push(replies[n - 1]) =~= replies.take(n));
        now
    }
}

/// The successful end swaps the board.
proof fn lemma_swaps(
    start: StoreView,
    now: u64,
    v: StoreView,
    session_id: Seq<char>,
    summary: Seq<char>,
    usage: Usage,
    made: Seq<Seq<char>>,
    st: StampView,
    replies: Seq<Result<ResponseView, HarnessErrorView>>,
)
    requires
        items_under_their_ids(start),
        outputs_cleared(start, session_id, now).1 is Ok,
        only_made(outputs_cleared(start, session_id, now).0, v, session_id, made, replies),
        finished_processed(v, session_id, summary, usage, made, st).1 is Ok,
    ensures
        board_swapped(
            start,
            finished_processed(v, session_id, summary, usage, made, st).0,
            session_id,
            made,
            replies,
        ),
{
    let u = outputs_cleared(start, session_id, now).0;
    let w = finished_processed(v, session_id, summary, usage, made, st).0;
    let which = SweepView::Swap(made);
    let cleared = swept_row(session_id, SweepView::Authoritative, now);
    let swapped = swept_row(session_id, which, st.now);
    assert(w.items =~= v.items.map_values(swapped));
    assert(u.items =~= start.items.map_values(cleared));
    assert forall|k: Seq<char>| #[trigger] start.items.contains_key(k) implies u.items.contains_key(
        k,
    ) && u.items[k] == cleared(start.items[k]) && v.items.contains_key(k) && v.items[k]
        == u.items[k] && w.items[k] == swapped(v.items[k]) by {
        assert(u.items.contains_key(k));
    }
    assert forall|i: int| 0 <= i < made.len() implies is_made(
        start,
        w,
        session_id,
        replies,
        #[trigger] made[i],
    ) by {
        let k = made[i];
        assert(is_made(u, v, session_id, replies, k));
        assert(!start.items.contains_key(k)) by {
            if start.items.contains_key(k) {
                assert(u.items.contains_key(k));
            }
        }
        assert(made.contains(v.items[k].item.id));
        assert(w.items[k] == swapped(v.items[k]));
    }
    assert forall|k: Seq<char>|
        #![trigger w.item(k)]
        start.item(k) is Some && (start.item(k)->0.session_id != session_id
            || start.item(k)->0.source == ItemSource::Manual) implies w.item(k) == start.item(k) by {
        assert(start.items.contains_key(k));
    }
    assert forall|k: Seq<char>|
        #![trigger w.item(k)]
        w.item(k) is Some && !made.contains(k) implies w.item(k) == start.item(k) && (
    w.item(k)->0.session_id != session_id || w.item(k)->0.source == ItemSource::Manual) by {
        assert(v.items.contains_key(k));
        assert(u.items.contains_key(k));
        assert(start.items.contains_key(k));
        assert(start.items[k].item.id == k);
    }
}

/// What holds of processing a session as a whole, when it succeeds. The board is
/// what was noted by hand before and what the run's own calls made, and nothing
/// else; the items of other sessions are as they were. The session is processed.
/// The run's usage is that of all replies together, and the log has one more row,
/// with it.
pub proof fn law_whole_processing<M: MemoryStore>(
    processor: SessionProcessor,
    start: WorkView,
    session_id: Seq<char>,
    replies: Seq<Result<ResponseView, HarnessErrorView>>,
    envs: Seq<Workspace<M>>,
    steps: Seq<ProcessStepView<M>>,
    outcome: ProcessOutcomeView,
)
    requires
        items_under_their_ids(start.store),
        processed_through(processor, start, session_id, replies, envs, steps),
        steps.last() == ProcessStepView::<M>::Done(Ok(outcome)),
    ensures
        exists|made: Seq<Seq<char>>| #[trigger]
            board_swapped(start.store, envs.last()@.store, session_id, made, replies),
        envs.last()@.store.session(session_id) == Some(outcome.session),
        outcome.session.status == SessionStatus::Processed,
        outcome.usage == total_cost(replies),
        envs.last()@.store.usage.len() == start.store.usage.len() + 1,
        envs.last()@.store.usage.drop_last() == start.store.usage,
        envs.last()@.store.usage.last().session_id == Some(session_id),
        envs.last()@.store.usage.last().purpose == "processing"@,
        envs.last()@.store.usage.last().input_tokens == outcome.usage.input_tokens,
        envs.last()@.store.usage.last().output_tokens == outcome.usage.output_tokens,
{
    let n = replies.len() as int;
    let step = ProcessStepView::<M>::Done(Ok(outcome));
    let w = envs[n]@.store;
    if n == 0 {
        let session = start.store.session(session_id)->0;
        let now = choose|now: u64| #[trigger]
            start.store.clock.shows(now) && process_cleared(
                processor,
                start,
                session,
                session_id,
                outputs_cleared(start.store, session_id, now).0,
                envs[0]@,
                step,
            );
        let u = outputs_cleared(start.store, session_id, now).0;
        let mid = WorkView { store: u, ..start };
        assert(blank(session.transcript)) by {
            if !blank(session.transcript) {
                let plan = plan_of(processor, start, session, session_id);
                let messages = seq![user_text_view("Process this session.\n\n"@ + plan.transcript)];
                let tools = choose|tools: Seq<PipelineTool<M>>| #[trigger]
                    extraction_tools(tools, session_id) && extraction_step(
                        plan,
                        begun(tools, extraction_config(plan), messages),
                        mid,
                        envs[0]@,
                        step,
                    );
                assert(false);
            }
        }
        let none = Seq::<Seq<char>>::empty();
        let st = choose|st: StampView| #[trigger]
            u.gives(st) && (envs[0]@, step) == process_finished::<M>(
                mid,
                session_id,
                "(empty session)"@,
                no_usage(),
                none,
                None,
                st,
            );
        lemma_swaps(
            start.store,
            now,
            u,
            session_id,
            "(empty session)"@,
            no_usage(),
            none,
            st,
            replies,
        );
        assert(board_swapped(start.store, w, session_id, none, replies));
        assert(w.usage.drop_last() =~= start.store.usage);
    } else {
        assert(steps[n - 1] is Ask);
        let now = lemma_under_way(processor, start, session_id, replies, envs, steps, n - 1);
        let u = outputs_cleared(start.store, session_id, now).0;
        let run = steps[n - 1]->Ask_0;
        let before = envs[n - 1];
        let reply = replies[n - 1];
        assert(process_advanced(run, before, reply, envs[n], step));
        lemma_ends(start.store, now, session_id, run, before, reply, envs[n], outcome, replies);
        assert(replies.take(n - 1) =~= replies.drop_last());
    }
}

/// The last step of a run that succeeds.
proof fn lemma_ends<M: MemoryStore>(
    start: StoreView,
    now: u64,
    session_id: Seq<char>,
    run: ProcessRunView<M>,
    before: Workspace<M>,
    reply: Result<ResponseView, HarnessErrorView>,
    after: Workspace<M>,
    outcome: ProcessOutcomeView,
    replies: Seq<Result<ResponseView, HarnessErrorView>>,
)
    requires
        items_under_their_ids(start),
        outputs_cleared(start, session_id, now).1 is Ok,
        replies.len() > 0,
        replies.last() == reply,
        under_way(
            outputs_cleared(start, session_id, now).0,
            before@.store,
            session_id,
            run,
            replies.drop_last(),
        ),
        process_advanced(run, before, reply, after, ProcessStepView::Done(Ok(outcome))),
    ensures
        exists|made: Seq<Seq<char>>| #[trigger]
            board_swapped(start, after@.store, session_id, made, replies),
        after@.store.session(session_id) == Some(outcome.session),
        outcome.session.status == SessionStatus::Processed,
        outcome.usage == total_cost(replies),
        after@.store.usage.len() == start.usage.len() + 1,
        after@.store.usage.drop_last() == start.usage,
        after@.store.usage.last().session_id == Some(session_id),
        after@.store.usage.last().purpose == "processing"@,
        after@.store.usage.last().input_tokens == outcome.usage.input_tokens,
        after@.store.usage.last().output_tokens == outcome.usage.output_tokens,
{
    let step = ProcessStepView::<M>::Done(Ok(outcome));
    let u = outputs_cleared(start, session_id, now).0;
    let v = before@.store;
    assert(run.phase is Building) by {
        if let PhaseView::Extracting(agent) = run.phase {
            let (tools, envs, results) = choose|
                tools: Seq<Seq<PipelineTool<M>>>,
                envs: Seq<Workspace<M>>,
                results: Seq<Result<Seq<char>, HarnessErrorView>>,
            | #[trigger]
                calls_made(calls_of(reply), tools, envs, results) && tools[0] == agent.tools
                    && envs[0] == before && extraction_step(
                    run.plan,
                    advanced(agent, reply, tools.last(), results),
                    envs.last()@,
                    after@,
                    step,
                );
            assert(false);
        }
    }
    let usage = run.phase->Building_usage;
    let created = run.phase->Building_created_ids;
    let summary = run.phase->summary;
    let resp = reply->Ok_0;
    let spent = usage_sum(usage, resp.usage);
    let input = first_call(resp.content, BUILD_DOCUMENT@)->0;
    let (ids, st) = choose|ids: Seq<Seq<char>>, st: StampView|
        v.gives(st) && line_ids(input, ids) && built_step(
            run.plan,
            spent,
            created,
            summary,
            before@,
            #[trigger] document_run(v, document_tool(run.plan), input, ids, st),
            after@,
            step,
        );
    let built = document_run(v, document_tool(run.plan), input, ids, st);
    let mid = WorkView { store: built.0, ..before@ };
    let a = latest_document(built.0, session_id)->0;
    let end = choose|end: StampView| #[trigger]
        mid.store.gives(end) && (after@, step) == process_finished::<M>(
            mid,
            session_id,
            summary,
            spent,
            created,
            Some(a.id),
            end,
        );
    lemma_made_before(u, v, session_id, created, replies.drop_last(), reply);
    assert(replies.drop_last().push(reply) =~= replies);
    assert(built.0.items == v.items);
    assert(built.0.usage == v.usage);
    assert forall|i: int| 0 <= i < created.len() implies is_made(
        u,
        built.0,
        session_id,
        replies,
        #[trigger] created[i],
    ) by {
        assert(is_made(u, v, session_id, replies, created[i]));
    }
    assert(only_made(u, built.0, session_id, created, replies));
    lemma_swaps(start, now, built.0, session_id, summary, spent, created, end, replies);
    assert(board_swapped(start, after@.store, session_id, created, replies));
    assert(after@.store.usage.drop_last() =~= start.usage);
}

} // verus!
