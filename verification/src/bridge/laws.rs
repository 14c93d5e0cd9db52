//! What holds of everything that the host application is shown.

use vstd::prelude::*;
use crate::bridge::convert::DocLineView;
use crate::bridge::convert::document_of;
use crate::bridge::convert::DocumentView;
use crate::bridge::convert::line_view;
use crate::bridge::convert::partial_document;
use crate::bridge::convert::projected;
use crate::bridge::walk::finish_begun;
use crate::bridge::walk::finish_processes;
use crate::bridge::walk::finish_settled;
use crate::bridge::walk::FinishStep;
use crate::bridge::walk::is_built;
use crate::bridge::walk::is_degraded;
use crate::bridge::walk::is_partial;
use crate::bridge::walk::WalkView;
use crate::harness::error::HarnessErrorView;
use crate::harness::llm::first_call;
use crate::harness::llm::no_usage;
use crate::harness::llm::ResponseView;
use crate::harness::llm::Usage;
use crate::harness::llm::usage_sum;
use crate::harness::memory::store::MemoryStore;
use crate::json::JsonView;
use crate::json::lemma_field_at;
use crate::json::PARSE_DEPTH;
use crate::notes::domain::ArtifactView;
use crate::notes::domain::CapturedItemView;
use crate::notes::domain::SessionStatus;
use crate::notes::pipeline::document::BUILD_DOCUMENT;
use crate::notes::pipeline::document::document_line;
use crate::notes::pipeline::document::document_lines;
use crate::notes::pipeline::document::document_payload;
use crate::notes::pipeline::document::document_run;
use crate::notes::pipeline::document::integer_field;
use crate::notes::pipeline::document::lemma_document_is_plain;
use crate::notes::pipeline::document::lemma_line_is_plain;
use crate::notes::pipeline::document::line_ids;
use crate::notes::pipeline::document::line_is_gap;
use crate::notes::pipeline::document::lines_in;
use crate::notes::pipeline::document::text_or_empty;
use crate::notes::pipeline::processor::built_step;
use crate::notes::pipeline::processor::default_processor;
use crate::notes::pipeline::processor::doc_kind_of;
use crate::notes::pipeline::processor::document_tool;
use crate::notes::pipeline::processor::process_advanced;
use crate::notes::pipeline::processor::process_begun;
use crate::notes::pipeline::processor::process_cleared;
use crate::notes::pipeline::processor::process_finished;
use crate::notes::pipeline::processor::ProcessOutcomeView;
use crate::notes::pipeline::processor::ProcessRunView;
use crate::notes::pipeline::processor::ProcessStepView;
use crate::notes::pipeline::tools::required_words;
use crate::notes::pipeline::workspace::Workspace;
use crate::notes::pipeline::workspace::WorkView;
use crate::notes::store::artifacts::is_document;
use crate::notes::store::artifacts::is_latest_document;
use crate::notes::store::artifacts::latest_document;
use crate::notes::store::artifacts::lemma_latest_document;
use crate::notes::store::documents::numbered;
use crate::notes::store::items::lists_items;
use crate::notes::store::items::of_session;
use crate::notes::store::laws::law_item_list_is_determined;
use crate::notes::store::outcomes::ended_and_recorded;
use crate::notes::store::outcomes::finished_processed;
use crate::notes::store::outcomes::outputs_cleared;
use crate::notes::store::StampView;
use crate::notes::store::StoreView;
use crate::text::blank;
use crate::text::lex_lt;

verus! {

/// What is shown of a line that the model wrote.
pub open spec fn shown_line(line: JsonView, doc_kind: Seq<char>, id: Seq<char>) -> DocLineView {
    DocLineView {
        id,
        title: text_or_empty(line.get_text("title"@)),
        detail: text_or_empty(line.get_text("detail"@)),
        qty: text_or_empty(line.get_text("qty"@)),
        amount_cents: integer_field(line.get("amount_cents"@)),
        section: line.get_text("section"@),
        is_gap: line_is_gap(line, doc_kind),
    }
}

/// Nothing at all.
proof fn lemma_empty_text()
    ensures
        ""@ == Seq::<char>::empty(),
{
    reveal_strlit("");
    assert(""@ =~= Seq::<char>::empty());
}

proof fn lemma_line_is_shown(line: JsonView, doc_kind: Seq<char>, id: Seq<char>)
    requires
        line.get_text("title"@) is Some,
    ensures
        line_view(document_line(line, line.get_text("title"@)->0, doc_kind, id)) == shown_line(
            line,
            doc_kind,
            id,
        ),
{
    let title = line.get_text("title"@)->0;
    let built = document_line(line, title, doc_kind, id);
    let f = built->Object_0;
    lemma_line_is_plain(line, title, doc_kind, id, 1);
    lemma_field_at(f, 0);
    lemma_field_at(f, 1);
    lemma_field_at(f, 2);
    lemma_field_at(f, 3);
    lemma_field_at(f, 4);
    lemma_field_at(f, 5);
    lemma_field_at(f, 6);
    lemma_empty_text();
}

proof fn lemma_lines_are_shown(lines: Seq<JsonView>, doc_kind: Seq<char>, ids: Seq<Seq<char>>)
    ensures
        document_lines(lines, doc_kind, ids) matches Ok(built) ==> built.len() == lines.len()
            && forall|i: int|
            0 <= i < lines.len() ==> line_view(#[trigger] built[i]) == shown_line(
                lines[i],
                doc_kind,
                ids[i],
            ),
    decreases lines.len(),
{
    if lines.len() > 0 {
        let rest = lines.drop_last();
        lemma_lines_are_shown(rest, doc_kind, ids);
        if document_lines(lines, doc_kind, ids) is Ok {
            let built = document_lines(lines, doc_kind, ids)->Ok_0;
            let before = document_lines(rest, doc_kind, ids)->Ok_0;
            lemma_line_is_shown(lines.last(), doc_kind, ids[lines.len() - 1]);
            assert forall|i: int| 0 <= i < lines.len() implies line_view(#[trigger] built[i])
                == shown_line(lines[i], doc_kind, ids[i]) by {
                if i < rest.len() {
                    assert(built[i] == before[i]);
                    assert(rest[i] == lines[i]);
                }
            }
        }
    }
}

/// What the model wrote is what is shown: reading a document that was built
/// gives its kind, its number, the date of the job, its totals and every line,
/// in order, with no amount that was not in the input.
pub proof fn law_document_shows_what_was_built(
    input: JsonView,
    doc_kind: Seq<char>,
    started_at: u64,
    ids: Seq<Seq<char>>,
    n: u64,
)
    requires
        document_payload(input, doc_kind, started_at, ids) is Ok,
    ensures
        ({
            let d = projected(numbered(document_payload(input, doc_kind, started_at, ids)->Ok_0, n));
            let lines = lines_in(input)->0;
            d == (DocumentView {
                doc_kind,
                doc_number: n,
                job_date_unix: started_at,
                total_kind: required_words(input, "total_kind"@)->Ok_0,
                total_label_key: required_words(input, "total_label_key"@)->Ok_0,
                static_total_cents: integer_field(input.get("static_total_cents"@)),
                lines: Seq::new(
                    lines.len(),
                    |i: int| shown_line(lines[i], doc_kind, ids[i]),
                ),
                queued: false,
            })
        }),
{
    let payload = document_payload(input, doc_kind, started_at, ids)->Ok_0;
    let v = numbered(payload, n);
    let g = v->Object_0;
    lemma_document_is_plain(input, doc_kind, started_at, ids, n);
    assert(v.plain(PARSE_DEPTH as nat));
    lemma_field_at(g, 0);
    lemma_field_at(g, 1);
    lemma_field_at(g, 2);
    lemma_field_at(g, 3);
    lemma_field_at(g, 4);
    lemma_field_at(g, 5);
    lemma_field_at(g, 6);
    lemma_field_at(g, 7);
    let lines = lines_in(input)->0;
    lemma_lines_are_shown(lines, doc_kind, ids);
    let built = document_lines(lines, doc_kind, ids)->Ok_0;
    assert(g[3].1 == JsonView::Array(built));
    assert(projected(v).lines =~= Seq::new(
        lines.len(),
        |i: int| shown_line(lines[i], doc_kind, ids[i]),
    ));
}

/// The document that stands in for one that was not built loses nothing: every
/// item of the session has its line, which is marked as open.
pub proof fn law_partial_document_loses_nothing(
    v: StoreView,
    w: WalkView,
    queued: bool,
    document: DocumentView,
    id: Seq<char>,
)
    requires
        is_partial(v, w, queued, document),
        v.item(id) is Some,
        v.item(id)->0.session_id == w.session_id,
    ensures
        document.queued == queued,
        exists|i: int|
            0 <= i < document.lines.len() && (#[trigger] document.lines[i]).id == v.item(id)->0.id
                && document.lines[i].title == v.item(id)->0.text && document.lines[i].is_gap
                && document.lines[i].amount_cents is None,
{
    let items = choose|items: Seq<CapturedItemView>| #[trigger]
        lists_items(v, of_session(w.session_id), items) && document
            == partial_document(doc_kind_of(w.template), items, queued);
    assert(of_session(w.session_id)(v.item(id)->0));
    let i = choose|i: int| 0 <= i < items.len() && #[trigger] items[i] == v.item(id)->0;
    assert(document.lines[i].id == v.item(id)->0.id);
}

/// A session from which nothing is heard any more: it has ended, or there is no
/// such session.
pub open spec fn is_over(v: StoreView, session_id: Seq<char>) -> bool {
    v.session(session_id) matches Some(s) ==> s.status != SessionStatus::Recording
}

/// Finishing a walk that is over changes nothing and asks nothing of the model.
/// It shows the document of the session.
pub proof fn law_finishing_again_changes_nothing<M: MemoryStore>(
    w: WalkView,
    work: WorkView,
    work_after: WorkView,
    step: FinishStep<M>,
)
    requires
        is_over(work.store, w.session_id),
        finish_begun(w, work, work_after, step),
    ensures
        work_after == work,
        step matches FinishStep::Done { document, event } && event is None && is_degraded(
            work.store,
            w,
            document@,
        ),
{
}

/// A board makes one document only.
proof fn lemma_one_partial_document(
    v: StoreView,
    w: WalkView,
    queued: bool,
    a: DocumentView,
    b: DocumentView,
)
    requires
        is_partial(v, w, queued, a),
        is_partial(v, w, false, b),
    ensures
        b == (DocumentView { queued: false, ..a }),
{
    let kind = doc_kind_of(w.template);
    let x = choose|x: Seq<CapturedItemView>| #[trigger]
        lists_items(v, of_session(w.session_id), x) && a == partial_document(kind, x, queued);
    let y = choose|y: Seq<CapturedItemView>| #[trigger]
        lists_items(v, of_session(w.session_id), y) && b == partial_document(kind, y, false);
    law_item_list_is_determined(v, of_session(w.session_id), x, y);
}

/// However often a walk that is over is finished, it shows the same document.
pub proof fn law_finishing_again_shows_the_same_document<M: MemoryStore>(
    w: WalkView,
    work: WorkView,
    once: WorkView,
    first: FinishStep<M>,
    twice: WorkView,
    second: FinishStep<M>,
)
    requires
        is_over(work.store, w.session_id),
        finish_begun(w, work, once, first),
        finish_begun(w, once, twice, second),
    ensures
        twice == work,
        first matches FinishStep::Done { document: a, .. } && second matches FinishStep::Done {
            document: b,
            ..
        } && a@ == b@,
{
    law_finishing_again_changes_nothing(w, work, once, first);
    law_finishing_again_changes_nothing(w, once, twice, second);
    let a = first->document@;
    let b = second->document@;
    let read = match latest_document(work.store, w.session_id) {
        Some(x) => document_of(x.body) is Ok,
        None => false,
    };
    if !read {
        lemma_one_partial_document(work.store, w, false, a, b);
        lemma_one_partial_document(work.store, w, false, b, a);
    }
}

/// Whether a session has a document rests on its artifacts alone.
proof fn lemma_same_artifacts_same_document(a: StoreView, b: StoreView, session_id: Seq<char>)
    requires
        a.artifacts == b.artifacts,
    ensures
        latest_document(a, session_id) == latest_document(b, session_id),
{
    assert forall|x: ArtifactView| is_document(a, session_id, x) == is_document(
        b,
        session_id,
        x,
    ) by {
        assert(a.artifact(x.id) == b.artifact(x.id));
    }
    assert forall|x: ArtifactView| #[trigger]
        is_latest_document(a, session_id, x) implies is_latest_document(b, session_id, x) by {
        assert forall|y: ArtifactView| #[trigger] is_document(b, session_id, y) implies !lex_lt(
            x.id,
            y.id,
        ) by {
            assert(is_document(a, session_id, y));
        }
        assert(is_document(a, session_id, x));
    }
    assert forall|x: ArtifactView| #[trigger]
        is_latest_document(b, session_id, x) implies is_latest_document(a, session_id, x) by {
        assert forall|y: ArtifactView| #[trigger] is_document(a, session_id, y) implies !lex_lt(
            x.id,
            y.id,
        ) by {
            assert(is_document(b, session_id, y));
        }
        assert(is_document(b, session_id, x));
    }
    if let Some(x) = latest_document(a, session_id) {
        assert(is_latest_document(a, session_id, x));
        lemma_latest_document(b, session_id, x);
    }
    if let Some(x) = latest_document(b, session_id) {
        assert(is_latest_document(b, session_id, x));
        lemma_latest_document(a, session_id, x);
    }
}

/// What stands when a walk has been processed: its session is over, and what was
/// shown is what the session shows.
proof fn lemma_processed_walk(
    w: WalkView,
    mid: StoreView,
    summary: Seq<char>,
    usage: Usage,
    created_ids: Seq<Seq<char>>,
    st: StampView,
    outcome: ProcessOutcomeView,
    document: DocumentView,
)
    requires
        finished_processed(mid, w.session_id, summary, usage, created_ids, st).1 is Ok,
        outcome.document_artifact_id == (match latest_document(mid, w.session_id) {
            Some(a) => Some(a.id),
            None => None,
        }),
        is_built(
            finished_processed(mid, w.session_id, summary, usage, created_ids, st).0,
            w,
            outcome,
            document,
        ),
    ensures
        ({
            let v = finished_processed(mid, w.session_id, summary, usage, created_ids, st).0;
            is_over(v, w.session_id) && is_degraded(v, w, document)
        }),
{
    let v = finished_processed(mid, w.session_id, summary, usage, created_ids, st).0;
    lemma_same_artifacts_same_document(mid, v, w.session_id);
    if let Some(a) = latest_document(v, w.session_id) {
        assert(is_latest_document(v, w.session_id, a));
        assert(is_document(v, w.session_id, a));
    }
}

/// A walk that was finished at once, with nothing left to process, shows the
/// same document when it is finished again, and nothing changes.
pub proof fn law_second_finish_repeats_the_first<M: MemoryStore>(
    w: WalkView,
    work: WorkView,
    once: WorkView,
    first: FinishStep<M>,
    twice: WorkView,
    second: FinishStep<M>,
)
    requires
        finish_begun(w, work, once, first),
        first matches FinishStep::Done { document, .. } && !document@.queued,
        finish_begun(w, once, twice, second),
    ensures
        twice == once,
        second matches FinishStep::Done { document, event } && event is None && document@
            == first->document@,
{
    let id = w.session_id;
    if is_over(work.store, id) {
        law_finishing_again_shows_the_same_document(w, work, once, first, twice, second);
    } else {
        let now = choose|now: u64| #[trigger]
            work.store.clock.shows(now) && match ended_and_recorded(work.store, id, now) {
                (v, Err(_)) => {
                    &&& once == (WorkView { store: v, ..work })
                    &&& first matches FinishStep::Done { document, event } && event is None
                        && is_degraded(v, w, document@)
                },
                (v, Ok(_)) => finish_processes(w, WorkView { store: v, ..work }, once, first),
            };
        let begun = WorkView { store: ended_and_recorded(work.store, id, now).0, ..work };
        let processed = choose|processed: ProcessStepView<M>| #[trigger]
            process_begun(default_processor(), begun, id, once, processed) && finish_settled(
                w,
                processed,
                once.store,
                first,
            );
        let session = begun.store.session(id)->0;
        let cleared_at = choose|t: u64| #[trigger]
            begun.store.clock.shows(t) && process_cleared(
                default_processor(),
                begun,
                session,
                id,
                outputs_cleared(begun.store, id, t).0,
                once,
                processed,
            );
        let cleared = outputs_cleared(begun.store, id, cleared_at).0;
        assert(blank(session.transcript));
        let mid = WorkView { store: cleared, ..begun };
        let st = choose|st: StampView| #[trigger]
            cleared.gives(st) && (once, processed) == process_finished::<M>(
                mid,
                id,
                "(empty session)"@,
                no_usage(),
                Seq::empty(),
                None,
                st,
            );
        assert(latest_document(cleared, id) is None) by {
            if let Some(a) = latest_document(cleared, id) {
                assert(is_latest_document(cleared, id, a));
                assert(is_document(cleared, id, a));
                assert(cleared.artifacts.contains_key(a.id));
            }
        }
        let outcome = processed->Done_0->Ok_0;
        lemma_processed_walk(
            w,
            cleared,
            "(empty session)"@,
            no_usage(),
            Seq::empty(),
            st,
            outcome,
            first->document@,
        );
        lemma_one_document_of_what_is_over(w, once, twice, second, first->document@);
    }
}

/// What a session that is over shows is one document.
proof fn lemma_one_document_of_what_is_over<M: MemoryStore>(
    w: WalkView,
    work: WorkView,
    work_after: WorkView,
    step: FinishStep<M>,
    document: DocumentView,
)
    requires
        is_over(work.store, w.session_id),
        is_degraded(work.store, w, document),
        finish_begun(w, work, work_after, step),
    ensures
        work_after == work,
        step matches FinishStep::Done { document: d, event } && event is None && d@ == document,
{
    law_finishing_again_changes_nothing(w, work, work_after, step);
    let d = step->document@;
    let read = match latest_document(work.store, w.session_id) {
        Some(x) => document_of(x.body) is Ok,
        None => false,
    };
    if !read {
        lemma_one_partial_document(work.store, w, false, d, document);
        lemma_one_partial_document(work.store, w, false, document, d);
    }
}

/// A walk that was processed shows the same document when it is finished again,
/// and nothing changes. A document that is queued was not processed.
pub proof fn law_second_finish_repeats_what_was_built<M: MemoryStore>(
    w: WalkView,
    run: ProcessRunView<M>,
    before: Workspace<M>,
    reply: Result<ResponseView, HarnessErrorView>,
    after: Workspace<M>,
    processed: ProcessStepView<M>,
    first: FinishStep<M>,
    twice: WorkView,
    second: FinishStep<M>,
)
    requires
        run.plan.session_id == w.session_id,
        process_advanced(run, before, reply, after, processed),
        finish_settled(w, processed, after@.store, first),
        first matches FinishStep::Done { document, .. } && !document@.queued,
        finish_begun(w, after@, twice, second),
    ensures
        twice == after@,
        second matches FinishStep::Done { document, event } && event is None && document@
            == first->document@,
{
    assert(run.phase is Building);
    let usage = run.phase->Building_usage;
    let created_ids = run.phase->Building_created_ids;
    let summary = run.phase->summary;
    let resp = reply->Ok_0;
    let input = first_call(resp.content, BUILD_DOCUMENT@)->0;
    let spent = usage_sum(usage, resp.usage);
    let work = before@;
    let (ids, st) = choose|ids: Seq<Seq<char>>, st: StampView|
        work.store.gives(st) && line_ids(input, ids) && built_step(
            run.plan,
            spent,
            created_ids,
            summary,
            work,
            #[trigger] document_run(work.store, document_tool(run.plan), input, ids, st),
            after@,
            processed,
        );
    let built = document_run(work.store, document_tool(run.plan), input, ids, st);
    let mid = WorkView { store: built.0, ..work };
    let a = latest_document(built.0, w.session_id)->0;
    let end = choose|end: StampView| #[trigger]
        mid.store.gives(end) && (after@, processed) == process_finished::<M>(
            mid,
            w.session_id,
            summary,
            spent,
            created_ids,
            Some(a.id),
            end,
        );
    lemma_processed_walk(
        w,
        built.0,
        summary,
        spent,
        created_ids,
        end,
        processed->Done_0->Ok_0,
        first->document@,
    );
    lemma_one_document_of_what_is_over(w, after@, twice, second, first->document@);
}

/// A walk that could not be processed shows its board again when it is finished
/// again; only that it is queued is no longer said.
pub proof fn law_second_finish_shows_the_board_again<M: MemoryStore>(
    w: WalkView,
    work: WorkView,
    shown: DocumentView,
    work_after: WorkView,
    step: FinishStep<M>,
)
    requires
        is_over(work.store, w.session_id),
        is_partial(work.store, w, true, shown),
        latest_document(work.store, w.session_id) is None,
        finish_begun(w, work, work_after, step),
    ensures
        work_after == work,
        step matches FinishStep::Done { document, event } && event is None && document@ == (
        DocumentView { queued: false, ..shown }),
{
    law_finishing_again_changes_nothing(w, work, work_after, step);
    lemma_one_partial_document(work.store, w, true, shown, step->document@);
}

} // verus!
