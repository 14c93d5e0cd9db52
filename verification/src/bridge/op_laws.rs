//! What the host application is shown, said of what is stored.

use vstd::prelude::*;
use crate::bridge::convert::board_item;
use crate::bridge::convert::board_view;
use crate::bridge::convert::BoardItem;
use crate::bridge::convert::ConvertError;
use crate::bridge::convert::document_payload;
use crate::bridge::convert::DocumentPayload;
use crate::bridge::convert::DocumentView;
use crate::bridge::convert::partial_document;
use crate::bridge::convert::partial_document_from_items;
use crate::bridge::convert::project_document;
use crate::bridge::convert::projected;
use crate::bridge::engine::build_providers;
use crate::bridge::engine::EngineConfig;
use crate::bridge::engine::EngineError;
use crate::bridge::engine::MurmurEngine;
use crate::bridge::engine::Providers;
use crate::bridge::engine::quoted;
use crate::bridge::walk::finish_settled;
use crate::bridge::walk::FinishStep;
use crate::bridge::walk::is_partial;
use crate::bridge::walk::TickStep;
use crate::bridge::walk::WalkEvent;
use crate::bridge::walk::WalkSession;
use crate::bridge::walk::WalkView;
use crate::harness::error::HarnessError;
use crate::harness::llm::CompletionResponse;
use crate::harness::memory::store::MemoryStore;
use crate::json::Json;
use crate::json::json_parse;
use crate::json::JsonView;
use crate::notes::domain::Artifact;
use crate::notes::domain::CapturedItem;
use crate::notes::domain::CapturedItemView;
use crate::notes::domain::SessionStatus;
use crate::notes::error::CoreErrorView;
use crate::notes::pipeline::document::document_lines;
use crate::notes::pipeline::document;
use crate::notes::pipeline::document_laws::law_document_holds_what_was_written;
use crate::notes::pipeline::document_laws::law_gap_only_where_said_or_unpriced;
use crate::notes::pipeline::document_laws::law_line_says_what_was_written;
use crate::notes::pipeline::document_laws::law_template_decides_the_kind;
use crate::notes::pipeline::live::LiveRun;
use crate::notes::pipeline::processor::doc_kind_of;
use crate::notes::pipeline::processor::ProcessOutcomeView;
use crate::notes::pipeline::processor::ProcessStepView;
use crate::notes::pipeline::workspace::Workspace;
use crate::notes::store::artifacts::latest_document;
use crate::notes::store::documents::numbered;
use crate::notes::store::items::lists_items;
use crate::notes::store::items::of_session;
use crate::notes::store::sessions::str_option;
use crate::notes::store::StoreView;

verus! {

/// What is read of a text under a key: the text, or nothing.
pub open spec fn reads_text(v: JsonView, key: Seq<char>, t: Seq<char>) -> bool {
    match v.get(key) {
        Some(JsonView::Str(s)) => t == s,
        _ => t.len() == 0,
    }
}

/// What is read of a count under a key: the count, or zero.
pub open spec fn reads_count(v: JsonView, key: Seq<char>, n: u64) -> bool {
    match v.get(key) {
        Some(JsonView::Uint(m)) => n == m,
        Some(JsonView::Int(m)) => if m >= 0 {
            n == m
        } else {
            n == 0
        },
        _ => n == 0,
    }
}

/// What is read of an integer under a key: the integer, or none.
pub open spec fn reads_integer(v: JsonView, key: Seq<char>, n: Option<i64>) -> bool {
    match v.get(key) {
        Some(JsonView::Uint(m)) => if m <= 0x7fff_ffff_ffff_ffff {
            n is Some && n->0 == m
        } else {
            n is None
        },
        Some(JsonView::Int(m)) => n == Some(m),
        _ => n is None,
    }
}

/// The board shows of an item its words and its kind, under its id.
pub proof fn law_board_item(item: &CapturedItem, r: BoardItem)
    requires
        call_ensures(board_item, (item,), r),
    ensures
        r@.id == item@.id,
        r@.kind == item@.kind,
        r@.text == item@.text,
        r@.right.len() == 0,
        r@.photo_count == 0,
{
}

/// A document is shown as it is stored, field by field and line by line; what is
/// missing, or of another kind, is empty.
pub proof fn law_project_document(v: &Json, r: DocumentPayload, i: int)
    requires
        call_ensures(project_document, (v,), r),
    ensures
        reads_text(v@, "doc_kind"@, r@.doc_kind),
        reads_count(v@, "doc_number"@, r@.doc_number),
        reads_count(v@, "job_date_unix"@, r@.job_date_unix),
        reads_text(v@, "total_kind"@, r@.total_kind),
        reads_text(v@, "total_label_key"@, r@.total_label_key),
        reads_integer(v@, "static_total_cents"@, r@.static_total_cents),
        r@.queued <==> v@.get("queued"@) == Some(JsonView::Bool(true)),
        !(v@.get("lines"@) matches Some(JsonView::Array(_))) ==> r@.lines.len() == 0,
        v@.get("lines"@) matches Some(JsonView::Array(lines)) ==> {
            &&& r@.lines.len() == lines.len()
            &&& 0 <= i < lines.len() ==> {
                let line = lines[i];
                let shown = r@.lines[i];
                &&& reads_text(line, "id"@, shown.id)
                &&& reads_text(line, "title"@, shown.title)
                &&& reads_text(line, "detail"@, shown.detail)
                &&& reads_text(line, "qty"@, shown.qty)
                &&& reads_integer(line, "amount_cents"@, shown.amount_cents)
                &&& line.get("section"@) matches Some(JsonView::Str(s)) ==> shown.section == Some(s)
                &&& !(line.get("section"@) matches Some(JsonView::Str(_))) ==> shown.section is None
                &&& shown.is_gap <==> line.get("is_gap"@) == Some(JsonView::Bool(true))
            }
        },
{
}

/// An artifact shows a document exactly when its body can be read.
pub proof fn law_document_payload(artifact: &Artifact, r: Result<DocumentPayload, ConvertError>)
    requires
        call_ensures(document_payload, (artifact,), r),
    ensures
        r is Ok <==> json_parse(artifact@.body) is Ok,
        r matches Ok(d) ==> d@ == projected(json_parse(artifact@.body)->Ok_0),
        r matches Err(e) ==> e@ == json_parse(artifact@.body)->Err_0,
{
}

/// A document that the model wrote is shown with the model's own lines: the same
/// titles and amounts in the same order, and a gap only where the model says so
/// or, on an estimate, where no amount was spoken.
pub proof fn law_written_lines_are_shown(
    input: JsonView,
    doc_kind: Seq<char>,
    started_at: u64,
    ids: Seq<Seq<char>>,
    n: u64,
    i: int,
)
    requires
        document::document_payload(input, doc_kind, started_at, ids) is Ok,
    ensures
        ({
            let d = projected(
                numbered(document::document_payload(input, doc_kind, started_at, ids)->Ok_0, n),
            );
            &&& d.doc_kind == doc_kind
            &&& d.doc_number == n
            &&& d.job_date_unix == started_at
            &&& !d.queued
            &&& input.get("lines"@) matches Some(JsonView::Array(lines)) && d.lines.len()
                == lines.len() && (0 <= i < lines.len() ==> {
                let line = lines[i];
                let shown = d.lines[i];
                let said = line.get("is_gap"@);
                let silent = !(said matches Some(JsonView::Bool(_)));
                &&& line.get("title"@) == Some(JsonView::Str(shown.title))
                &&& reads_integer(line, "amount_cents"@, shown.amount_cents)
                &&& reads_text(line, "qty"@, shown.qty)
                &&& reads_text(line, "detail"@, shown.detail)
                &&& said matches Some(JsonView::Bool(b)) ==> shown.is_gap == b
                &&& silent && doc_kind != "estimate"@ ==> !shown.is_gap
                &&& silent && shown.amount_cents is Some ==> !shown.is_gap
                &&& silent && doc_kind == "estimate"@ && shown.amount_cents is None ==> shown.is_gap
            })
        }),
{
    law_document_holds_what_was_written(input, doc_kind, started_at, ids, n);
    let lines = input.get("lines"@)->0->Array_0;
    if 0 <= i < lines.len() {
        law_line_says_what_was_written(lines, doc_kind, ids, i);
        law_gap_only_where_said_or_unpriced(lines, doc_kind, ids, i);
    } else if lines.len() > 0 {
        law_line_says_what_was_written(lines, doc_kind, ids, 0);
    } else {
        assert(document_lines(lines, doc_kind, ids)->Ok_0.len() == 0);
    }
}

/// The document that stands in for one that was not built has a line for every
/// item, in their order, and every line is open. It has no number and no amount,
/// and an inspection is not summed up.
pub proof fn law_partial_document_from_items(
    doc_kind: &str,
    items: &[CapturedItem],
    queued: bool,
    r: DocumentPayload,
    i: int,
)
    requires
        call_ensures(partial_document_from_items, (doc_kind, items, queued), r),
    ensures
        r@.doc_kind == doc_kind@,
        r@.queued == queued,
        r@.doc_number == 0 && r@.job_date_unix == 0 && r@.static_total_cents is None,
        doc_kind@ == "inspection"@ ==> r@.total_kind == "static"@ && r@.total_label_key
            == "findings"@,
        doc_kind@ != "inspection"@ ==> r@.total_kind == "sum"@ && r@.total_label_key == "total"@,
        r@.lines.len() == items@.len(),
        0 <= i < items@.len() ==> {
            let line = r@.lines[i];
            &&& line.id == items@[i]@.id
            &&& line.title == items@[i]@.text
            &&& line.amount_cents is None
            &&& line.is_gap
            &&& line.qty.len() == 0 && line.detail.len() == 0 && line.section is None
        },
{
}

/// Every purpose has a provider that asks its model with the key of the
/// configuration, on its host or the usual one. Two purposes share one exactly
/// when they share a model.
pub proof fn law_build_providers(config: &EngineConfig, r: Providers)
    requires
        call_ensures(build_providers, (config,), r),
    ensures
        r.list@[r.live as int]@.model == config@.model_live,
        r.list@[r.processing as int]@.model == config@.model_processing,
        r.list@[r.reflection as int]@.model == config@.model_reflection,
        forall|i: int|
            0 <= i < r.list@.len() ==> (#[trigger] r.list@[i])@.api_key == config@.api_key
                && r.list@[i]@.base_url == (match config@.base_url {
                Some(url) => url,
                None => "https://api.anthropic.com"@,
            }),
        r.live == r.processing <==> config@.model_live == config@.model_processing,
        r.live == r.reflection <==> config@.model_live == config@.model_reflection,
        r.processing == r.reflection <==> config@.model_processing == config@.model_reflection,
{
}

/// A walk begins with a session that records under its template, for the job that
/// is named. What cannot begin leaves everything as it was.
pub proof fn law_begin_walk<M: MemoryStore>(
    engine: &mut MurmurEngine<M>,
    job_id: Option<&str>,
    template: &str,
    r: Result<WalkSession, EngineError>,
)
    requires
        call_ensures(MurmurEngine::<M>::begin_walk, (engine, job_id, template), r),
    ensures
        r is Err ==> final(engine).work@ == old(engine).work@,
        job_id is Some && old(engine).work@.store.job(job_id->0@) is None ==> r is Err,
        r matches Ok(walk) ==> {
            let v = old(engine).work@.store;
            let w = final(engine).work@.store;
            let s = w.session(walk@.session_id);
            &&& walk@.template == Some(template@)
            &&& walk@.faults == 0
            &&& walk@.extractor.session_id == walk@.session_id
            &&& walk@.extractor.cursor == 0
            &&& v.session(walk@.session_id) is None
            &&& s is Some && s->0.status == SessionStatus::Recording && s->0.template == Some(
                template@,
            ) && s->0.transcript.len() == 0 && s->0.job_id == str_option(job_id)
            &&& w.items == v.items && w.artifacts == v.artifacts && w.usage == v.usage
            &&& forall|k: Seq<char>|
                k != walk@.session_id ==> #[trigger] w.session(k) == v.session(k)
        },
{
    if r is Err {
        assert(final(engine).work@ =~= old(engine).work@);
    }
}

/// What is said goes behind what was said, while the session records; afterwards it
/// is dropped. Nothing else changes.
pub proof fn law_walk_append<M: MemoryStore>(walk: &WalkSession, work: &mut Workspace<M>, text: &str)
    requires
        old(work).wf(),
        call_ensures(WalkSession::append_transcript::<M>, (walk, work, text), ()),
    ensures
        ({
            let id = walk@.session_id;
            let v = old(work)@.store;
            let w = final(work)@.store;
            let recording = v.session(id) is Some && v.session(id)->0.status
                == SessionStatus::Recording;
            &&& !recording ==> final(work)@ == old(work)@
            &&& recording ==> w.session(id) is Some && w.session(id)->0.transcript == v.session(
                id,
            )->0.transcript + text@
            &&& w.items == v.items && w.artifacts == v.artifacts
            &&& final(work)@.memory == old(work)@.memory
            &&& forall|k: Seq<char>| k != id ==> #[trigger] w.session(k) == v.session(k)
        }),
{
}

/// A tick of a walk changes nothing before the reply but the count of faults: one
/// more where the session is not there. It asks only while the session records and
/// enough is new.
pub proof fn law_walk_tick<M: MemoryStore>(
    walk: &mut WalkSession,
    work: &mut Workspace<M>,
    r: TickStep<M>,
)
    requires
        old(work).wf(),
        old(walk)@.extractor.max_turns > 0,
        old(walk)@.faults < u64::MAX,
        call_ensures(WalkSession::tick::<M>, (walk, work), r),
    ensures
        ({
            let x = old(walk)@.extractor;
            let session = old(work)@.store.session(x.session_id);
            &&& final(work)@ == old(work)@
            &&& final(walk)@.extractor == x
            &&& final(walk)@.template == old(walk)@.template
            &&& final(walk)@.session_id == old(walk)@.session_id
            &&& session is None ==> final(walk)@.faults == old(walk)@.faults + 1
            &&& session is Some ==> final(walk)@.faults == old(walk)@.faults
            &&& session is None || session->0.status != SessionStatus::Recording ==> (
            r matches TickStep::Done(None))
            &&& session is Some && session->0.status == SessionStatus::Recording
                && session->0.transcript.len() >= x.cursor + x.min_new_chars ==> r is Ask
            &&& x.min_new_chars > 0 && session is Some && session->0.transcript.len() < x.cursor
                + x.min_new_chars ==> (r matches TickStep::Done(None))
        }),
{
}

/// The event shows the whole board of the session, with the words and the kind of
/// every item.
pub open spec fn shows_all(
    v: StoreView,
    session_id: Seq<char>,
    event: Option<WalkEvent>,
    items: Seq<CapturedItemView>,
) -> bool {
    &&& lists_items(v, of_session(session_id), items)
    &&& event is Some
    &&& event->0@.len() == items.len()
    &&& forall|i: int|
        0 <= i < items.len() ==> (#[trigger] event->0@[i]).id == items[i].id && event->0@[i].text
            == items[i].text && event->0@[i].kind == items[i].kind
}

/// After the reply to a pass, there is news exactly when the pass is done, which is
/// when the cursor is where the pass puts it; the news is the whole board.
pub proof fn law_walk_tick_reply<M: MemoryStore>(
    walk: &mut WalkSession,
    run: LiveRun<M>,
    work: &mut Workspace<M>,
    reply: Result<CompletionResponse, HarnessError>,
    r: TickStep<M>,
)
    requires
        run.wf(),
        old(work).wf(),
        call_ensures(WalkSession::tick_reply::<M>, (walk, run, work, reply), r),
    ensures
        final(walk)@.session_id == old(walk)@.session_id,
        final(walk)@.template == old(walk)@.template,
        reply is Err ==> (r matches TickStep::Done(None)) && final(walk)@ == old(walk)@,
        r matches TickStep::Done(Some(event)) ==> exists|items: Seq<CapturedItemView>| #[trigger]
            shows_all(final(work)@.store, old(walk)@.session_id, Some(event), items),
        r is Ask ==> final(walk)@ == old(walk)@,
{
    if let TickStep::Done(Some(event)) = r {
        let items = choose|items: Seq<CapturedItemView>| #[trigger]
            lists_items(final(work)@.store, of_session(old(walk)@.session_id), items) && event@
                == Seq::new(items.len(), |i: int| board_view(items[i]));
        assert(shows_all(final(work)@.store, old(walk)@.session_id, Some(event), items));
    }
}

/// The document stands in for one that was not built: a line for every item of the
/// session's board, under the kind of the walk's template.
pub open spec fn stands_in(
    v: StoreView,
    walk: WalkView,
    queued: bool,
    d: DocumentView,
    items: Seq<CapturedItemView>,
) -> bool {
    &&& lists_items(v, of_session(walk.session_id), items)
    &&& d.queued == queued
    &&& d.doc_number == 0
    &&& d.doc_kind == "estimate"@ <==> walk.template == Some("landscape"@)
    &&& d.doc_kind == "inspection"@ <==> walk.template == Some("inspection"@)
    &&& d.lines.len() == items.len()
    &&& forall|i: int|
        0 <= i < items.len() ==> (#[trigger] d.lines[i]).id == items[i].id && d.lines[i].title
            == items[i].text && d.lines[i].is_gap && d.lines[i].amount_cents is None
}

proof fn lemma_partial_stands_in(v: StoreView, walk: WalkView, queued: bool, d: DocumentView)
    requires
        is_partial(v, walk, queued, d),
    ensures
        exists|items: Seq<CapturedItemView>| #[trigger] stands_in(v, walk, queued, d, items),
{
    let items = choose|items: Seq<CapturedItemView>| #[trigger]
        lists_items(v, of_session(walk.session_id), items) && d == partial_document(
            doc_kind_of(walk.template),
            items,
            queued,
        );
    law_template_decides_the_kind(walk.template);
    assert(stands_in(v, walk, queued, d, items));
}

/// Finishing a walk whose session is not recording changes nothing. It shows the
/// document that was built last, if it can be read, and otherwise the board; either
/// way nothing is queued.
pub proof fn law_walk_finish<M: MemoryStore>(
    walk: &mut WalkSession,
    work: &mut Workspace<M>,
    r: FinishStep<M>,
)
    requires
        old(work).wf(),
        old(work)@.store.session(old(walk)@.session_id) is Some ==> old(work)@.store.session(
            old(walk)@.session_id,
        )->0.status != SessionStatus::Recording,
        call_ensures(WalkSession::finish::<M>, (walk, work), r),
    ensures
        final(walk)@ == old(walk)@,
        final(work)@ == old(work)@,
        r is Done,
        r->event is None,
        ({
            let v = old(work)@.store;
            let latest = latest_document(v, old(walk)@.session_id);
            let readable = latest is Some && json_parse(latest->0.body) is Ok;
            &&& readable ==> r->document@ == projected(json_parse(latest->0.body)->Ok_0)
            &&& !readable ==> exists|items: Seq<CapturedItemView>| #[trigger]
                stands_in(v, old(walk)@, false, r->document@, items)
        }),
{
    let v = old(work)@.store;
    let latest = latest_document(v, old(walk)@.session_id);
    assert(final(work)@ =~= old(work)@);
    if !(latest is Some && json_parse(latest->0.body) is Ok) {
        lemma_partial_stands_in(v, old(walk)@, false, r->document@);
    }
}

/// A walk that could not be processed shows its board as a document, and is queued.
pub proof fn law_failed_finish_shows_the_board<M: MemoryStore>(
    walk: WalkView,
    e: CoreErrorView,
    v: StoreView,
    step: FinishStep<M>,
)
    requires
        finish_settled(walk, ProcessStepView::<M>::Done(Err(e)), v, step),
    ensures
        step is Done,
        step->event is None,
        exists|items: Seq<CapturedItemView>| #[trigger]
            stands_in(v, walk, true, step->document@, items),
{
    lemma_partial_stands_in(v, walk, true, step->document@);
}

/// A walk that was processed shows the whole board, and the document that the run
/// built, if it can be read.
pub proof fn law_finish_shows_what_was_built<M: MemoryStore>(
    walk: WalkView,
    outcome: ProcessOutcomeView,
    v: StoreView,
    step: FinishStep<M>,
)
    requires
        finish_settled(walk, ProcessStepView::<M>::Done(Ok(outcome)), v, step),
    ensures
        step is Done,
        exists|items: Seq<CapturedItemView>| #[trigger]
            shows_all(v, walk.session_id, step->event, items),
        ({
            let id = outcome.document_artifact_id;
            let built = id is Some && v.artifact(id->0) is Some && json_parse(
                v.artifact(id->0)->0.body,
            ) is Ok;
            &&& built ==> step->document@ == projected(
                json_parse(v.artifact(id->0)->0.body)->Ok_0,
            )
            &&& !built ==> exists|items: Seq<CapturedItemView>| #[trigger]
                stands_in(v, walk, false, step->document@, items)
        }),
{
    let id = outcome.document_artifact_id;
    let items = choose|items: Seq<CapturedItemView>| #[trigger]
        lists_items(v, of_session(walk.session_id), items) && (step->event matches Some(e) && e@
            == Seq::new(items.len(), |i: int| board_view(items[i])));
    assert(shows_all(v, walk.session_id, step->event, items));
    if !(id is Some && v.artifact(id->0) is Some && json_parse(v.artifact(id->0)->0.body) is Ok) {
        lemma_partial_stands_in(v, walk, false, step->document@);
    }
}

/// Two configurations that differ in the key alone look the same, and neither shows
/// anything in its place but that it is left out.
pub proof fn law_shown_config(a: &EngineConfig, b: &EngineConfig, ra: String, rb: String)
    requires
        call_ensures(EngineConfig::debug_text, (a,), ra),
        call_ensures(EngineConfig::debug_text, (b,), rb),
        a@.db_path == b@.db_path,
        a@.device_id == b@.device_id,
        a@.base_url == b@.base_url,
        a@.model_live == b@.model_live,
        a@.model_processing == b@.model_processing,
        a@.model_reflection == b@.model_reflection,
    ensures
        ra@ == rb@,
        exists|x: Seq<char>, y: Seq<char>|
            ra@ == #[trigger] (x + ", api_key: \"<redacted>\", base_url: "@ + y),
{
    let x = "EngineConfig { db_path: "@ + quoted(a@.db_path) + ", device_id: "@ + quoted(
        a@.device_id,
    );
    let mark = ", api_key: \"<redacted>\", base_url: "@;
    let y = ra@.skip((x + mark).len() as int);
    assert(ra@ =~= x + mark + y);
}

} // verus!
