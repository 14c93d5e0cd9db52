//! What holds of the store as a whole.

use vstd::prelude::*;
use crate::harness::llm::Usage;
use crate::notes::domain::ArtifactView;
use crate::notes::domain::CapturedItemView;
use crate::notes::domain::ItemSource;
use crate::notes::domain::SessionStatus;
use crate::notes::domain::SessionView;
use crate::notes::error::CoreErrorView;
use crate::json::JsonView;
use crate::notes::store::artifacts::artifact_added;
use crate::notes::store::artifacts::artifact_taken;
use crate::notes::store::artifacts::artifacts_swept;
use crate::notes::store::artifacts::artifacts_taken;
use crate::notes::store::artifacts::is_document;
use crate::notes::store::artifacts::is_latest_document;
use crate::notes::store::artifacts::latest_document;
use crate::notes::store::artifacts::lemma_latest_document;
use crate::notes::store::artifacts::lists_artifacts;
use crate::notes::store::artifacts::swept_artifact;
use crate::notes::store::documents::document_written;
use crate::notes::store::documents::last_number;
use crate::notes::store::documents::minted;
use crate::notes::store::items::item_added;
use crate::notes::store::items::item_added_if;
use crate::notes::store::items::items_swept;
use crate::notes::store::items::items_taken;
use crate::notes::store::items::lists_items;
use crate::notes::store::items::of_session;
use crate::notes::store::items::open_todo;
use crate::notes::store::items::swept_row;
use crate::notes::store::items::SweepView;
use crate::notes::store::ItemRowView;
use crate::notes::store::outcomes::ended_and_recorded;
use crate::notes::store::outcomes::finished_failed;
use crate::notes::store::outcomes::finished_processed;
use crate::notes::store::outcomes::outputs_cleared;
use crate::notes::store::outcomes::RUN_ITEMS;
use crate::notes::store::outcomes::session_deleted;
use crate::notes::store::outcomes::too_many_items;
use crate::notes::store::sessions::appended;
use crate::notes::store::sessions::ended;
use crate::notes::store::sessions::lists_sessions;
use crate::notes::store::sessions::moved_on;
use crate::notes::store::sessions::newer;
use crate::notes::store::sessions::started;
use crate::notes::store::sessions::started_with_template;
use crate::notes::store::sessions::templated;
use crate::notes::store::StampView;
use crate::notes::store::StoreView;
use crate::text::lemma_lex_irreflexive;
use crate::text::lemma_lex_transitive;
use crate::text::lex_lt;

verus! {

/// A processed session is final: it cannot be ended, appended to, given a
/// template, processed again or failed, and every attempt leaves the store as
/// it was.
pub proof fn law_processed_is_terminal(
    v: StoreView,
    id: Seq<char>,
    text: Seq<char>,
    usage: Usage,
    run_item_ids: Seq<Seq<char>>,
    st: StampView,
)
    requires
        v.session(id) matches Some(s) && s.status == SessionStatus::Processed,
    ensures
        ended(v, id, st.now) matches (w, Err(CoreErrorView::InvalidState(_))) && w == v,
        appended(v, id, text, st.now) matches (w, Err(CoreErrorView::InvalidState(_))) && w == v,
        templated(v, id, text, st.now) matches (w, Err(CoreErrorView::InvalidState(_))) && w == v,
        finished_processed(v, id, text, usage, run_item_ids, st) == (
            v,
            Err::<SessionView, CoreErrorView>(
                if run_item_ids.len() > RUN_ITEMS {
                    too_many_items()
                } else {
                    CoreErrorView::InvalidState("session already processed"@)
                },
            ),
        ),
        finished_failed(v, id, usage, st) matches (w, Err(CoreErrorView::InvalidState(_))) && w
            == v,
{
}

/// A session leaves recording only by being ended, and reaches `Processed` or
/// `Failed` only from waiting or from an earlier failure.
pub proof fn law_status_moves(
    v: StoreView,
    id: Seq<char>,
    to: SessionStatus,
    summary: Option<Seq<char>>,
    now: u64,
)
    ensures
        ended(v, id, now).1 is Ok <==> (v.session(id) matches Some(s) && s.status
            == SessionStatus::Recording),
        ended(v, id, now).1 is Ok ==> ended(v, id, now).0.session(id)->0.status
            == SessionStatus::AwaitingProcessing,
        moved_on(v, id, to, summary, now).1 is Ok <==> (v.session(id) matches Some(s) && (s.status
            == SessionStatus::AwaitingProcessing || s.status == SessionStatus::Failed)),
        moved_on(v, id, to, summary, now).1 is Ok ==> moved_on(
            v,
            id,
            to,
            summary,
            now,
        ).0.session(id)->0.status == to,
{
}

/// A failed session can be processed after all.
pub proof fn law_failed_can_retry(
    v: StoreView,
    id: Seq<char>,
    usage: Usage,
    st: StampView,
    summary: Seq<char>,
    now: u64,
)
    requires
        finished_failed(v, id, usage, st).1 is Ok,
    ensures
        ({
            let w = finished_failed(v, id, usage, st).0;
            moved_on(w, id, SessionStatus::Processed, Some(summary), now) matches (_, Ok(s))
                && s.status == SessionStatus::Processed && s.summary == Some(summary)
        }),
{
}

/// What is appended is what is read: the transcript grows by the chunk and by
/// nothing else, and nothing else of the store changes.
pub proof fn law_transcript_keeps_everything(
    v: StoreView,
    id: Seq<char>,
    chunk: Seq<char>,
    now: u64,
)
    requires
        appended(v, id, chunk, now).1 is Ok,
    ensures
        appended(v, id, chunk, now).0.session(id) == Some(
            SessionView {
                transcript: v.session(id)->0.transcript + chunk,
                updated_at: now,
                ..v.session(id)->0
            },
        ),
        forall|other: Seq<char>|
            other != id ==> #[trigger] appended(v, id, chunk, now).0.session(other) == v.session(
                other,
            ),
        appended(v, id, chunk, now).0.items == v.items,
        appended(v, id, chunk, now).0.artifacts == v.artifacts,
{
}

/// A session that starts with a template exists with it, or does not exist at
/// all.
pub proof fn law_template_start_is_atomic(
    v: StoreView,
    job_id: Option<Seq<char>>,
    template: Seq<char>,
    st: StampView,
)
    ensures
        match started_with_template(v, job_id, template, st) {
            (w, Ok(s)) => s.id == st.id && s.template == Some(template) && w.session(s.id) == Some(
                s,
            ),
            (w, Err(_)) => w == v,
        },
{
}

/// Deleting a session takes it and its live items and artifacts out of sight,
/// erases no row, and touches nothing else; what was deleted before keeps its
/// time of deletion.
pub proof fn law_delete_is_one_logical_delete(v: StoreView, id: Seq<char>, now: u64)
    requires
        session_deleted(v, id, now).1 is Ok,
    ensures
        ({
            let w = session_deleted(v, id, now).0;
            &&& w.session(id) is None
            &&& w.sessions.dom() =~= v.sessions.dom()
            &&& w.items.dom() =~= v.items.dom()
            &&& w.artifacts.dom() =~= v.artifacts.dom()
            &&& forall|k: Seq<char>|
                (#[trigger] w.item(k)) is Some ==> w.item(k)->0.session_id != id && v.item(k)
                    == w.item(k)
            &&& forall|k: Seq<char>|
                (#[trigger] v.item(k)) is Some && v.item(k)->0.session_id != id ==> w.item(k)
                    == v.item(k)
            &&& forall|k: Seq<char>|
                (#[trigger] w.artifact(k)) is Some ==> w.artifact(k)->0.session_id != id
                    && v.artifact(k) == w.artifact(k)
            &&& forall|k: Seq<char>|
                v.items.contains_key(k) && v.items[k].deleted_at is Some ==> #[trigger] w.items[k]
                    == v.items[k]
            &&& forall|k: Seq<char>| k != id ==> #[trigger] w.session(k) == v.session(k)
        }),
{
    let w = session_deleted(v, id, now).0;
    assert(w.sessions.dom() =~= v.sessions.dom());
    assert(w.items.dom() =~= v.items.dom());
    assert(w.artifacts.dom() =~= v.artifacts.dom());
    assert forall|k: Seq<char>| (#[trigger] w.item(k)) is Some implies w.item(k)->0.session_id != id
        && v.item(k) == w.item(k) by {
        assert(w.items[k] == swept_row(id, SweepView::All, now)(v.items[k]));
    }
    assert forall|k: Seq<char>|
        (#[trigger] v.item(k)) is Some && v.item(k)->0.session_id != id implies w.item(k) == v.item(
        k,
    ) by {
        assert(w.items[k] == swept_row(id, SweepView::All, now)(v.items[k]));
    }
    assert forall|k: Seq<char>| (#[trigger] w.artifact(k)) is Some implies w.artifact(
        k,
    )->0.session_id != id && v.artifact(k) == w.artifact(k) by {
        assert(w.artifacts[k] == swept_artifact(id, now)(v.artifacts[k]));
    }
}

/// The swap at the end of processing: afterwards the board holds exactly the
/// manual items and the items of this run, unchanged; live items and what an
/// earlier run left are gone; other sessions' items are not touched.
pub proof fn law_swap_keeps_manual_and_this_run(
    v: StoreView,
    id: Seq<char>,
    summary: Seq<char>,
    usage: Usage,
    run_item_ids: Seq<Seq<char>>,
    st: StampView,
)
    requires
        finished_processed(v, id, summary, usage, run_item_ids, st).1 is Ok,
    ensures
        ({
            let w = finished_processed(v, id, summary, usage, run_item_ids, st).0;
            &&& w.session(id)->0.status == SessionStatus::Processed
            &&& w.session(id)->0.summary == Some(summary)
            &&& w.items.dom() =~= v.items.dom()
            &&& forall|k: Seq<char>|
                #![trigger w.item(k)]
                v.item(k) is Some && (v.item(k)->0.session_id != id || v.item(k)->0.source
                    == ItemSource::Manual || run_item_ids.contains(v.item(k)->0.id)) ==> w.item(k)
                    == v.item(k)
            &&& forall|k: Seq<char>|
                #![trigger w.item(k)]
                w.item(k) is Some && w.item(k)->0.session_id == id ==> v.item(k) == w.item(k) && (
                w.item(k)->0.source == ItemSource::Manual || run_item_ids.contains(
                    w.item(k)->0.id,
                ))
        }),
{
    let w = finished_processed(v, id, summary, usage, run_item_ids, st).0;
    assert(w.items.dom() =~= v.items.dom());
    assert forall|k: Seq<char>|
        #![trigger w.item(k)]
        v.item(k) is Some && (v.item(k)->0.session_id != id || v.item(k)->0.source
            == ItemSource::Manual || run_item_ids.contains(v.item(k)->0.id)) implies w.item(k)
        == v.item(k) by {
        assert(w.items[k] == swept_row(id, SweepView::Swap(run_item_ids), st.now)(v.items[k]));
    }
    assert forall|k: Seq<char>|
        #![trigger w.item(k)]
        w.item(k) is Some && w.item(k)->0.session_id == id implies v.item(k) == w.item(k) && (
    w.item(k)->0.source == ItemSource::Manual || run_item_ids.contains(w.item(k)->0.id)) by {
        assert(w.items[k] == swept_row(id, SweepView::Swap(run_item_ids), st.now)(v.items[k]));
    }
}

/// A failed end of processing leaves the board as it is, and the cost is logged
/// all the same.
pub proof fn law_failure_keeps_the_board(v: StoreView, id: Seq<char>, usage: Usage, st: StampView)
    ensures
        finished_failed(v, id, usage, st).0.items == v.items,
        finished_failed(v, id, usage, st).0.artifacts == v.artifacts,
        finished_failed(v, id, usage, st).1 is Ok ==> finished_failed(
            v,
            id,
            usage,
            st,
        ).0.usage.len() == v.usage.len() + 1,
{
}

/// Clearing an earlier run's outputs never takes a live or manual item, takes
/// every authoritative one and every artifact of the session, and a second
/// clearing finds nothing to take.
pub proof fn law_clear_is_scoped_and_idempotent(v: StoreView, id: Seq<char>, now: u64, later: u64)
    requires
        outputs_cleared(v, id, now).1 is Ok,
    ensures
        ({
            let w = outputs_cleared(v, id, now).0;
            &&& outputs_cleared(w, id, later).0 == w
            &&& outputs_cleared(w, id, later).1 == Ok::<usize, CoreErrorView>(0)
            &&& forall|k: Seq<char>|
                #![trigger w.item(k)]
                v.item(k) is Some && (v.item(k)->0.session_id != id || v.item(k)->0.source
                    != ItemSource::Authoritative) ==> w.item(k) == v.item(k)
            &&& forall|k: Seq<char>|
                #![trigger w.item(k)]
                w.item(k) is Some && w.item(k)->0.session_id == id ==> v.item(k) == w.item(k)
                    && w.item(k)->0.source != ItemSource::Authoritative
            &&& forall|k: Seq<char>|
                #![trigger w.artifact(k)]
                w.artifact(k) is Some ==> w.artifact(k)->0.session_id != id && v.artifact(k)
                    == w.artifact(k)
        }),
{
    let w = outputs_cleared(v, id, now).0;
    let which = SweepView::Authoritative;
    assert forall|k: Seq<char>| v.items.contains_key(k) implies #[trigger] w.items[k] == swept_row(
        id,
        which,
        now,
    )(v.items[k]) by {}
    assert forall|k: Seq<char>| v.artifacts.contains_key(k) implies #[trigger] w.artifacts[k]
        == swept_artifact(id, now)(v.artifacts[k]) by {}
    assert(items_swept(w.items, id, which, later) =~= w.items);
    assert(artifacts_swept(w.artifacts, id, later) =~= w.artifacts);
    let p = |row: ItemRowView| which.takes(id, row);
    let q = artifact_taken(id);
    assert(w.items.dom().filter(|k: Seq<char>| p(w.items[k])) =~= Set::<Seq<char>>::empty());
    assert(w.artifacts.dom().filter(|k: Seq<char>| q(w.artifacts[k])) =~= Set::<
        Seq<char>,
    >::empty());
    assert(items_taken(w.items, id, which) == 0);
    assert(artifacts_taken(w.artifacts, id) == 0);
    assert(outputs_cleared(w, id, later).0 =~= w);
}

/// Document numbers of a kind count one by one, and kinds do not disturb each
/// other.
pub proof fn law_numbers_are_consecutive_per_kind(
    v: StoreView,
    doc_kind: Seq<char>,
    other: Seq<char>,
)
    requires
        minted(v, doc_kind).1 is Ok,
    ensures
        minted(v, doc_kind).1 == Ok::<u64, CoreErrorView>((last_number(v, doc_kind) + 1) as u64),
        last_number(minted(v, doc_kind).0, doc_kind) == last_number(v, doc_kind) + 1,
        other != doc_kind ==> last_number(minted(v, doc_kind).0, other) == last_number(v, other),
{
}

/// A number is consumed exactly when the document lands: a failed write leaves
/// every sequence as it was, a written one without a given number consumes one
/// number of its own kind, and a reused number consumes none.
pub proof fn law_number_consumed_iff_document_lands(
    v: StoreView,
    session_id: Seq<char>,
    doc_kind: Seq<char>,
    existing: Option<u64>,
    payload: JsonView,
    st: StampView,
)
    ensures
        match document_written(v, session_id, doc_kind, existing, payload, st) {
            (w, Err(_)) => w == v,
            (w, Ok(a)) => {
                &&& w.artifact(a.id) == Some(a)
                &&& a.kind == "document"@
                &&& existing is Some ==> w.sequences == v.sequences
                &&& existing is None ==> last_number(w, doc_kind) == last_number(v, doc_kind) + 1
                &&& forall|other: Seq<char>|
                    other != doc_kind ==> #[trigger] last_number(w, other) == last_number(v, other)
            },
        },
{
}

/// After an earlier run's outputs are cleared, the document that is written
/// next is the session's latest document.
pub proof fn law_written_document_is_the_latest(
    v: StoreView,
    w: StoreView,
    session_id: Seq<char>,
    doc_kind: Seq<char>,
    existing: Option<u64>,
    payload: JsonView,
    now: u64,
    st: StampView,
)
    requires
        outputs_cleared(v, session_id, now).1 is Ok,
        w.artifacts == outputs_cleared(v, session_id, now).0.artifacts,
        document_written(w, session_id, doc_kind, existing, payload, st).1 is Ok,
    ensures
        latest_document(
            document_written(w, session_id, doc_kind, existing, payload, st).0,
            session_id,
        ) == Some(document_written(w, session_id, doc_kind, existing, payload, st).1->Ok_0),
{
    law_clear_is_scoped_and_idempotent(v, session_id, now, now);
    let c = outputs_cleared(v, session_id, now).0;
    let x = document_written(w, session_id, doc_kind, existing, payload, st).0;
    let a = document_written(w, session_id, doc_kind, existing, payload, st).1->Ok_0;
    assert forall|b: ArtifactView| #[trigger] is_document(x, session_id, b) implies !lex_lt(
        a.id,
        b.id,
    ) by {
        lemma_lex_irreflexive(a.id);
        if b.id != a.id {
            assert(x.artifact(b.id) == c.artifact(b.id));
        }
    }
    assert(is_latest_document(x, session_id, a));
    lemma_latest_document(x, session_id, a);
}

/// An item that was added can be read back, and only it is new.
pub proof fn law_added_item_is_read_back(
    v: StoreView,
    session_id: Seq<char>,
    kind: Seq<char>,
    text: Seq<char>,
    source: ItemSource,
    st: StampView,
)
    ensures
        match item_added(v, session_id, kind, text, source, st) {
            (w, Ok(item)) => {
                &&& w.item(item.id) == Some(item)
                &&& item.session_id == session_id && item.kind == kind && item.text == text
                    && item.source == source && !item.done
                &&& forall|k: Seq<char>| k != item.id ==> #[trigger] w.item(k) == v.item(k)
            },
            (w, Err(_)) => w == v,
        },
{
}

/// A session that is no longer in the required status gets no late item.
pub proof fn law_gated_add_never_writes_late(
    v: StoreView,
    session_id: Seq<char>,
    kind: Seq<char>,
    text: Seq<char>,
    required: SessionStatus,
    source: ItemSource,
    st: StampView,
)
    requires
        v.session(session_id) matches Some(s) && s.status != required,
    ensures
        item_added_if(v, session_id, kind, text, required, source, st) == (
            v,
            Ok::<Option<CapturedItemView>, CoreErrorView>(None),
        ),
{
}

/// An operation that fails leaves the store as it was.
pub proof fn law_failure_changes_nothing(
    v: StoreView,
    id: Seq<char>,
    text: Seq<char>,
    usage: Usage,
    ids: Seq<Seq<char>>,
    job_id: Option<Seq<char>>,
    st: StampView,
)
    ensures
        started(v, job_id, st).1 is Err ==> started(v, job_id, st).0 == v,
        appended(v, id, text, st.now).1 is Err ==> appended(v, id, text, st.now).0 == v,
        templated(v, id, text, st.now).1 is Err ==> templated(v, id, text, st.now).0 == v,
        ended_and_recorded(v, id, st.now).1 is Err ==> ended_and_recorded(v, id, st.now).0 == v,
        finished_processed(v, id, text, usage, ids, st).1 is Err ==> finished_processed(
            v,
            id,
            text,
            usage,
            ids,
            st,
        ).0 == v,
        finished_failed(v, id, usage, st).1 is Err ==> finished_failed(v, id, usage, st).0 == v,
        session_deleted(v, id, st.now).1 is Err ==> session_deleted(v, id, st.now).0 == v,
        outputs_cleared(v, id, st.now).1 is Err ==> outputs_cleared(v, id, st.now).0 == v,
        artifact_added(v, id, text, text, text, st).1 is Err ==> artifact_added(
            v,
            id,
            text,
            text,
            text,
            st,
        ).0 == v,
{
}

/// Open todos come from every source: an open todo of a live pass is listed
/// like any other.
pub proof fn law_open_todos_ignore_the_source(
    v: StoreView,
    id: Seq<char>,
    out: Seq<CapturedItemView>,
)
    requires
        lists_items(v, open_todo(), out),
        v.item(id) matches Some(item) && item.kind == "todo"@ && !item.done,
    ensures
        out.contains(v.item(id)->0),
{
    let i = choose|i: int| 0 <= i < out.len() && #[trigger] out[i] == v.item(id)->0;
    assert(out[i] == v.item(id)->0);
}

/// Two strictly ordered lists with the same elements are the same list.
proof fn lemma_same_elements_same_list<A>(a: Seq<A>, b: Seq<A>, lt: spec_fn(A, A) -> bool)
    requires
        forall|x: A| !(#[trigger] lt(x, x)),
        forall|x: A, y: A, z: A| #[trigger] lt(x, y) && #[trigger] lt(y, z) ==> lt(x, z),
        forall|i: int, j: int| 0 <= i < j < a.len() ==> lt(#[trigger] a[i], #[trigger] a[j]),
        forall|i: int, j: int| 0 <= i < j < b.len() ==> lt(#[trigger] b[i], #[trigger] b[j]),
        forall|i: int| 0 <= i < a.len() ==> b.contains(#[trigger] a[i]),
        forall|i: int| 0 <= i < b.len() ==> a.contains(#[trigger] b[i]),
    ensures
        a == b,
    decreases a.len(),
{
    if a.len() == 0 {
        if b.len() > 0 {
            assert(a.contains(b[0]));
        }
        assert(a =~= b);
    } else {
        assert(b.contains(a[0]));
        let j = b.index_of(a[0]);
        assert(a.contains(b[0]));
        let i = a.index_of(b[0]);
        assert(a[0] == b[0]) by {
            if i > 0 && j > 0 {
                assert(lt(a[0], a[i]));
                assert(lt(b[0], b[j]));
                assert(lt(a[0], a[0]));
            }
        }
        let x = a.drop_first();
        let y = b.drop_first();
        assert forall|p: int| 0 <= p < x.len() implies y.contains(#[trigger] x[p]) by {
            assert(b.contains(a[p + 1]));
            let q = b.index_of(a[p + 1]);
            assert(lt(a[0], a[p + 1]));
            assert(q > 0);
            assert(y[q - 1] == x[p]);
        }
        assert forall|p: int| 0 <= p < y.len() implies x.contains(#[trigger] y[p]) by {
            assert(a.contains(b[p + 1]));
            let q = a.index_of(b[p + 1]);
            assert(lt(b[0], b[p + 1]));
            assert(q > 0);
            assert(x[q - 1] == y[p]);
        }
        assert forall|p: int, q: int| 0 <= p < q < x.len() implies lt(
            #[trigger] x[p],
            #[trigger] x[q],
        ) by {
            assert(lt(a[p + 1], a[q + 1]));
        }
        assert forall|p: int, q: int| 0 <= p < q < y.len() implies lt(
            #[trigger] y[p],
            #[trigger] y[q],
        ) by {
            assert(lt(b[p + 1], b[q + 1]));
        }
        lemma_same_elements_same_list(x, y, lt);
        assert(a =~= seq![a[0]] + x);
        assert(b =~= seq![b[0]] + y);
    }
}

/// A store lists items in one way only.
pub proof fn law_item_list_is_determined(
    v: StoreView,
    keep: spec_fn(CapturedItemView) -> bool,
    a: Seq<CapturedItemView>,
    b: Seq<CapturedItemView>,
)
    requires
        lists_items(v, keep, a),
        lists_items(v, keep, b),
    ensures
        a == b,
{
    let lt = |x: CapturedItemView, y: CapturedItemView| lex_lt(x.id, y.id);
    assert forall|x: CapturedItemView| !(#[trigger] lt(x, x)) by {
        lemma_lex_irreflexive(x.id);
    }
    assert forall|x: CapturedItemView, y: CapturedItemView, z: CapturedItemView| #[trigger]
        lt(x, y) && #[trigger] lt(y, z) implies lt(x, z) by {
        lemma_lex_transitive(x.id, y.id, z.id);
    }
    assert forall|i: int| 0 <= i < a.len() implies b.contains(#[trigger] a[i]) by {
        assert(v.item(a[i].id) == Some(a[i]));
        let j = choose|j: int| 0 <= j < b.len() && #[trigger] b[j] == v.item(a[i].id)->0;
        assert(b[j] == a[i]);
    }
    assert forall|i: int| 0 <= i < b.len() implies a.contains(#[trigger] b[i]) by {
        assert(v.item(b[i].id) == Some(b[i]));
        let j = choose|j: int| 0 <= j < a.len() && #[trigger] a[j] == v.item(b[i].id)->0;
        assert(a[j] == b[i]);
    }
    lemma_same_elements_same_list(a, b, lt);
}

/// Items are listed as they came: an item whose id sorts behind those of the
/// session's list is appended to it, and the list does not change otherwise.
pub proof fn law_added_item_comes_last(
    v: StoreView,
    session_id: Seq<char>,
    kind: Seq<char>,
    text: Seq<char>,
    source: ItemSource,
    st: StampView,
    before: Seq<CapturedItemView>,
    after: Seq<CapturedItemView>,
)
    requires
        item_added(v, session_id, kind, text, source, st).1 is Ok,
        lists_items(v, of_session(session_id), before),
        lists_items(
            item_added(v, session_id, kind, text, source, st).0,
            of_session(session_id),
            after,
        ),
        forall|i: int| 0 <= i < before.len() ==> lex_lt((#[trigger] before[i]).id, st.id),
    ensures
        after == before.push(item_added(v, session_id, kind, text, source, st).1->Ok_0),
{
    let (w, added) = item_added(v, session_id, kind, text, source, st);
    let item = added->Ok_0;
    let keep = of_session(session_id);
    let all = before.push(item);
    assert(w.item(st.id) == Some(item));
    assert(v.item(st.id) is None);
    assert forall|i: int| 0 <= i < all.len() implies w.item((#[trigger] all[i]).id) == Some(all[i])
        && keep(all[i]) by {
        if i < before.len() {
            assert(all[i] == before[i]);
            assert(v.item(before[i].id) == Some(before[i]));
        }
    }
    assert forall|i: int, j: int| 0 <= i < j < all.len() implies lex_lt(
        (#[trigger] all[i]).id,
        (#[trigger] all[j]).id,
    ) by {
        assert(all[i] == before[i]);
        if j < before.len() {
            assert(all[j] == before[j]);
        }
    }
    assert forall|id: Seq<char>|
        (#[trigger] w.item(id)) is Some && keep(w.item(id)->0) implies exists|i: int|
        0 <= i < all.len() && #[trigger] all[i] == w.item(id)->0 by {
        if id == st.id {
            assert(all[before.len() as int] == item);
        } else {
            assert(v.item(id) == w.item(id));
            let i = choose|i: int| 0 <= i < before.len() && #[trigger] before[i] == v.item(id)->0;
            assert(all[i] == before[i]);
        }
    }
    assert(lists_items(w, keep, all));
    law_item_list_is_determined(w, keep, after, all);
}

/// A store lists sessions in one way only.
pub proof fn law_session_list_is_determined(
    v: StoreView,
    keep: spec_fn(SessionView) -> bool,
    a: Seq<SessionView>,
    b: Seq<SessionView>,
)
    requires
        lists_sessions(v, keep, a),
        lists_sessions(v, keep, b),
    ensures
        a == b,
{
    let lt = |x: SessionView, y: SessionView| newer(x, y);
    assert forall|x: SessionView| !(#[trigger] lt(x, x)) by {
        lemma_lex_irreflexive(x.id);
    }
    assert forall|x: SessionView, y: SessionView, z: SessionView| #[trigger]
        lt(x, y) && #[trigger] lt(y, z) implies lt(x, z) by {
        if lex_lt(y.id, x.id) && lex_lt(z.id, y.id) {
            lemma_lex_transitive(z.id, y.id, x.id);
        }
    }
    assert forall|i: int| 0 <= i < a.len() implies b.contains(#[trigger] a[i]) by {
        assert(v.session(a[i].id) == Some(a[i]));
        let j = choose|j: int| 0 <= j < b.len() && #[trigger] b[j] == v.session(a[i].id)->0;
        assert(b[j] == a[i]);
    }
    assert forall|i: int| 0 <= i < b.len() implies a.contains(#[trigger] b[i]) by {
        assert(v.session(b[i].id) == Some(b[i]));
        let j = choose|j: int| 0 <= j < a.len() && #[trigger] a[j] == v.session(b[i].id)->0;
        assert(a[j] == b[i]);
    }
    lemma_same_elements_same_list(a, b, lt);
}

/// What is kept of an ordered list is in order, and nothing that is to be kept
/// is lost.
proof fn lemma_kept_sessions(all: Seq<SessionView>, keep: spec_fn(SessionView) -> bool)
    requires
        forall|i: int, j: int|
            0 <= i < j < all.len() ==> newer(#[trigger] all[i], #[trigger] all[j]),
    ensures
        forall|i: int, j: int|
            0 <= i < j < all.filter(keep).len() ==> newer(
                #[trigger] all.filter(keep)[i],
                #[trigger] all.filter(keep)[j],
            ),
        forall|x: SessionView| #[trigger]
            all.filter(keep).contains(x) <==> all.contains(x) && keep(x),
    decreases all.len(),
{
    reveal(Seq::filter);
    if all.len() > 0 {
        let front = all.drop_last();
        let kept = all.filter(keep);
        lemma_kept_sessions(front, keep);
        assert forall|x: SessionView| #[trigger] kept.contains(x) implies all.contains(x) && keep(
            x,
        ) by {
            let i = choose|i: int| 0 <= i < kept.len() && kept[i] == x;
            if i < front.filter(keep).len() {
                assert(front.filter(keep)[i] == x);
                assert(front.filter(keep).contains(x));
                let k = choose|k: int| 0 <= k < front.len() && front[k] == x;
                assert(all[k] == x);
            } else {
                assert(all[all.len() - 1] == x);
            }
        }
        assert forall|x: SessionView| all.contains(x) && keep(x) implies #[trigger] kept.contains(
            x,
        ) by {
            let k = choose|k: int| 0 <= k < all.len() && all[k] == x;
            if k < front.len() {
                assert(front[k] == x);
                assert(front.filter(keep).contains(x));
                let i = choose|i: int|
                    0 <= i < front.filter(keep).len() && front.filter(keep)[i] == x;
                assert(kept[i] == x);
            } else {
                assert(kept[kept.len() - 1] == x);
            }
        }
        assert forall|i: int, j: int| 0 <= i < j < kept.len() implies newer(
            #[trigger] kept[i],
            #[trigger] kept[j],
        ) by {
            assert(front.filter(keep)[i] == kept[i]);
            if j < front.filter(keep).len() {
                assert(front.filter(keep)[j] == kept[j]);
            } else {
                assert(front.filter(keep).contains(kept[i]));
                let k = choose|k: int| 0 <= k < front.len() && front[k] == kept[i];
                assert(all[k] == kept[i]);
                assert(all[all.len() - 1] == kept[j]);
            }
        }
    }
}

/// A list under a condition is the whole list without the sessions that do not
/// satisfy it, in the same order. So listing by status picks from the list of
/// all sessions those in that status.
pub proof fn law_session_list_is_part_of_the_whole(
    v: StoreView,
    keep: spec_fn(SessionView) -> bool,
    all: Seq<SessionView>,
    listed: Seq<SessionView>,
)
    requires
        lists_sessions(v, |s: SessionView| true, all),
        lists_sessions(v, keep, listed),
    ensures
        listed == all.filter(keep),
{
    let kept = all.filter(keep);
    lemma_kept_sessions(all, keep);
    assert forall|i: int| 0 <= i < kept.len() implies v.session((#[trigger] kept[i]).id) == Some(
        kept[i],
    ) && keep(kept[i]) by {
        assert(kept.contains(kept[i]));
        let k = choose|k: int| 0 <= k < all.len() && all[k] == kept[i];
        assert(v.session(all[k].id) == Some(all[k]));
    }
    assert forall|id: Seq<char>|
        (#[trigger] v.session(id)) is Some && keep(v.session(id)->0) implies exists|i: int|
        0 <= i < kept.len() && #[trigger] kept[i] == v.session(id)->0 by {
        let x = v.session(id)->0;
        let k = choose|k: int| 0 <= k < all.len() && #[trigger] all[k] == x;
        assert(all[k] == x);
        assert(kept.contains(x));
        let i = choose|i: int| 0 <= i < kept.len() && kept[i] == x;
        assert(kept[i] == x);
    }
    assert(lists_sessions(v, keep, kept));
    law_session_list_is_determined(v, keep, listed, kept);
}

/// The sessions in one status.
pub open spec fn in_status(status: SessionStatus) -> spec_fn(SessionView) -> bool {
    |s: SessionView| s.status == status
}

proof fn lemma_statuses_count(all: Seq<SessionView>)
    ensures
        all.filter(in_status(SessionStatus::Recording)).len() + all.filter(
            in_status(SessionStatus::AwaitingProcessing),
        ).len() + all.filter(in_status(SessionStatus::Processed)).len() + all.filter(
            in_status(SessionStatus::Failed),
        ).len() == all.len(),
    decreases all.len(),
{
    reveal(Seq::filter);
    if all.len() > 0 {
        lemma_statuses_count(all.drop_last());
    }
}

/// The four statuses divide the list of all sessions: every session is listed
/// under its own status and under no other, and the four lists together are as
/// long as the whole.
pub proof fn law_statuses_divide_the_sessions(
    v: StoreView,
    all: Seq<SessionView>,
    recording: Seq<SessionView>,
    awaiting: Seq<SessionView>,
    processed: Seq<SessionView>,
    failed: Seq<SessionView>,
)
    requires
        lists_sessions(v, |s: SessionView| true, all),
        lists_sessions(v, |s: SessionView| s.status == SessionStatus::Recording, recording),
        lists_sessions(v, |s: SessionView| s.status == SessionStatus::AwaitingProcessing, awaiting),
        lists_sessions(v, |s: SessionView| s.status == SessionStatus::Processed, processed),
        lists_sessions(v, |s: SessionView| s.status == SessionStatus::Failed, failed),
    ensures
        recording.len() + awaiting.len() + processed.len() + failed.len() == all.len(),
        forall|s: SessionView| #[trigger]
            all.contains(s) ==> {
                &&& recording.contains(s) <==> s.status == SessionStatus::Recording
                &&& awaiting.contains(s) <==> s.status == SessionStatus::AwaitingProcessing
                &&& processed.contains(s) <==> s.status == SessionStatus::Processed
                &&& failed.contains(s) <==> s.status == SessionStatus::Failed
            },
        forall|s: SessionView|
            #![trigger all.contains(s)]
            recording.contains(s) || awaiting.contains(s) || processed.contains(s)
                || failed.contains(s) ==> all.contains(s),
{
    let r = in_status(SessionStatus::Recording);
    let a = in_status(SessionStatus::AwaitingProcessing);
    let p = in_status(SessionStatus::Processed);
    let f = in_status(SessionStatus::Failed);
    assert(r =~= (|s: SessionView| s.status == SessionStatus::Recording));
    assert(a =~= (|s: SessionView| s.status == SessionStatus::AwaitingProcessing));
    assert(p =~= (|s: SessionView| s.status == SessionStatus::Processed));
    assert(f =~= (|s: SessionView| s.status == SessionStatus::Failed));
    law_session_list_is_part_of_the_whole(v, r, all, recording);
    law_session_list_is_part_of_the_whole(v, a, all, awaiting);
    law_session_list_is_part_of_the_whole(v, p, all, processed);
    law_session_list_is_part_of_the_whole(v, f, all, failed);
    lemma_kept_sessions(all, r);
    lemma_kept_sessions(all, a);
    lemma_kept_sessions(all, p);
    lemma_kept_sessions(all, f);
    lemma_statuses_count(all);
}

/// A store lists a session's artifacts in one way only.
pub proof fn law_artifact_list_is_determined(
    v: StoreView,
    session_id: Seq<char>,
    a: Seq<ArtifactView>,
    b: Seq<ArtifactView>,
)
    requires
        lists_artifacts(v, session_id, a),
        lists_artifacts(v, session_id, b),
    ensures
        a == b,
{
    let lt = |x: ArtifactView, y: ArtifactView| lex_lt(x.id, y.id);
    assert forall|x: ArtifactView| !(#[trigger] lt(x, x)) by {
        lemma_lex_irreflexive(x.id);
    }
    assert forall|x: ArtifactView, y: ArtifactView, z: ArtifactView| #[trigger]
        lt(x, y) && #[trigger] lt(y, z) implies lt(x, z) by {
        lemma_lex_transitive(x.id, y.id, z.id);
    }
    assert forall|i: int| 0 <= i < a.len() implies b.contains(#[trigger] a[i]) by {
        assert(v.artifact(a[i].id) == Some(a[i]));
        let j = choose|j: int| 0 <= j < b.len() && #[trigger] b[j] == v.artifact(a[i].id)->0;
        assert(b[j] == a[i]);
    }
    assert forall|i: int| 0 <= i < b.len() implies a.contains(#[trigger] b[i]) by {
        assert(v.artifact(b[i].id) == Some(b[i]));
        let j = choose|j: int| 0 <= j < a.len() && #[trigger] a[j] == v.artifact(b[i].id)->0;
        assert(a[j] == b[i]);
    }
    lemma_same_elements_same_list(a, b, lt);
}

} // verus!
