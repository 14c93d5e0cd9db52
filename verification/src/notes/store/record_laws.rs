//! What every operation on the records does, said of the operations themselves:
//! when it is refused, what it writes, and what it leaves alone.

use vstd::prelude::*;
use crate::clock::Clock;
use crate::harness::llm::Usage;
use crate::notes::domain::Artifact;
use crate::notes::domain::ArtifactView;
use crate::notes::domain::CapturedItem;
use crate::notes::domain::Contact;
use crate::notes::domain::ContactView;
use crate::notes::domain::ItemSource;
use crate::notes::domain::Job;
use crate::notes::domain::JobStatus;
use crate::notes::domain::LlmUsageRow;
use crate::notes::domain::LlmUsageRowView;
use crate::notes::domain::NewJob;
use crate::notes::domain::Session;
use crate::notes::domain::SessionStatus;
use crate::notes::domain::SessionView;
use crate::notes::error::CoreError;
use crate::notes::error::CoreErrorView;
use crate::notes::store::artifacts::is_document;
use crate::notes::store::artifacts::is_latest_document;
use crate::notes::store::contacts::contact_of;
use crate::notes::store::contacts::contact_saved;
use crate::notes::store::contacts::is_named;
use crate::notes::store::reflection::activity_text;
use crate::notes::store::reflection::is_activity;
use crate::notes::store::sessions::lists_sessions;
use crate::notes::store::sessions::str_option;
use crate::notes::store::StampView;
use crate::notes::store::Store;
use crate::notes::store::StoreView;
use crate::notes::store::usage::input_total;
use crate::notes::store::usage::output_total;
use crate::notes::store::usage::usage_of;
use crate::ratio::Ratio;
use crate::text::blank;
use crate::text::lex_lt;
use crate::views::option_view;
use crate::views::result_view;
use crate::views::seq_views;

verus! {

/// Nothing but the sessions differs.
pub open spec fn all_but_sessions(v: StoreView, w: StoreView) -> bool {
    w == (StoreView { sessions: w.sessions, ..v })
}

/// Nothing but the items differs.
pub open spec fn all_but_items(v: StoreView, w: StoreView) -> bool {
    w == (StoreView { items: w.items, ..v })
}

/// Nothing but the artifacts differs.
pub open spec fn all_but_artifacts(v: StoreView, w: StoreView) -> bool {
    w == (StoreView { artifacts: w.artifacts, ..v })
}

/// The session with this id is the only one that may differ.
pub open spec fn one_session(v: StoreView, w: StoreView, id: Seq<char>) -> bool {
    &&& all_but_sessions(v, w)
    &&& forall|k: Seq<char>| k != id ==> #[trigger] w.session(k) == v.session(k)
}

/// The item with this id is the only one that may differ.
pub open spec fn one_item(v: StoreView, w: StoreView, id: Seq<char>) -> bool {
    &&& all_but_items(v, w)
    &&& forall|k: Seq<char>| k != id ==> #[trigger] w.item(k) == v.item(k)
}

/// The artifact with this id is the only one that may differ.
pub open spec fn one_artifact(v: StoreView, w: StoreView, id: Seq<char>) -> bool {
    &&& all_but_artifacts(v, w)
    &&& forall|k: Seq<char>| k != id ==> #[trigger] w.artifact(k) == v.artifact(k)
}

/// There is such a session, in this status.
pub open spec fn has_status(v: StoreView, id: Seq<char>, status: SessionStatus) -> bool {
    v.session(id) is Some && v.session(id)->0.status == status
}

/// The refusal that no live row has the id.
pub open spec fn missing<T>(r: Result<T, CoreError>, entity: Seq<char>, id: Seq<char>) -> bool {
    r matches Err(e) && e@ == (CoreErrorView::NotFound { entity, id })
}

/// A session starts recording, with nothing said yet, for the job that is named.
/// It is refused for a job that does not exist, and otherwise only when its id is
/// taken.
pub proof fn law_start_session(store: &mut Store, job_id: Option<&str>, r: Result<Session, CoreError>)
    requires
        call_ensures(Store::start_session, (store, job_id), r),
    ensures
        job_id is Some && old(store)@.job(job_id->0@) is None ==> missing(r, "job"@, job_id->0@),
        r is Err ==> final(store)@ == old(store)@,
        r is Err && (job_id is None || old(store)@.job(job_id->0@) is Some) ==> r->Err_0@
            is Storage,
        r matches Ok(s) ==> {
            &&& final(store)@.session(s@.id) == Some(s@)
            &&& old(store)@.session(s@.id) is None
            &&& one_session(old(store)@, final(store)@, s@.id)
            &&& s@.status == SessionStatus::Recording
            &&& s@.transcript.len() == 0
            &&& s@.summary is None
            &&& s@.template is None
            &&& s@.ended_at is None
            &&& s@.job_id == str_option(job_id)
            &&& old(store)@.clock.shows(s@.started_at)
            &&& s@.created_at == s@.started_at && s@.updated_at == s@.started_at
            &&& s@.device_id == old(store)@.device_id
        },
{
}

/// A session that starts with a template has it, and is otherwise as any other.
pub proof fn law_start_session_with_template(
    store: &mut Store,
    job_id: Option<&str>,
    template: &str,
    r: Result<Session, CoreError>,
)
    requires
        call_ensures(Store::start_session_with_template, (store, job_id, template), r),
    ensures
        job_id is Some && old(store)@.job(job_id->0@) is None ==> missing(r, "job"@, job_id->0@),
        r is Err ==> final(store)@ == old(store)@,
        r matches Ok(s) ==> {
            &&& s@.template == Some(template@)
            &&& s@.status == SessionStatus::Recording
            &&& s@.transcript.len() == 0 && s@.summary is None && s@.ended_at is None
            &&& s@.job_id == str_option(job_id)
            &&& old(store)@.clock.shows(s@.started_at)
            &&& old(store)@.session(s@.id) is None
            &&& final(store)@.session(s@.id) == Some(s@)
            &&& one_session(old(store)@, final(store)@, s@.id)
        },
{
}

/// What is said is added at the end of the transcript of a recording session, and
/// to no other.
pub proof fn law_append_transcript(
    store: &mut Store,
    id: &str,
    chunk: &str,
    r: Result<(), CoreError>,
)
    requires
        call_ensures(Store::append_transcript, (store, id, chunk), r),
    ensures
        r is Ok <==> has_status(old(store)@, id@, SessionStatus::Recording),
        r is Err ==> final(store)@ == old(store)@,
        old(store)@.session(id@) is None ==> missing(r, "session"@, id@),
        old(store)@.session(id@) is Some && r is Err ==> r->Err_0@ is InvalidState,
        r is Ok ==> one_session(old(store)@, final(store)@, id@),
        r is Ok ==> final(store)@.session(id@) == Some(
            SessionView {
                transcript: old(store)@.session(id@)->0.transcript + chunk@,
                updated_at: final(store)@.session(id@)->0.updated_at,
                ..old(store)@.session(id@)->0
            },
        ),
{
}

/// The template of a recording session can be set, and of no other.
pub proof fn law_set_session_template(
    store: &mut Store,
    id: &str,
    template: &str,
    r: Result<(), CoreError>,
)
    requires
        call_ensures(Store::set_session_template, (store, id, template), r),
    ensures
        r is Ok <==> has_status(old(store)@, id@, SessionStatus::Recording),
        r is Err ==> final(store)@ == old(store)@,
        old(store)@.session(id@) is None ==> missing(r, "session"@, id@),
        r is Ok ==> one_session(old(store)@, final(store)@, id@),
        r is Ok ==> final(store)@.session(id@) == Some(
            SessionView {
                template: Some(template@),
                updated_at: final(store)@.session(id@)->0.updated_at,
                ..old(store)@.session(id@)->0
            },
        ),
{
}

/// A session that ends waits for processing and keeps everything that was said.
/// Only a recording session can end.
pub proof fn law_end_session(store: &mut Store, id: &str, r: Result<Session, CoreError>)
    requires
        call_ensures(Store::end_session, (store, id), r),
    ensures
        r is Ok <==> has_status(old(store)@, id@, SessionStatus::Recording),
        r is Err ==> final(store)@ == old(store)@,
        old(store)@.session(id@) is None ==> missing(r, "session"@, id@),
        old(store)@.session(id@) is Some && r is Err ==> r->Err_0@ is InvalidState,
        r matches Ok(t) ==> {
            &&& one_session(old(store)@, final(store)@, id@)
            &&& final(store)@.session(id@) == Some(t@)
            &&& t@.ended_at is Some && old(store)@.clock.shows(t@.ended_at->0)
            &&& t@ == (SessionView {
                status: SessionStatus::AwaitingProcessing,
                ended_at: t@.ended_at,
                updated_at: t@.updated_at,
                ..old(store)@.session(id@)->0
            })
        },
{
}

/// Ending a session and counting it are one: the session waits, and the cadence
/// knows of one session more.
pub proof fn law_end_and_record_session(store: &mut Store, id: &str, r: Result<Session, CoreError>)
    requires
        call_ensures(Store::end_and_record_session, (store, id), r),
    ensures
        r is Ok <==> has_status(old(store)@, id@, SessionStatus::Recording),
        r is Err ==> final(store)@ == old(store)@,
        r matches Ok(t) ==> {
            &&& final(store)@.session(id@) == Some(t@)
            &&& t@.status == SessionStatus::AwaitingProcessing
            &&& t@.transcript == old(store)@.session(id@)->0.transcript
            &&& old(store)@.signals.sessions < u32::MAX ==> final(store)@.signals.sessions
                == old(store)@.signals.sessions + 1
            &&& old(store)@.signals.sessions == u32::MAX ==> final(store)@.signals.sessions
                == u32::MAX
            &&& final(store)@.signals.corrections == old(store)@.signals.corrections
            &&& final(store)@.signals.completed == old(store)@.signals.completed
            &&& final(store)@.signals.churn == old(store)@.signals.churn
            &&& final(store)@.items == old(store)@.items
            &&& final(store)@.artifacts == old(store)@.artifacts
            &&& final(store)@.usage == old(store)@.usage
            &&& forall|k: Seq<char>|
                k != id@ ==> #[trigger] final(store)@.session(k) == old(store)@.session(k)
        },
{
}

/// A session can be marked as processed while it waits or after a failure, and
/// then has the summary. Everything else of it stays.
pub proof fn law_mark_session_processed(
    store: &mut Store,
    id: &str,
    summary: &str,
    r: Result<Session, CoreError>,
)
    requires
        call_ensures(Store::mark_session_processed, (store, id, summary), r),
    ensures
        r is Ok <==> has_status(old(store)@, id@, SessionStatus::AwaitingProcessing) || has_status(
            old(store)@,
            id@,
            SessionStatus::Failed,
        ),
        r is Err ==> final(store)@ == old(store)@,
        old(store)@.session(id@) is None ==> missing(r, "session"@, id@),
        old(store)@.session(id@) is Some && r is Err ==> r->Err_0@ is InvalidState,
        r matches Ok(t) ==> {
            &&& one_session(old(store)@, final(store)@, id@)
            &&& final(store)@.session(id@) == Some(t@)
            &&& t@ == (SessionView {
                status: SessionStatus::Processed,
                summary: Some(summary@),
                updated_at: t@.updated_at,
                ..old(store)@.session(id@)->0
            })
        },
{
}

/// A session can be marked as failed while it waits or after a failure. Everything
/// else of it stays, an earlier summary too.
pub proof fn law_mark_session_failed(store: &mut Store, id: &str, r: Result<Session, CoreError>)
    requires
        call_ensures(Store::mark_session_failed, (store, id), r),
    ensures
        r is Ok <==> has_status(old(store)@, id@, SessionStatus::AwaitingProcessing) || has_status(
            old(store)@,
            id@,
            SessionStatus::Failed,
        ),
        r is Err ==> final(store)@ == old(store)@,
        old(store)@.session(id@) is None ==> missing(r, "session"@, id@),
        r matches Ok(t) ==> {
            &&& one_session(old(store)@, final(store)@, id@)
            &&& final(store)@.session(id@) == Some(t@)
            &&& t@ == (SessionView {
                status: SessionStatus::Failed,
                updated_at: t@.updated_at,
                ..old(store)@.session(id@)->0
            })
        },
{
}

/// A deleted session is gone, with its items and artifacts. No other is.
pub proof fn law_delete_session(store: &mut Store, id: &str, r: Result<(), CoreError>, k: Seq<char>)
    requires
        call_ensures(Store::delete_session, (store, id), r),
    ensures
        r is Ok <==> old(store)@.session(id@) is Some,
        r is Err ==> missing(r, "session"@, id@) && final(store)@ == old(store)@,
        r is Ok ==> final(store)@.session(id@) is None,
        r is Ok && k != id@ ==> final(store)@.session(k) == old(store)@.session(k),
        r is Ok && old(store)@.item(k) is Some && old(store)@.item(k)->0.session_id == id@
            ==> final(store)@.item(k) is None,
        r is Ok && old(store)@.item(k) is Some && old(store)@.item(k)->0.session_id != id@
            ==> final(store)@.item(k) == old(store)@.item(k),
        r is Ok && old(store)@.item(k) is None ==> final(store)@.item(k) is None,
        r is Ok && old(store)@.artifact(k) is Some && old(store)@.artifact(k)->0.session_id == id@
            ==> final(store)@.artifact(k) is None,
        r is Ok && old(store)@.artifact(k) is Some && old(store)@.artifact(k)->0.session_id != id@
            ==> final(store)@.artifact(k) == old(store)@.artifact(k),
        r is Ok && old(store)@.artifact(k) is None ==> final(store)@.artifact(k) is None,
        final(store)@.usage == old(store)@.usage,
        final(store)@.jobs == old(store)@.jobs,
        final(store)@.contacts == old(store)@.contacts,
        final(store)@.signals == old(store)@.signals,
        final(store)@.sequences == old(store)@.sequences,
{
}

/// An item that is added is there, not done, with its words and its origin. It
/// needs a session, in whatever status.
pub proof fn law_add_item_with_source(
    store: &mut Store,
    session_id: &str,
    kind: &str,
    text: &str,
    source: ItemSource,
    r: Result<CapturedItem, CoreError>,
)
    requires
        call_ensures(Store::add_item_with_source, (store, session_id, kind, text, source), r),
    ensures
        old(store)@.session(session_id@) is None ==> missing(r, "session"@, session_id@),
        old(store)@.session(session_id@) is Some && r is Err ==> r->Err_0@ is Storage,
        r is Err ==> final(store)@ == old(store)@,
        r matches Ok(item) ==> {
            &&& one_item(old(store)@, final(store)@, item@.id)
            &&& old(store)@.item(item@.id) is None
            &&& final(store)@.item(item@.id) == Some(item@)
            &&& item@.session_id == session_id@
            &&& item@.kind == kind@
            &&& item@.text == text@
            &&& item@.source == source
            &&& !item@.done
            &&& old(store)@.clock.shows(item@.created_at)
            &&& item@.device_id == old(store)@.device_id
        },
{
}

/// An item that is added by hand is one.
pub proof fn law_add_item(
    store: &mut Store,
    session_id: &str,
    kind: &str,
    text: &str,
    r: Result<CapturedItem, CoreError>,
)
    requires
        call_ensures(Store::add_item, (store, session_id, kind, text), r),
    ensures
        old(store)@.session(session_id@) is None ==> missing(r, "session"@, session_id@),
        r is Err ==> final(store)@ == old(store)@,
        r matches Ok(item) ==> {
            &&& one_item(old(store)@, final(store)@, item@.id)
            &&& old(store)@.item(item@.id) is None
            &&& final(store)@.item(item@.id) == Some(item@)
            &&& item@.session_id == session_id@ && item@.kind == kind@ && item@.text == text@
            &&& item@.source == ItemSource::Manual
            &&& !item@.done
        },
{
}

/// An item that needs a status is added in that status only.
pub proof fn law_add_item_if_status(
    store: &mut Store,
    session_id: &str,
    kind: &str,
    text: &str,
    required: SessionStatus,
    source: ItemSource,
    r: Result<Option<CapturedItem>, CoreError>,
)
    requires
        call_ensures(
            Store::add_item_if_status,
            (store, session_id, kind, text, required, source),
            r,
        ),
    ensures
        old(store)@.session(session_id@) is None ==> missing(r, "session"@, session_id@),
        (r matches Ok(None)) <==> old(store)@.session(session_id@) is Some && !has_status(
            old(store)@,
            session_id@,
            required,
        ),
        !(r matches Ok(Some(_))) ==> final(store)@ == old(store)@,
        r matches Ok(Some(item)) ==> {
            &&& has_status(old(store)@, session_id@, required)
            &&& one_item(old(store)@, final(store)@, item@.id)
            &&& old(store)@.item(item@.id) is None
            &&& final(store)@.item(item@.id) == Some(item@)
            &&& item@.session_id == session_id@ && item@.kind == kind@ && item@.text == text@
            &&& item@.source == source
            &&& !item@.done
        },
{
}

/// Ticking an item off, or back on, changes that and nothing else.
pub proof fn law_set_item_done(
    store: &mut Store,
    id: &str,
    done: bool,
    r: Result<CapturedItem, CoreError>,
)
    requires
        call_ensures(Store::set_item_done, (store, id, done), r),
    ensures
        r is Ok <==> old(store)@.item(id@) is Some,
        r is Err ==> missing(r, "item"@, id@) && final(store)@ == old(store)@,
        r matches Ok(item) ==> {
            &&& one_item(old(store)@, final(store)@, id@)
            &&& final(store)@.item(id@) == Some(item@)
            &&& item@.done == done
            &&& item@.text == old(store)@.item(id@)->0.text
            &&& item@.kind == old(store)@.item(id@)->0.kind
            &&& item@.source == old(store)@.item(id@)->0.source
            &&& item@.session_id == old(store)@.item(id@)->0.session_id
            &&& item@.created_at == old(store)@.item(id@)->0.created_at
        },
{
}

/// A deleted item is gone, and only it.
pub proof fn law_delete_item(store: &mut Store, id: &str, r: Result<(), CoreError>)
    requires
        call_ensures(Store::delete_item, (store, id), r),
    ensures
        r is Ok <==> old(store)@.item(id@) is Some,
        r is Err ==> missing(r, "item"@, id@) && final(store)@ == old(store)@,
        r is Ok ==> final(store)@.item(id@) is None && one_item(old(store)@, final(store)@, id@),
{
}

/// The items of a session are listed, all of them, in the order of their ids.
pub proof fn law_list_items_for_session(
    store: &Store,
    session_id: &str,
    r: Result<Vec<CapturedItem>, CoreError>,
    k: Seq<char>,
)
    requires
        call_ensures(Store::list_items_for_session, (store, session_id), r),
    ensures
        r is Ok,
        store@.item(k) is Some && store@.item(k)->0.session_id == session_id@ ==> seq_views(
            r->Ok_0@,
        ).contains(store@.item(k)->0),
        forall|i: int|
            0 <= i < r->Ok_0@.len() ==> (#[trigger] r->Ok_0@[i])@.session_id == session_id@
                && store@.item(r->Ok_0@[i]@.id) == Some(r->Ok_0@[i]@),
        forall|i: int, j: int|
            0 <= i < j < r->Ok_0@.len() ==> lex_lt(
                (#[trigger] r->Ok_0@[i])@.id,
                (#[trigger] r->Ok_0@[j])@.id,
            ),
{
    let out = seq_views(r->Ok_0@);
    assert forall|i: int| 0 <= i < r->Ok_0@.len() implies (#[trigger] r->Ok_0@[i])@.session_id
        == session_id@ && store@.item(r->Ok_0@[i]@.id) == Some(r->Ok_0@[i]@) by {
        assert(out[i] == r->Ok_0@[i]@);
    }
    assert forall|i: int, j: int| 0 <= i < j < r->Ok_0@.len() implies lex_lt(
        (#[trigger] r->Ok_0@[i])@.id,
        (#[trigger] r->Ok_0@[j])@.id,
    ) by {
        assert(lex_lt(out[i].id, out[j].id));
    }
    if store@.item(k) is Some && store@.item(k)->0.session_id == session_id@ {
        let i = choose|i: int| 0 <= i < out.len() && #[trigger] out[i] == store@.item(k)->0;
        assert(out[i] == store@.item(k)->0);
    }
}

/// Open todos are the items of kind todo that are not done, of every session.
pub proof fn law_list_open_todos(
    store: &Store,
    r: Result<Vec<CapturedItem>, CoreError>,
    k: Seq<char>,
)
    requires
        call_ensures(Store::list_open_todos, (store,), r),
    ensures
        r is Ok,
        store@.item(k) is Some && store@.item(k)->0.kind == "todo"@ && !store@.item(k)->0.done
            ==> seq_views(r->Ok_0@).contains(store@.item(k)->0),
        forall|i: int|
            0 <= i < r->Ok_0@.len() ==> (#[trigger] r->Ok_0@[i])@.kind == "todo"@
                && !r->Ok_0@[i]@.done && store@.item(r->Ok_0@[i]@.id) == Some(r->Ok_0@[i]@),
{
    let out = seq_views(r->Ok_0@);
    assert forall|i: int| 0 <= i < r->Ok_0@.len() implies (#[trigger] r->Ok_0@[i])@.kind == "todo"@
        && !r->Ok_0@[i]@.done && store@.item(r->Ok_0@[i]@.id) == Some(r->Ok_0@[i]@) by {
        assert(out[i] == r->Ok_0@[i]@);
    }
    if store@.item(k) is Some && store@.item(k)->0.kind == "todo"@ && !store@.item(k)->0.done {
        let i = choose|i: int| 0 <= i < out.len() && #[trigger] out[i] == store@.item(k)->0;
        assert(out[i] == store@.item(k)->0);
    }
}

/// Sessions are listed by status, by job or all, and each list holds those and no
/// other.
pub proof fn law_list_sessions_by_status(
    store: &Store,
    status: SessionStatus,
    r: Result<Vec<Session>, CoreError>,
    s: SessionView,
)
    requires
        call_ensures(Store::list_sessions_by_status, (store, status), r),
    ensures
        r is Ok,
        seq_views(r->Ok_0@).contains(s) <==> store@.session(s.id) == Some(s) && s.status == status,
{
    let out = seq_views(r->Ok_0@);
    if store@.session(s.id) == Some(s) && s.status == status {
        assert(store@.session(s.id) is Some);
        let i = choose|i: int| 0 <= i < out.len() && #[trigger] out[i] == store@.session(s.id)->0;
        assert(out[i] == s);
    }
    if out.contains(s) {
        let i = choose|i: int| 0 <= i < out.len() && out[i] == s;
        assert(store@.session(out[i].id) == Some(out[i]));
    }
}

/// The sessions of a job are those that name it.
pub proof fn law_list_sessions_by_job(
    store: &Store,
    job_id: &str,
    r: Result<Vec<Session>, CoreError>,
    s: SessionView,
)
    requires
        call_ensures(Store::list_sessions_by_job, (store, job_id), r),
    ensures
        r is Ok,
        seq_views(r->Ok_0@).contains(s) <==> store@.session(s.id) == Some(s) && s.job_id == Some(
            job_id@,
        ),
{
    let out = seq_views(r->Ok_0@);
    if store@.session(s.id) == Some(s) && s.job_id == Some(job_id@) {
        assert(store@.session(s.id) is Some);
        let i = choose|i: int| 0 <= i < out.len() && #[trigger] out[i] == store@.session(s.id)->0;
        assert(out[i] == s);
    }
    if out.contains(s) {
        let i = choose|i: int| 0 <= i < out.len() && out[i] == s;
        assert(store@.session(out[i].id) == Some(out[i]));
    }
}

/// All sessions are listed.
pub proof fn law_list_sessions(
    store: &Store,
    r: Result<Vec<Session>, CoreError>,
    s: SessionView,
)
    requires
        call_ensures(Store::list_sessions, (store,), r),
    ensures
        r is Ok,
        seq_views(r->Ok_0@).contains(s) <==> store@.session(s.id) == Some(s),
{
    let out = seq_views(r->Ok_0@);
    if store@.session(s.id) == Some(s) {
        assert(store@.session(s.id) is Some);
        let i = choose|i: int| 0 <= i < out.len() && #[trigger] out[i] == store@.session(s.id)->0;
        assert(out[i] == s);
    }
    if out.contains(s) {
        let i = choose|i: int| 0 <= i < out.len() && out[i] == s;
        assert(store@.session(out[i].id) == Some(out[i]));
    }
}

/// An artifact that is added is there with its words. It needs a session.
pub proof fn law_add_artifact(
    store: &mut Store,
    session_id: &str,
    kind: &str,
    title: &str,
    body: &str,
    r: Result<Artifact, CoreError>,
)
    requires
        call_ensures(Store::add_artifact, (store, session_id, kind, title, body), r),
    ensures
        old(store)@.session(session_id@) is None ==> missing(r, "session"@, session_id@),
        old(store)@.session(session_id@) is Some && r is Err ==> r->Err_0@ is Storage,
        r is Err ==> final(store)@ == old(store)@,
        r matches Ok(a) ==> {
            &&& one_artifact(old(store)@, final(store)@, a@.id)
            &&& old(store)@.artifact(a@.id) is None
            &&& final(store)@.artifact(a@.id) == Some(a@)
            &&& a@.session_id == session_id@
            &&& a@.kind == kind@
            &&& a@.title == title@
            &&& a@.body == body@
            &&& old(store)@.clock.shows(a@.created_at)
        },
{
}

/// An artifact's body can be replaced; the rest of it stays.
pub proof fn law_update_artifact_body(
    store: &mut Store,
    id: &str,
    body: &str,
    r: Result<Artifact, CoreError>,
)
    requires
        call_ensures(Store::update_artifact_body, (store, id, body), r),
    ensures
        r is Ok <==> old(store)@.artifact(id@) is Some,
        r is Err ==> missing(r, "artifact"@, id@) && final(store)@ == old(store)@,
        r matches Ok(a) ==> {
            &&& one_artifact(old(store)@, final(store)@, id@)
            &&& final(store)@.artifact(id@) == Some(a@)
            &&& a@.body == body@
            &&& a@.title == old(store)@.artifact(id@)->0.title
            &&& a@.kind == old(store)@.artifact(id@)->0.kind
            &&& a@.session_id == old(store)@.artifact(id@)->0.session_id
            &&& a@.created_at == old(store)@.artifact(id@)->0.created_at
        },
{
}

/// A deleted artifact is gone, and only it.
pub proof fn law_delete_artifact(store: &mut Store, id: &str, r: Result<(), CoreError>)
    requires
        call_ensures(Store::delete_artifact, (store, id), r),
    ensures
        r is Ok <==> old(store)@.artifact(id@) is Some,
        r is Err ==> missing(r, "artifact"@, id@) && final(store)@ == old(store)@,
        r is Ok ==> final(store)@.artifact(id@) is None && one_artifact(
            old(store)@,
            final(store)@,
            id@,
        ),
{
}

/// A job is created active, with what the caller knows of it.
pub proof fn law_create_job(store: &mut Store, new: NewJob, r: Result<Job, CoreError>, k: Seq<char>)
    requires
        call_ensures(Store::create_job, (store, new), r),
    ensures
        r is Err ==> r->Err_0@ is Storage && final(store)@ == old(store)@,
        r matches Ok(job) ==> {
            &&& old(store)@.job(job@.id) is None
            &&& final(store)@.job(job@.id) == Some(job@)
            &&& k != job@.id ==> final(store)@.job(k) == old(store)@.job(k)
            &&& final(store)@ == (StoreView { jobs: final(store)@.jobs, ..old(store)@ })
            &&& job@.name == new.name@
            &&& job@.client == option_view(new.client)
            &&& job@.site == option_view(new.site)
            &&& job@.scheduled_at == new.scheduled_at
            &&& job@.status == JobStatus::Active
        },
{
}

/// The cost of a run is logged as it is, behind what was logged before.
pub proof fn law_record_llm_usage(
    store: &mut Store,
    session_id: Option<&str>,
    purpose: &str,
    usage: &Usage,
    r: Result<LlmUsageRow, CoreError>,
)
    requires
        call_ensures(Store::record_llm_usage, (store, session_id, purpose, usage), r),
    ensures
        r is Err ==> r->Err_0@ is Storage && final(store)@ == old(store)@,
        r matches Ok(row) ==> {
            &&& final(store)@ == (StoreView {
                usage: old(store)@.usage.push(row@),
                ..old(store)@
            })
            &&& row@.session_id == str_option(session_id)
            &&& row@.purpose == purpose@
            &&& row@.input_tokens == usage.input_tokens
            &&& row@.output_tokens == usage.output_tokens
        },
{
}

proof fn lemma_usage_filter(log: Seq<LlmUsageRowView>, session_id: Seq<char>)
    ensures
        usage_of(log, session_id) == log.filter(
            |row: LlmUsageRowView| row.session_id == Some(session_id),
        ),
    decreases log.len(),
{
    reveal(Seq::filter);
    if log.len() > 0 {
        lemma_usage_filter(log.drop_last(), session_id);
    }
}

/// The log of a session is the rows that name it, in the order in which they were
/// written.
pub proof fn law_list_llm_usage_for_session(
    store: &Store,
    session_id: &str,
    r: Result<Vec<LlmUsageRow>, CoreError>,
)
    requires
        call_ensures(Store::list_llm_usage_for_session, (store, session_id), r),
    ensures
        r matches Ok(out) && seq_views(out@) == store@.usage.filter(
            |row: LlmUsageRowView| row.session_id == Some(session_id@),
        ),
{
    lemma_usage_filter(store@.usage, session_id@);
}

/// Totals add up: a further row adds its tokens, and an empty log has none.
pub proof fn law_usage_adds_up(log: Seq<LlmUsageRowView>, row: LlmUsageRowView)
    ensures
        input_total(log.push(row)) == input_total(log) + row.input_tokens,
        output_total(log.push(row)) == output_total(log) + row.output_tokens,
        input_total(Seq::empty()) == 0,
        output_total(Seq::empty()) == 0,
{
    assert(log.push(row).drop_last() =~= log);
}

/// A reflection that is recorded starts the count again, is the newest of the
/// churns, and its cost is logged; a refused one leaves everything.
pub proof fn law_finish_reflection(
    store: &mut Store,
    churn: Ratio,
    usage: &Usage,
    r: Result<(), CoreError>,
)
    requires
        call_ensures(Store::finish_reflection, (store, churn, usage), r),
    ensures
        r is Err ==> final(store)@ == old(store)@,
        r is Ok ==> {
            &&& final(store)@.signals.sessions == 0
            &&& final(store)@.signals.corrections == 0
            &&& final(store)@.signals.churn == old(store)@.signals.churn.push(churn)
            &&& old(store)@.signals.completed < u32::MAX ==> final(store)@.signals.completed
                == old(store)@.signals.completed + 1
            &&& old(store)@.clock.shows(final(store)@.last_reflected_at)
            &&& final(store)@.usage.len() == old(store)@.usage.len() + 1
            &&& final(store)@.usage.drop_last() == old(store)@.usage
            &&& final(store)@.usage.last().purpose == "reflection"@
            &&& final(store)@.usage.last().session_id is None
            &&& final(store)@.usage.last().input_tokens == usage.input_tokens
            &&& final(store)@.usage.last().output_tokens == usage.output_tokens
            &&& final(store)@.sessions == old(store)@.sessions
            &&& final(store)@.items == old(store)@.items
            &&& final(store)@.artifacts == old(store)@.artifacts
            &&& final(store)@.contacts == old(store)@.contacts
        },
{
    if r is Ok {
        assert(final(store)@.usage.drop_last() =~= old(store)@.usage);
    }
}

/// A completed session counts once.
pub proof fn law_record_session_completed(store: &mut Store, r: Result<(), CoreError>)
    requires
        call_ensures(Store::record_session_completed, (store,), r),
    ensures
        r is Ok,
        old(store)@.signals.sessions < u32::MAX ==> final(store)@.signals.sessions
            == old(store)@.signals.sessions + 1,
        final(store)@.signals.sessions >= old(store)@.signals.sessions,
        final(store)@.signals.corrections == old(store)@.signals.corrections,
        final(store)@.signals.completed == old(store)@.signals.completed,
        final(store)@.signals.churn == old(store)@.signals.churn,
        final(store)@ == (StoreView { signals: final(store)@.signals, ..old(store)@ }),
{
}

/// Document numbers of a kind start at one and count up by one.
pub proof fn law_mint_document_number(store: &mut Store, doc_kind: &str, r: Result<u64, CoreError>)
    requires
        call_ensures(Store::mint_document_number, (store, doc_kind), r),
    ensures
        r is Err ==> final(store)@ == old(store)@ && old(store)@.sequences.contains_key(doc_kind@)
            && old(store)@.sequences[doc_kind@].last >= i64::MAX,
        r matches Ok(n) ==> {
            &&& !old(store)@.sequences.contains_key(doc_kind@) ==> n == 1
            &&& old(store)@.sequences.contains_key(doc_kind@) ==> n
                == old(store)@.sequences[doc_kind@].last + 1
            &&& final(store)@.sequences.contains_key(doc_kind@)
            &&& final(store)@.sequences[doc_kind@].last == n
            &&& final(store)@.sequences.remove(doc_kind@) == old(store)@.sequences.remove(doc_kind@)
            &&& final(store)@ == (StoreView { sequences: final(store)@.sequences, ..old(store)@ })
        },
{
    if r is Ok {
        assert(final(store)@.sequences.remove(doc_kind@) =~= old(store)@.sequences.remove(
            doc_kind@,
        ));
    }
}

/// What is known of a person is kept: a field that is given replaces what was
/// known, one that is not given stays. A person whose name is known is not written
/// twice, and nobody else changes.
pub proof fn law_upsert_contact(
    store: &mut Store,
    name: &str,
    trade: Option<&str>,
    phone: Option<&str>,
    notes: Option<&str>,
    r: Result<Contact, CoreError>,
    k: Seq<char>,
)
    requires
        call_ensures(Store::upsert_contact, (store, name, trade, phone, notes), r),
    ensures
        r is Err ==> r->Err_0@ is Storage && final(store)@ == old(store)@,
        r matches Ok(c) ==> {
            &&& contact_of(final(store)@, c@.id) == Some(c@)
            &&& c@.name == name@
            &&& trade is Some ==> c@.trade == Some(trade->0@)
            &&& phone is Some ==> c@.phone == Some(phone->0@)
            &&& notes is Some ==> c@.notes == Some(notes->0@)
            &&& k != c@.id ==> contact_of(final(store)@, k) == contact_of(old(store)@, k)
            &&& final(store)@ == (StoreView { contacts: final(store)@.contacts, ..old(store)@ })
            &&& match contact_of(old(store)@, c@.id) {
                Some(known) => {
                    &&& known.name == name@
                    &&& trade is None ==> c@.trade == known.trade
                    &&& phone is None ==> c@.phone == known.phone
                    &&& notes is None ==> c@.notes == known.notes
                    &&& c@.created_at == known.created_at
                },
                None => {
                    &&& trade is None ==> c@.trade is None
                    &&& phone is None ==> c@.phone is None
                    &&& notes is None ==> c@.notes is None
                },
            }
        },
{
    let st = choose|st: StampView| #[trigger]
        old(store)@.gives(st) && (final(store)@, result_view(r)) == contact_saved(
            old(store)@,
            name@,
            str_option(trade),
            str_option(phone),
            str_option(notes),
            st,
        );
    if exists|c: ContactView| is_named(old(store)@, name@, c) {
        let c = choose|c: ContactView| is_named(old(store)@, name@, c);
        assert(contact_of(old(store)@, c.id) == Some(c));
    }
}

/// A processed session has its summary, its cost is logged, and its board is what
/// was noted by hand and the items of the run. Nothing is written in part.
pub proof fn law_finish_session_processed(
    store: &mut Store,
    session_id: &str,
    summary: &str,
    usage: &Usage,
    run_item_ids: &[String],
    r: Result<Session, CoreError>,
    k: Seq<char>,
)
    requires
        call_ensures(
            Store::finish_session_processed,
            (store, session_id, summary, usage, run_item_ids),
            r,
        ),
    ensures
        r is Err ==> final(store)@ == old(store)@,
        r is Err && run_item_ids@.len() <= 32_764 && (has_status(
            old(store)@,
            session_id@,
            SessionStatus::AwaitingProcessing,
        ) || has_status(old(store)@, session_id@, SessionStatus::Failed)) ==> r->Err_0@ is Storage,
        run_item_ids@.len() <= 32_764 && old(store)@.session(session_id@) is None ==> missing(
            r,
            "session"@,
            session_id@,
        ),
        r matches Ok(t) ==> {
            let v = old(store)@;
            let w = final(store)@;
            let kept = v.item(k) is Some && (v.item(k)->0.session_id != session_id@
                || v.item(k)->0.source == ItemSource::Manual || seq_views(run_item_ids@).contains(
                v.item(k)->0.id,
            ));
            &&& has_status(v, session_id@, SessionStatus::AwaitingProcessing) || has_status(
                v,
                session_id@,
                SessionStatus::Failed,
            )
            &&& run_item_ids@.len() <= 32_764
            &&& w.session(session_id@) == Some(t@)
            &&& t@.status == SessionStatus::Processed
            &&& t@.summary == Some(summary@)
            &&& t@.transcript == v.session(session_id@)->0.transcript
            &&& k != session_id@ ==> w.session(k) == v.session(k)
            &&& kept ==> w.item(k) == v.item(k)
            &&& !kept ==> w.item(k) is None
            &&& w.artifacts == v.artifacts
            &&& w.usage.len() == v.usage.len() + 1
            &&& w.usage.drop_last() == v.usage
            &&& w.usage.last().session_id == Some(session_id@)
            &&& w.usage.last().purpose == "processing"@
            &&& w.usage.last().input_tokens == usage.input_tokens
            &&& w.usage.last().output_tokens == usage.output_tokens
        },
{
    if r is Ok {
        assert(final(store)@.usage.drop_last() =~= old(store)@.usage);
    }
}

/// A failed session keeps its board, and its cost is logged.
pub proof fn law_finish_session_failed(
    store: &mut Store,
    session_id: &str,
    usage: &Usage,
    r: Result<(), CoreError>,
    k: Seq<char>,
)
    requires
        call_ensures(Store::finish_session_failed, (store, session_id, usage), r),
    ensures
        r is Err ==> final(store)@ == old(store)@,
        old(store)@.session(session_id@) is None ==> missing(r, "session"@, session_id@),
        r is Ok ==> {
            let v = old(store)@;
            let w = final(store)@;
            &&& has_status(v, session_id@, SessionStatus::AwaitingProcessing) || has_status(
                v,
                session_id@,
                SessionStatus::Failed,
            )
            &&& has_status(w, session_id@, SessionStatus::Failed)
            &&& w.session(session_id@)->0.transcript == v.session(session_id@)->0.transcript
            &&& w.session(session_id@)->0.summary == v.session(session_id@)->0.summary
            &&& k != session_id@ ==> w.session(k) == v.session(k)
            &&& w.items == v.items
            &&& w.artifacts == v.artifacts
            &&& w.usage.len() == v.usage.len() + 1
            &&& w.usage.drop_last() == v.usage
            &&& w.usage.last().session_id == Some(session_id@)
            &&& w.usage.last().purpose == "processing"@
            &&& w.usage.last().input_tokens == usage.input_tokens
            &&& w.usage.last().output_tokens == usage.output_tokens
        },
{
    if r is Ok {
        assert(final(store)@.usage.drop_last() =~= old(store)@.usage);
    }
}

/// Before another attempt, what an earlier one wrote goes: the authoritative items
/// of the session and its artifacts. Everything else stays.
pub proof fn law_clear_authoritative_outputs(
    store: &mut Store,
    session_id: &str,
    r: Result<usize, CoreError>,
    k: Seq<char>,
)
    requires
        call_ensures(Store::clear_authoritative_outputs, (store, session_id), r),
    ensures
        r is Ok <==> old(store)@.session(session_id@) is Some,
        r is Err ==> missing(r, "session"@, session_id@) && final(store)@ == old(store)@,
        r is Ok ==> {
            let v = old(store)@;
            let w = final(store)@;
            let mine = v.item(k) is Some && v.item(k)->0.session_id == session_id@
                && v.item(k)->0.source == ItemSource::Authoritative;
            &&& mine ==> w.item(k) is None
            &&& !mine ==> w.item(k) == v.item(k)
            &&& v.artifact(k) is Some && v.artifact(k)->0.session_id == session_id@ ==> w.artifact(
                k,
            ) is None
            &&& v.artifact(k) is Some && v.artifact(k)->0.session_id != session_id@ ==> w.artifact(
                k,
            ) == v.artifact(k)
            &&& v.artifact(k) is None ==> w.artifact(k) is None
            &&& w.sessions == v.sessions
            &&& w.usage == v.usage
            &&& w.sequences == v.sequences
        },
{
}

/// The latest document of a session is one of its documents, and none has a
/// greater id. There is one when the session has any.
pub proof fn law_latest_document_artifact(
    store: &Store,
    session_id: &str,
    r: Result<Option<Artifact>, CoreError>,
    k: Seq<char>,
)
    requires
        call_ensures(Store::latest_document_artifact, (store, session_id), r),
    ensures
        r is Ok,
        r matches Ok(Some(a)) ==> store@.artifact(a@.id) == Some(a@) && a@.session_id == session_id@
            && a@.kind == "document"@,
        r matches Ok(Some(a)) ==> (store@.artifact(k) is Some && store@.artifact(k)->0.id == k
            && store@.artifact(k)->0.session_id == session_id@ && store@.artifact(k)->0.kind
            == "document"@ ==> !lex_lt(a@.id, k)),
        store@.artifact(k) is Some && store@.artifact(k)->0.id == k && store@.artifact(k)->0.session_id
            == session_id@ && store@.artifact(k)->0.kind == "document"@ ==> r->Ok_0 is Some,
{
    if store@.artifact(k) is Some && store@.artifact(k)->0.id == k
        && store@.artifact(k)->0.session_id == session_id@ && store@.artifact(k)->0.kind
        == "document"@ {
        assert(is_document(store@, session_id@, store@.artifact(k)->0));
    }
    if let Ok(Some(a)) = r {
        assert(is_latest_document(store@, session_id@, a@));
        assert(is_document(store@, session_id@, a@));
        if store@.artifact(k) is Some && store@.artifact(k)->0.id == k
            && store@.artifact(k)->0.session_id == session_id@ && store@.artifact(k)->0.kind
            == "document"@ {
            assert(is_document(store@, session_id@, store@.artifact(k)->0));
        }
    }
}

/// What a reflection reads: the words of sessions that ended since the last one,
/// the summary where there is one and the transcript otherwise. None is blank, and
/// there are no more than were asked for.
pub proof fn law_activity_for_reflection(
    store: &Store,
    max: usize,
    r: Result<Vec<String>, CoreError>,
    i: int,
)
    requires
        call_ensures(Store::activity_for_reflection, (store, max), r),
        store@.last_reflected_at <= i64::MAX,
    ensures
        r is Ok,
        r->Ok_0@.len() <= max,
        0 <= i < r->Ok_0@.len() ==> exists|s: SessionView|
            #![trigger store@.session(s.id)]
            store@.session(s.id) == Some(s) && s.status != SessionStatus::Recording && s.ended_at
                is Some && (s.ended_at->0 > i64::MAX || s.ended_at->0 >= store@.last_reflected_at)
                && !blank(r->Ok_0@[i]@) && r->Ok_0@[i]@ == (match s.summary {
                Some(summary) => summary,
                None => s.transcript,
            }),
{
    let out = seq_views(r->Ok_0@);
    let full = choose|full: Seq<SessionView>| #[trigger]
        lists_sessions(store@, is_activity(store@.last_reflected_at), full) && out.len() == (if max
            < full.len() {
            max as nat
        } else {
            full.len()
        }) && forall|k: int| 0 <= k < out.len() ==> #[trigger] out[k] == activity_text(full[k]);
    if 0 <= i < out.len() {
        assert(out[i] == activity_text(full[i]));
        assert(store@.session(full[i].id) == Some(full[i]));
        assert(out[i] == r->Ok_0@[i]@);
    }
}

/// A session that ended since the last reflection, and has words, is read unless
/// there are too many.
pub proof fn law_activity_is_complete(
    store: &Store,
    max: usize,
    r: Result<Vec<String>, CoreError>,
    s: SessionView,
)
    requires
        call_ensures(Store::activity_for_reflection, (store, max), r),
        r is Ok,
        r->Ok_0@.len() < max,
        store@.session(s.id) == Some(s),
        s.status != SessionStatus::Recording,
        s.ended_at is Some,
        store@.last_reflected_at <= s.ended_at->0 <= i64::MAX,
        !blank(
            match s.summary {
                Some(summary) => summary,
                None => s.transcript,
            },
        ),
    ensures
        seq_views(r->Ok_0@).contains(
            match s.summary {
                Some(summary) => summary,
                None => s.transcript,
            },
        ),
{
    let out = seq_views(r->Ok_0@);
    let full = choose|full: Seq<SessionView>| #[trigger]
        lists_sessions(store@, is_activity(store@.last_reflected_at), full) && out.len() == (if max
            < full.len() {
            max as nat
        } else {
            full.len()
        }) && forall|k: int| 0 <= k < out.len() ==> #[trigger] out[k] == activity_text(full[k]);
    assert(store@.session(s.id) is Some);
    assert(is_activity(store@.last_reflected_at)(s));
    let i = choose|i: int| 0 <= i < full.len() && #[trigger] full[i] == store@.session(s.id)->0;
    assert(out[i] == activity_text(full[i]));
}

/// All people are listed, in the order of their ids.
pub proof fn law_list_contacts(
    store: &Store,
    r: Result<Vec<Contact>, CoreError>,
    c: ContactView,
)
    requires
        call_ensures(Store::list_contacts, (store,), r),
    ensures
        r is Ok,
        seq_views(r->Ok_0@).contains(c) <==> contact_of(store@, c.id) == Some(c),
{
    let out = seq_views(r->Ok_0@);
    if contact_of(store@, c.id) == Some(c) {
        assert(contact_of(store@, c.id) is Some);
        let i = choose|i: int| 0 <= i < out.len() && #[trigger] out[i] == contact_of(store@, c.id)->0;
        assert(out[i] == c);
    }
    if out.contains(c) {
        let i = choose|i: int| 0 <= i < out.len() && out[i] == c;
        assert(contact_of(store@, out[i].id) == Some(out[i]));
    }
}

/// The artifacts of a session are listed, all of them and no other.
pub proof fn law_list_artifacts_for_session(
    store: &Store,
    session_id: &str,
    r: Result<Vec<Artifact>, CoreError>,
    a: ArtifactView,
)
    requires
        call_ensures(Store::list_artifacts_for_session, (store, session_id), r),
    ensures
        r is Ok,
        seq_views(r->Ok_0@).contains(a) <==> store@.artifact(a.id) == Some(a) && a.session_id
            == session_id@,
{
    let out = seq_views(r->Ok_0@);
    if store@.artifact(a.id) == Some(a) && a.session_id == session_id@ {
        assert(store@.artifact(a.id) is Some);
        let i = choose|i: int| 0 <= i < out.len() && #[trigger] out[i] == store@.artifact(a.id)->0;
        assert(out[i] == a);
    }
    if out.contains(a) {
        let i = choose|i: int| 0 <= i < out.len() && out[i] == a;
        assert(store@.artifact(out[i].id) == Some(out[i]));
    }
}

/// What is read under an id is the live row with it, and there is nothing else to
/// read.
pub proof fn law_reads_give_live_rows(
    store: &Store,
    id: &str,
    s: Result<Session, CoreError>,
    i: Result<CapturedItem, CoreError>,
    a: Result<Artifact, CoreError>,
    j: Result<Job, CoreError>,
)
    requires
        call_ensures(Store::get_session, (store, id), s),
        call_ensures(Store::get_item, (store, id), i),
        call_ensures(Store::get_artifact, (store, id), a),
        call_ensures(Store::get_job, (store, id), j),
    ensures
        ({
            let v = store@;
            &&& s is Ok <==> v.sessions.contains_key(id@) && v.sessions[id@].deleted_at is None
            &&& s matches Ok(x) ==> x@ == v.sessions[id@].session
            &&& s is Err ==> missing(s, "session"@, id@)
            &&& i is Ok <==> v.items.contains_key(id@) && v.items[id@].deleted_at is None
            &&& i matches Ok(x) ==> x@ == v.items[id@].item
            &&& i is Err ==> missing(i, "item"@, id@)
            &&& a is Ok <==> v.artifacts.contains_key(id@) && v.artifacts[id@].deleted_at is None
            &&& a matches Ok(x) ==> x@ == v.artifacts[id@].artifact
            &&& a is Err ==> missing(a, "artifact"@, id@)
            &&& j is Ok <==> v.jobs.contains_key(id@) && v.jobs[id@].deleted_at is None
            &&& j matches Ok(x) ==> x@ == v.jobs[id@].job
            &&& j is Err ==> missing(j, "job"@, id@)
        }),
{
}

/// A new store holds nothing, and another clock changes nothing that it holds.
pub proof fn law_new_store(
    device_id: &str,
    r: Result<Store, CoreError>,
    clock: Clock,
    s: Store,
    k: Seq<char>,
)
    requires
        call_ensures(Store::open_in_memory, (device_id,), r),
        r is Ok ==> call_ensures(Store::with_clock, (r->Ok_0, clock), s),
    ensures
        r is Ok,
        r->Ok_0@.session(k) is None && r->Ok_0@.item(k) is None && r->Ok_0@.artifact(k) is None
            && r->Ok_0@.job(k) is None,
        r->Ok_0@.device_id == device_id@,
        r->Ok_0@.usage.len() == 0,
        r->Ok_0@.signals.sessions == 0 && r->Ok_0@.signals.corrections == 0
            && r->Ok_0@.signals.completed == 0 && r->Ok_0@.signals.churn.len() == 0,
        s@ == (StoreView { clock, ..r->Ok_0@ }),
{
}

} // verus!
