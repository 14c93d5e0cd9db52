//! Sessions: recording, ending, processing marks, the library, and deletion.

use vstd::prelude::*;
use crate::notes::domain::Session;
use crate::notes::domain::SessionStatus;
use crate::notes::domain::SessionSummary;
use crate::notes::domain::SessionSummaryView;
use crate::notes::domain::SessionView;
use crate::notes::domain::summarized;
use crate::notes::error::CoreError;
use crate::notes::error::CoreErrorView;
use crate::notes::store::duplicate;
use crate::notes::store::duplicate_error;
use crate::notes::store::not_found;
use crate::notes::store::search::hit;
use crate::notes::store::search::is_too_long;
use crate::notes::store::search::length_before_nul;
use crate::notes::store::search::like_matches;
use crate::notes::store::search::like_pattern;
use crate::notes::store::search::pattern_of;
use crate::notes::store::search::too_complex;
use crate::notes::store::SessionRow;
use crate::notes::store::SessionRowView;
use crate::notes::store::Stamp;
use crate::notes::store::StampView;
use crate::notes::store::Store;
use crate::notes::store::StoreView;
use crate::notes::store::table::find;
use crate::notes::store::table::index_of_key;
use crate::notes::store::table::insert_row;
use crate::notes::store::table::lemma_at;
use crate::notes::store::table::lemma_replaced;
use crate::notes::store::table::table;
use crate::text::blank;
use crate::text::chars_of;
use crate::text::concat3;
use crate::text::is_blank;
use crate::text::lemma_lex_total;
use crate::text::lemma_lex_transitive;
use crate::text::lemma_lex_irreflexive;
use crate::text::lex_lt;
use crate::text::text_eq;
use crate::text::text_lt;
use crate::views::copy_option;
use crate::views::own_option;
use crate::views::result_view;
use crate::views::seq_views;
use crate::views::unit_result;

verus! {

/// A session as it starts.
pub open spec fn fresh_session(
    job_id: Option<Seq<char>>,
    device_id: Seq<char>,
    st: StampView,
) -> SessionView {
    SessionView {
        id: st.id,
        job_id,
        template: None,
        status: SessionStatus::Recording,
        transcript: Seq::empty(),
        summary: None,
        started_at: st.now,
        ended_at: None,
        created_at: st.now,
        updated_at: st.now,
        device_id,
    }
}

/// The store with this session written under the id.
pub open spec fn with_session(v: StoreView, id: Seq<char>, s: SessionView) -> StoreView {
    StoreView {
        sessions: v.sessions.insert(id, SessionRowView { session: s, deleted_at: None }),
        ..v
    }
}

/// The refusal of an operation that needs another status.
pub open spec fn wrong_status(
    before: Seq<char>,
    status: SessionStatus,
    after: Seq<char>,
) -> CoreErrorView {
    CoreErrorView::InvalidState(before + status.name() + after)
}

/// Starting a session. A job that is named must exist.
pub open spec fn started(v: StoreView, job_id: Option<Seq<char>>, st: StampView) -> (
    StoreView,
    Result<SessionView, CoreErrorView>,
) {
    if job_id is Some && v.job(job_id->0) is None {
        (v, Err(not_found("job"@, job_id->0)))
    } else if v.sessions.contains_key(st.id) {
        (v, Err(duplicate("sessions.id"@)))
    } else {
        let s = fresh_session(job_id, v.device_id, st);
        (with_session(v, st.id, s), Ok(s))
    }
}

/// Appending to the transcript of a recording session.
pub open spec fn appended(v: StoreView, id: Seq<char>, chunk: Seq<char>, now: u64) -> (
    StoreView,
    Result<(), CoreErrorView>,
) {
    match v.session(id) {
        None => (v, Err(not_found("session"@, id))),
        Some(s) => if s.status != SessionStatus::Recording {
            (v, Err(wrong_status("cannot append transcript to a "@, s.status, " session"@)))
        } else {
            (
                with_session(
                    v,
                    id,
                    SessionView { transcript: s.transcript + chunk, updated_at: now, ..s },
                ),
                Ok(()),
            )
        },
    }
}

/// Setting the template of a recording session.
pub open spec fn templated(v: StoreView, id: Seq<char>, template: Seq<char>, now: u64) -> (
    StoreView,
    Result<(), CoreErrorView>,
) {
    match v.session(id) {
        None => (v, Err(not_found("session"@, id))),
        Some(s) => if s.status != SessionStatus::Recording {
            (v, Err(wrong_status("cannot set template on a "@, s.status, " session"@)))
        } else {
            (
                with_session(
                    v,
                    id,
                    SessionView { template: Some(template), updated_at: now, ..s },
                ),
                Ok(()),
            )
        },
    }
}

/// Starting a session with its template: both are written, or neither.
pub open spec fn started_with_template(
    v: StoreView,
    job_id: Option<Seq<char>>,
    template: Seq<char>,
    st: StampView,
) -> (StoreView, Result<SessionView, CoreErrorView>) {
    match started(v, job_id, st) {
        (_, Err(e)) => (v, Err(e)),
        (w, Ok(s)) => (
            templated(w, st.id, template, st.now).0,
            Ok(SessionView { template: Some(template), ..s }),
        ),
    }
}

/// Ending a recording session.
pub open spec fn ended(v: StoreView, id: Seq<char>, now: u64) -> (
    StoreView,
    Result<SessionView, CoreErrorView>,
) {
    match v.session(id) {
        None => (v, Err(not_found("session"@, id))),
        Some(s) => if s.status != SessionStatus::Recording {
            (v, Err(wrong_status("cannot end a "@, s.status, " session"@)))
        } else {
            let t = SessionView {
                status: SessionStatus::AwaitingProcessing,
                ended_at: Some(now),
                updated_at: now,
                ..s
            };
            (with_session(v, id, t), Ok(t))
        },
    }
}

/// Moving an ended session on. Only a session that awaits processing, or whose
/// processing failed, can move; a processed one is final.
pub open spec fn moved_on(
    v: StoreView,
    id: Seq<char>,
    to: SessionStatus,
    summary: Option<Seq<char>>,
    now: u64,
) -> (StoreView, Result<SessionView, CoreErrorView>) {
    match v.session(id) {
        None => (v, Err(not_found("session"@, id))),
        Some(s) => match s.status {
            SessionStatus::Recording => (
                v,
                Err(CoreErrorView::InvalidState("session is still recording"@)),
            ),
            SessionStatus::Processed => (
                v,
                Err(CoreErrorView::InvalidState("session already processed"@)),
            ),
            _ => {
                let t = SessionView {
                    status: to,
                    summary: if summary is Some {
                        summary
                    } else {
                        s.summary
                    },
                    updated_at: now,
                    ..s
                };
                (with_session(v, id, t), Ok(t))
            },
        },
    }
}

/// A stored time, as the database orders it.
pub open spec fn signed(t: u64) -> int {
    if t <= i64::MAX {
        t as int
    } else {
        t - 0x1_0000_0000_0000_0000
    }
}

/// The first session comes before the second in the library: it started later,
/// or at the same time with the greater id.
pub open spec fn newer(a: SessionView, b: SessionView) -> bool {
    signed(a.started_at) > signed(b.started_at) || (signed(a.started_at) == signed(b.started_at)
        && lex_lt(b.id, a.id))
}

/// The sessions that satisfy a condition, newest first: nothing is left out,
/// nothing is added, nothing comes twice.
pub open spec fn lists_sessions(
    v: StoreView,
    keep: spec_fn(SessionView) -> bool,
    out: Seq<SessionView>,
) -> bool {
    &&& forall|i: int, j: int| 0 <= i < j < out.len() ==> newer(#[trigger] out[i], #[trigger] out[j])
    &&& forall|i: int|
        0 <= i < out.len() ==> v.session((#[trigger] out[i]).id) == Some(out[i]) && keep(out[i])
    &&& forall|id: Seq<char>|
        (#[trigger] v.session(id)) is Some && keep(v.session(id)->0) ==> exists|i: int|
            0 <= i < out.len() && #[trigger] out[i] == v.session(id)->0
}

/// The same list, without the transcripts.
pub open spec fn lists_summaries(
    v: StoreView,
    keep: spec_fn(SessionView) -> bool,
    out: Seq<SessionSummaryView>,
) -> bool {
    exists|full: Seq<SessionView>| #[trigger]
        lists_sessions(v, keep, full) && out.len() == full.len() && forall|i: int|
            0 <= i < out.len() ==> #[trigger] out[i] == summarized(full[i])
}

/// A session whose transcript or summary is a hit.
pub open spec fn session_hit(query: Seq<char>) -> spec_fn(SessionView) -> bool {
    |s: SessionView| hit(query, s.transcript) || (s.summary is Some && hit(query, s.summary->0))
}

/// There is a session.
pub open spec fn any_session(v: StoreView) -> bool {
    exists|id: Seq<char>| (#[trigger] v.session(id)) is Some
}

/// A search that the storage refuses: the pattern is too long, and there is a
/// session to hold it against.
pub open spec fn search_refused(v: StoreView, query: Seq<char>) -> bool {
    too_complex(query) && any_session(v)
}

proof fn lemma_newer_transitive(a: SessionView, b: SessionView, c: SessionView)
    requires
        newer(a, b),
        newer(b, c),
    ensures
        newer(a, c),
{
    if signed(a.started_at) == signed(c.started_at) {
        lemma_lex_transitive(c.id, b.id, a.id);
    }
}

proof fn lemma_newer_total(a: SessionView, b: SessionView)
    requires
        a.id != b.id,
    ensures
        newer(a, b) || newer(b, a),
{
    lemma_lex_total(a.id, b.id);
}

/// Compares two stored times as the database does.
pub(crate) fn later(a: u64, b: u64) -> (r: bool)
    ensures
        r == (signed(a) > signed(b)),
{
    let a_high = a > 0x7fff_ffff_ffff_ffff;
    let b_high = b > 0x7fff_ffff_ffff_ffff;
    if a_high == b_high {
        a > b
    } else {
        b_high
    }
}

fn is_newer(a: &Session, b: &Session) -> (r: bool)
    ensures
        r == newer(a@, b@),
{
    later(a.started_at, b.started_at) || (a.started_at == b.started_at && text_lt(
        b.id.as_str(),
        a.id.as_str(),
    ))
}

/// A session without its transcript.
fn summary_of(s: &Session) -> (r: SessionSummary)
    ensures
        r@ == summarized(s@),
{
    let n = length_before_nul(&chars_of(s.transcript.as_str()));
    SessionSummary {
        id: s.id.clone(),
        job_id: copy_option(&s.job_id),
        status: s.status,
        summary: copy_option(&s.summary),
        started_at: s.started_at,
        ended_at: s.ended_at,
        transcript_chars: n as u64,
    }
}

fn summaries_of(sessions: Vec<Session>) -> (r: Vec<SessionSummary>)
    ensures
        r.len() == sessions.len(),
        forall|i: int| 0 <= i < r.len() ==> (#[trigger] r@[i])@ == summarized(sessions@[i]@),
{
    let mut out: Vec<SessionSummary> = Vec::new();
    let mut i: usize = 0;
    while i < sessions.len()
        invariant
            i <= sessions.len(),
            out.len() == i,
            forall|j: int| 0 <= j < i ==> (#[trigger] out@[j])@ == summarized(sessions@[j]@),
        decreases sessions.len() - i,
    {
        out.push(summary_of(&sessions[i]));
        i = i + 1;
    }
    out
}

impl Store {
    /// Finds a live session.
    pub(crate) fn live_session(&self, id: &str) -> (r: Option<usize>)
        requires
            self.wf(),
        ensures
            match r {
                Some(i) => i < self.sessions.len() && self.sessions@[i as int]@.session.id == id@
                    && self.sessions@[i as int].deleted_at is None && self@.session(id@) == Some(
                    self.sessions@[i as int].session@,
                ),
                None => self@.session(id@) is None,
            },
    {
        match find(&self.sessions, id) {
            Some(i) => if self.sessions[i].deleted_at.is_none() {
                Some(i)
            } else {
                None
            },
            None => None,
        }
    }

    /// Starts a recording session. A job is optional; one that is named must
    /// exist.
    pub fn start_session(&mut self, job_id: Option<&str>) -> (r: Result<Session, CoreError>)
        requires
            old(self).wf(),
        ensures
            final(self).wf(),
            exists|st: StampView| #[trigger]
                old(self)@.gives(st) && (final(self)@, result_view(r)) == started(
                    old(self)@,
                    str_option(job_id),
                    st,
                ),
    {
        let st = self.stamp();
        self.start_session_as(job_id, st)
    }

    /// Starts a recording session under the given id and time.
    pub fn start_session_as(&mut self, job_id: Option<&str>, st: Stamp) -> (r: Result<
        Session,
        CoreError,
    >)
        requires
            old(self).wf(),
        ensures
            final(self).wf(),
            (final(self)@, result_view(r)) == started(old(self)@, str_option(job_id), st@),
    {
        if let Some(jid) = job_id {
            match self.get_job(jid) {
                Ok(_) => {},
                Err(e) => {
                    return Err(e);
                },
            }
        }
        if find(&self.sessions, st.id.as_str()).is_some() {
            return Err(duplicate_error("sessions.id"));
        }
        let session = Session {
            id: st.id,
            job_id: own_option(job_id),
            template: None,
            status: SessionStatus::Recording,
            transcript: String::new(),
            summary: None,
            started_at: st.now,
            ended_at: None,
            created_at: st.now,
            updated_at: st.now,
            device_id: self.device_id.clone(),
        };
        let row = SessionRow { session: session.clone(), deleted_at: None };
        insert_row(&mut self.sessions, row);
        Ok(session)
    }

    /// Appends a transcript chunk. Call it per segment: what was appended is
    /// kept whatever happens next.
    pub fn append_transcript(&mut self, id: &str, chunk: &str) -> (r: Result<(), CoreError>)
        requires
            old(self).wf(),
        ensures
            final(self).wf(),
            exists|now: u64| #[trigger]
                old(self)@.clock.shows(now) && (final(self)@, unit_result(r)) == appended(
                    old(self)@,
                    id@,
                    chunk@,
                    now,
                ),
    {
        let now = self.now();
        match self.live_session(id) {
            None => Err(CoreError::NotFound { entity: "session", id: id.to_string() }),
            Some(i) => {
                let status = self.sessions[i].session.status;
                if status != SessionStatus::Recording {
                    return Err(
                        CoreError::InvalidState(
                            concat3("cannot append transcript to a ", status.as_str(), " session"),
                        ),
                    );
                }
                let ghost before = self.sessions@;
                let row = &mut self.sessions[i];
                row.session.transcript.append(chunk);
                row.session.updated_at = now;
                proof {
                    lemma_replaced(before, i as int, self.sessions@[i as int]);
                }
                Ok(())
            },
        }
    }

    /// Starts a session together with its template: either both are written or
    /// nothing is.
    pub fn start_session_with_template(&mut self, job_id: Option<&str>, template: &str) -> (r:
        Result<Session, CoreError>)
        requires
            old(self).wf(),
        ensures
            final(self).wf(),
            exists|st: StampView| #[trigger]
                old(self)@.gives(st) && (final(self)@, result_view(r))
                    == started_with_template(old(self)@, str_option(job_id), template@, st),
    {
        let st = self.stamp();
        self.start_session_with_template_as(job_id, template, st)
    }

    /// The same, under the given id and time.
    pub fn start_session_with_template_as(
        &mut self,
        job_id: Option<&str>,
        template: &str,
        st: Stamp,
    ) -> (r: Result<Session, CoreError>)
        requires
            old(self).wf(),
        ensures
            final(self).wf(),
            (final(self)@, result_view(r)) == started_with_template(
                old(self)@,
                str_option(job_id),
                template@,
                st@,
            ),
    {
        let id = st.id.clone();
        let now = st.now;
        match self.start_session_as(job_id, st) {
            Err(e) => Err(e),
            Ok(session) => {
                let ghost mid = self@;
                assert(mid.session(id@) == Some(session@));
                match self.set_session_template_at(id.as_str(), template, now) {
                    Err(e) => Err(e),
                    Ok(_) => {
                        let mut out = session;
                        out.template = Some(template.to_string());
                        Ok(out)
                    },
                }
            },
        }
    }

    /// Sets the template key of a session that is still recording.
    /// Reprocessing must stay consistent, so the key cannot change later.
    pub fn set_session_template(&mut self, id: &str, template: &str) -> (r: Result<(), CoreError>)
        requires
            old(self).wf(),
        ensures
            final(self).wf(),
            exists|now: u64| #[trigger]
                old(self)@.clock.shows(now) && (final(self)@, unit_result(r)) == templated(
                    old(self)@,
                    id@,
                    template@,
                    now,
                ),
    {
        let now = self.now();
        self.set_session_template_at(id, template, now)
    }

    fn set_session_template_at(&mut self, id: &str, template: &str, now: u64) -> (r: Result<
        (),
        CoreError,
    >)
        requires
            old(self).wf(),
        ensures
            final(self).wf(),
            (final(self)@, unit_result(r)) == templated(old(self)@, id@, template@, now),
    {
        match self.live_session(id) {
            None => Err(CoreError::NotFound { entity: "session", id: id.to_string() }),
            Some(i) => {
                let status = self.sessions[i].session.status;
                if status != SessionStatus::Recording {
                    return Err(
                        CoreError::InvalidState(
                            concat3("cannot set template on a ", status.as_str(), " session"),
                        ),
                    );
                }
                let ghost before = self.sessions@;
                let row = &mut self.sessions[i];
                row.session.template = Some(template.to_string());
                row.session.updated_at = now;
                proof {
                    lemma_replaced(before, i as int, self.sessions@[i as int]);
                }
                Ok(())
            },
        }
    }

    /// Ends recording; the session queues for processing.
    pub fn end_session(&mut self, id: &str) -> (r: Result<Session, CoreError>)
        requires
            old(self).wf(),
        ensures
            final(self).wf(),
            exists|now: u64| #[trigger]
                old(self)@.clock.shows(now) && (final(self)@, result_view(r)) == ended(
                    old(self)@,
                    id@,
                    now,
                ),
    {
        let now = self.now();
        self.end_session_at(id, now)
    }

    /// Ends recording at the given time.
    pub fn end_session_at(&mut self, id: &str, now: u64) -> (r: Result<Session, CoreError>)
        requires
            old(self).wf(),
        ensures
            final(self).wf(),
            (final(self)@, result_view(r)) == ended(old(self)@, id@, now),
    {
        match self.live_session(id) {
            None => Err(CoreError::NotFound { entity: "session", id: id.to_string() }),
            Some(i) => {
                let status = self.sessions[i].session.status;
                if status != SessionStatus::Recording {
                    return Err(
                        CoreError::InvalidState(
                            concat3("cannot end a ", status.as_str(), " session"),
                        ),
                    );
                }
                let ghost before = self.sessions@;
                let row = &mut self.sessions[i];
                row.session.status = SessionStatus::AwaitingProcessing;
                row.session.ended_at = Some(now);
                row.session.updated_at = now;
                proof {
                    lemma_replaced(before, i as int, self.sessions@[i as int]);
                }
                Ok(self.sessions[i].session.clone())
            },
        }
    }

    /// Marks a session as processed, with its summary.
    pub fn mark_session_processed(&mut self, id: &str, summary: &str) -> (r: Result<
        Session,
        CoreError,
    >)
        requires
            old(self).wf(),
        ensures
            final(self).wf(),
            exists|now: u64| #[trigger]
                old(self)@.clock.shows(now) && (final(self)@, result_view(r)) == moved_on(
                    old(self)@,
                    id@,
                    SessionStatus::Processed,
                    Some(summary@),
                    now,
                ),
    {
        let now = self.now();
        self.transition_ended(id, SessionStatus::Processed, Some(summary), now)
    }

    /// Marks a session's processing as failed. It can be retried.
    pub fn mark_session_failed(&mut self, id: &str) -> (r: Result<Session, CoreError>)
        requires
            old(self).wf(),
        ensures
            final(self).wf(),
            exists|now: u64| #[trigger]
                old(self)@.clock.shows(now) && (final(self)@, result_view(r)) == moved_on(
                    old(self)@,
                    id@,
                    SessionStatus::Failed,
                    None,
                    now,
                ),
    {
        let now = self.now();
        self.transition_ended(id, SessionStatus::Failed, None, now)
    }

    pub(crate) fn transition_ended(
        &mut self,
        id: &str,
        to: SessionStatus,
        summary: Option<&str>,
        now: u64,
    ) -> (r: Result<Session, CoreError>)
        requires
            old(self).wf(),
        ensures
            final(self).wf(),
            (final(self)@, result_view(r)) == moved_on(
                old(self)@,
                id@,
                to,
                str_option(summary),
                now,
            ),
    {
        match self.live_session(id) {
            None => Err(CoreError::NotFound { entity: "session", id: id.to_string() }),
            Some(i) => {
                match self.sessions[i].session.status {
                    SessionStatus::AwaitingProcessing | SessionStatus::Failed => {},
                    SessionStatus::Recording => {
                        return Err(
                            CoreError::InvalidState("session is still recording".to_string()),
                        );
                    },
                    SessionStatus::Processed => {
                        return Err(CoreError::InvalidState("session already processed".to_string()));
                    },
                }
                let ghost before = self.sessions@;
                let row = &mut self.sessions[i];
                row.session.status = to;
                if summary.is_some() {
                    row.session.summary = own_option(summary);
                }
                row.session.updated_at = now;
                proof {
                    lemma_replaced(before, i as int, self.sessions@[i as int]);
                }
                Ok(self.sessions[i].session.clone())
            },
        }
    }

    /// The session with this id.
    pub fn get_session(&self, id: &str) -> (r: Result<Session, CoreError>)
        requires
            self.wf(),
        ensures
            result_view(r) == (match self@.session(id@) {
                Some(s) => Ok(s),
                None => Err(not_found("session"@, id@)),
            }),
    {
        match self.live_session(id) {
            Some(i) => Ok(self.sessions[i].session.clone()),
            None => Err(CoreError::NotFound { entity: "session", id: id.to_string() }),
        }
    }

    /// The session library, newest first.
    pub fn list_sessions(&self) -> (r: Result<Vec<Session>, CoreError>)
        requires
            self.wf(),
        ensures
            r matches Ok(out) && lists_sessions(self@, |s: SessionView| true, seq_views(out@)),
    {
        let mut keep: Vec<bool> = Vec::new();
        let mut i: usize = 0;
        while i < self.sessions.len()
            invariant
                i <= self.sessions.len(),
                keep.len() == i,
                forall|j: int| 0 <= j < i ==> #[trigger] keep@[j],
            decreases self.sessions.len() - i,
        {
            keep.push(true);
            i = i + 1;
        }
        Ok(self.newest_first(&keep, Ghost(|s: SessionView| true)))
    }

    /// The sessions linked to one job, newest first.
    pub fn list_sessions_by_job(&self, job_id: &str) -> (r: Result<Vec<Session>, CoreError>)
        requires
            self.wf(),
        ensures
            r matches Ok(out) && lists_sessions(
                self@,
                |s: SessionView| s.job_id == Some(job_id@),
                seq_views(out@),
            ),
    {
        let ghost wanted = |s: SessionView| s.job_id == Some(job_id@);
        let mut keep: Vec<bool> = Vec::new();
        let mut i: usize = 0;
        while i < self.sessions.len()
            invariant
                i <= self.sessions.len(),
                keep.len() == i,
                wanted == (|s: SessionView| s.job_id == Some(job_id@)),
                forall|j: int|
                    0 <= j < i ==> (#[trigger] keep@[j]) == wanted(self.sessions@[j].session@),
            decreases self.sessions.len() - i,
        {
            let mine = match &self.sessions[i].session.job_id {
                Some(j) => text_eq(j.as_str(), job_id),
                None => false,
            };
            keep.push(mine);
            i = i + 1;
        }
        Ok(self.newest_first(&keep, Ghost(wanted)))
    }

    /// Text search over transcripts and summaries, newest first. A blank query
    /// finds nothing. One that is too long for a pattern is refused, if there is
    /// any session to hold it against.
    pub fn search_sessions(&self, query: &str) -> (r: Result<Vec<Session>, CoreError>)
        requires
            self.wf(),
        ensures
            match r {
                Ok(out) => if blank(query@) {
                    out.len() == 0
                } else {
                    !search_refused(self@, query@) && lists_sessions(
                        self@,
                        session_hit(query@),
                        seq_views(out@),
                    )
                },
                Err(e) => !blank(query@) && search_refused(self@, query@) && e@
                    == CoreErrorView::Storage("LIKE or GLOB pattern too complex"@),
            },
    {
        if is_blank(query) {
            return Ok(Vec::new());
        }
        let pattern = like_pattern(query);
        if is_too_long(pattern.as_str()) && self.any_session() {
            return Err(CoreError::Storage("LIKE or GLOB pattern too complex".to_string()));
        }
        let mut keep: Vec<bool> = Vec::new();
        let mut i: usize = 0;
        while i < self.sessions.len()
            invariant
                i <= self.sessions.len(),
                keep.len() == i,
                pattern@ == pattern_of(query@),
                forall|j: int|
                    0 <= j < i ==> (#[trigger] keep@[j]) == session_hit(query@)(
                        self.sessions@[j].session@,
                    ),
            decreases self.sessions.len() - i,
        {
            let session = &self.sessions[i].session;
            let found = if like_matches(pattern.as_str(), session.transcript.as_str()) {
                true
            } else {
                match &session.summary {
                    Some(s) => like_matches(pattern.as_str(), s.as_str()),
                    None => false,
                }
            };
            keep.push(found);
            i = i + 1;
        }
        Ok(self.newest_first(&keep, Ghost(session_hit(query@))))
    }

    /// Whether there is a session.
    fn any_session(&self) -> (r: bool)
        requires
            self.wf(),
        ensures
            r == any_session(self@),
    {
        match self.list_sessions() {
            Ok(all) => {
                proof {
                    let views = seq_views(all@);
                    let keep = |s: SessionView| true;
                    assert(lists_sessions(self@, keep, views));
                    if all@.len() > 0 {
                        assert(self@.session(views[0].id) is Some);
                    }
                    if any_session(self@) {
                        let id = choose|id: Seq<char>| (#[trigger] self@.session(id)) is Some;
                        assert(keep(self@.session(id)->0));
                    }
                }
                all.len() > 0
            },
            Err(_) => false,
        }
    }

    /// The sessions in one status, newest first.
    pub fn list_sessions_by_status(&self, status: SessionStatus) -> (r: Result<
        Vec<Session>,
        CoreError,
    >)
        requires
            self.wf(),
        ensures
            r matches Ok(out) && lists_sessions(
                self@,
                |s: SessionView| s.status == status,
                seq_views(out@),
            ),
    {
        Ok(self.with_status(status))
    }

    fn with_status(&self, status: SessionStatus) -> (r: Vec<Session>)
        requires
            self.wf(),
        ensures
            lists_sessions(self@, |s: SessionView| s.status == status, seq_views(r@)),
    {
        let ghost wanted = |s: SessionView| s.status == status;
        let mut keep: Vec<bool> = Vec::new();
        let mut i: usize = 0;
        while i < self.sessions.len()
            invariant
                i <= self.sessions.len(),
                keep.len() == i,
                wanted == (|s: SessionView| s.status == status),
                forall|j: int|
                    0 <= j < i ==> (#[trigger] keep@[j]) == wanted(self.sessions@[j].session@),
            decreases self.sessions.len() - i,
        {
            keep.push(self.sessions[i].session.status == status);
            i = i + 1;
        }
        self.newest_first(&keep, Ghost(wanted))
    }

    /// The library without transcripts, newest first.
    pub fn list_session_summaries(&self) -> (r: Result<Vec<SessionSummary>, CoreError>)
        requires
            self.wf(),
        ensures
            r matches Ok(out) && lists_summaries(self@, |s: SessionView| true, seq_views(out@)),
    {
        match self.list_sessions() {
            Ok(full) => {
                let ghost views = seq_views(full@);
                let out = summaries_of(full);
                assert(lists_sessions(self@, |s: SessionView| true, views));
                assert forall|i: int| 0 <= i < out.len() implies #[trigger] seq_views(out@)[i]
                    == summarized(views[i]) by {
                    assert(out@[i]@ == summarized(full@[i]@));
                }
                Ok(out)
            },
            Err(e) => Err(e),
        }
    }

    /// The sessions in one status without transcripts, newest first.
    pub fn list_session_summaries_by_status(&self, status: SessionStatus) -> (r: Result<
        Vec<SessionSummary>,
        CoreError,
    >)
        requires
            self.wf(),
        ensures
            r matches Ok(out) && lists_summaries(
                self@,
                |s: SessionView| s.status == status,
                seq_views(out@),
            ),
    {
        let full = self.with_status(status);
        let ghost views = seq_views(full@);
        let out = summaries_of(full);
        assert(lists_sessions(self@, |s: SessionView| s.status == status, views));
        assert forall|i: int| 0 <= i < out.len() implies #[trigger] seq_views(out@)[i]
            == summarized(views[i]) by {
            assert(out@[i]@ == summarized(full@[i]@));
        }
        Ok(out)
    }

    /// The live sessions that are marked to keep, newest first.
    pub(crate) fn newest_first(
        &self,
        keep: &Vec<bool>,
        wanted: Ghost<spec_fn(SessionView) -> bool>,
    ) -> (r: Vec<Session>)
        requires
            self.wf(),
            keep.len() == self.sessions.len(),
            forall|j: int|
                0 <= j < keep.len() ==> (#[trigger] keep@[j]) == (wanted@)(
                    self.sessions@[j].session@,
                ),
        ensures
            lists_sessions(self@, wanted@, seq_views(r@)),
    {
        let mut out: Vec<Session> = Vec::new();
        let ghost mut from: Seq<int> = Seq::empty();
        let mut i: usize = 0;
        while i < self.sessions.len()
            invariant
                i <= self.sessions.len(),
                self.wf(),
                keep.len() == self.sessions.len(),
                from.len() == out.len(),
                forall|j: int|
                    0 <= j < from.len() ==> 0 <= (#[trigger] from[j]) < i && out@[j]@
                        == self.sessions@[from[j]].session@
                        && self.sessions@[from[j]].deleted_at is None && keep@[from[j]],
                forall|a: int, b: int|
                    0 <= a < b < out.len() ==> newer((#[trigger] out@[a])@, (#[trigger] out@[b])@),
                forall|k: int|
                    0 <= k < i && #[trigger] keep@[k] && self.sessions@[k].deleted_at is None
                        ==> from.contains(k),
            decreases self.sessions.len() - i,
        {
            if keep[i] && self.sessions[i].deleted_at.is_none() {
                let session = self.sessions[i].session.clone();
                let mut at: usize = 0;
                while at < out.len() && is_newer(&out[at], &session)
                    invariant
                        at <= out.len(),
                        forall|a: int| 0 <= a < at ==> newer((#[trigger] out@[a])@, session@),
                    decreases out.len() - at,
                {
                    at = at + 1;
                }
                let ghost before = out@;
                let ghost seen = from;
                proof {
                    assert forall|a: int| at <= a < before.len() implies newer(
                        session@,
                        (#[trigger] before[a])@,
                    ) by {
                        let first = before[at as int]@;
                        assert(lex_lt(
                            self.sessions@[from[at as int]]@.session.id,
                            self.sessions@[i as int]@.session.id,
                        ));
                        lemma_lex_irreflexive(session@.id);
                        lemma_newer_total(session@, first);
                        if a > at {
                            lemma_newer_transitive(session@, first, before[a]@);
                        }
                    }
                }
                out.insert(at, session);
                proof {
                    from = from.insert(at as int, i as int);
                    assert forall|k: int|
                        0 <= k < i + 1 && #[trigger] keep@[k] && self.sessions@[k].deleted_at is None implies from.contains(
                    k) by {
                        if k < i {
                            let j = seen.index_of(k);
                            if j < at {
                                assert(from[j] == k);
                            } else {
                                assert(from[j + 1] == k);
                            }
                        } else {
                            assert(from[at as int] == k);
                        }
                    }
                    assert forall|a: int, b: int| 0 <= a < b < out.len() implies newer(
                        (#[trigger] out@[a])@,
                        (#[trigger] out@[b])@,
                    ) by {
                        let x = if a < at {
                            a
                        } else {
                            a - 1
                        };
                        let y = if b < at {
                            b
                        } else {
                            b - 1
                        };
                        if a != at && b != at {
                            assert(out@[a] == before[x] && out@[b] == before[y]);
                        } else if a == at {
                            assert(out@[b] == before[y]);
                        } else {
                            assert(out@[a] == before[x]);
                        }
                    }
                    assert forall|j: int| 0 <= j < from.len() implies 0 <= (#[trigger] from[j]) < i
                        + 1 && out@[j]@ == self.sessions@[from[j]].session@
                        && self.sessions@[from[j]].deleted_at is None && keep@[from[j]] by {
                        if j < at {
                            assert(from[j] == seen[j] && out@[j] == before[j]);
                        } else if j > at {
                            assert(from[j] == seen[j - 1] && out@[j] == before[j - 1]);
                        }
                    }
                }
            }
            i = i + 1;
        }
        proof {
            let view = seq_views(out@);
            assert forall|a: int, b: int| 0 <= a < b < view.len() implies newer(
                #[trigger] view[a],
                #[trigger] view[b],
            ) by {
                assert(newer(out@[a]@, out@[b]@));
            }
            assert forall|a: int| 0 <= a < view.len() implies self@.session((#[trigger] view[a]).id)
                == Some(view[a]) && (wanted@)(view[a]) by {
                assert(0 <= from[a] < self.sessions.len());
                lemma_at(self.sessions@, from[a]);
            }
            assert forall|id: Seq<char>|
                (#[trigger] self@.session(id)) is Some && (wanted@)(
                    self@.session(id)->0,
                ) implies exists|a: int|
                0 <= a < view.len() && #[trigger] view[a] == self@.session(id)->0 by {
                let k = index_of_key(self.sessions@, id);
                assert(0 <= k < self.sessions.len() && self.sessions@[k].session@.id == id);
                assert(keep@[k]);
                let a = from.index_of(k);
                assert(from[a] == k);
                assert(view[a] == out@[a]@);
            }
        }
        out
    }
}

/// A borrowed optional text.
pub open spec fn str_option(o: Option<&str>) -> Option<Seq<char>> {
    match o {
        Some(s) => Some(s@),
        None => None,
    }
}

} // verus!
