//! Operations that write several tables at once. Each of them either writes
//! all it says or leaves the store as it was.

use vstd::prelude::*;
use crate::harness::llm::Usage;
use crate::notes::domain::Session;
use crate::notes::domain::SessionStatus;
use crate::notes::domain::SessionView;
use crate::notes::error::CoreError;
use crate::notes::error::CoreErrorView;
use crate::notes::store::artifacts::artifacts_swept;
use crate::notes::store::artifacts::artifacts_taken;
use crate::notes::store::artifacts::sweep_artifacts;
use crate::notes::store::duplicate_error;
use crate::notes::store::items::items_swept;
use crate::notes::store::items::items_taken;
use crate::notes::store::items::Sweep;
use crate::notes::store::items::sweep_items;
use crate::notes::store::items::SweepView;
use crate::notes::store::not_found;
use crate::notes::store::reflection::session_counted;
use crate::notes::store::SessionRowView;
use crate::notes::store::sessions::ended;
use crate::notes::store::sessions::moved_on;
use crate::notes::store::Stamp;
use crate::notes::store::StampView;
use crate::notes::store::Store;
use crate::notes::store::StoreView;
use crate::notes::store::table::lemma_replaced;
use crate::notes::store::usage::usage_recorded;
use crate::views::result_view;
use crate::views::seq_views;
use crate::views::unit_result;

verus! {

/// A row marked as deleted.
pub open spec fn session_buried(row: SessionRowView, now: u64) -> SessionRowView {
    SessionRowView {
        session: SessionView { updated_at: now, ..row.session },
        deleted_at: Some(now),
    }
}

/// Deleting a session, with all its live items and artifacts.
pub open spec fn session_deleted(v: StoreView, id: Seq<char>, now: u64) -> (
    StoreView,
    Result<(), CoreErrorView>,
) {
    if v.session(id) is None {
        (v, Err(not_found("session"@, id)))
    } else {
        (
            StoreView {
                sessions: v.sessions.insert(id, session_buried(v.sessions[id], now)),
                items: items_swept(v.items, id, SweepView::All, now),
                artifacts: artifacts_swept(v.artifacts, id, now),
                ..v
            },
            Ok(()),
        )
    }
}

/// Ending a session and counting it for the reflection cadence.
pub open spec fn ended_and_recorded(v: StoreView, id: Seq<char>, now: u64) -> (
    StoreView,
    Result<SessionView, CoreErrorView>,
) {
    match ended(v, id, now) {
        (_, Err(e)) => (v, Err(e)),
        (w, Ok(s)) => (session_counted(w), Ok(s)),
    }
}

/// The most items of its own that a run may bring to its end: the storage takes
/// no more values in one statement.
pub const RUN_ITEMS: usize = 32_764;

/// The refusal of more.
pub open spec fn too_many_items() -> CoreErrorView {
    CoreErrorView::Storage("variable number must be between ?1 and ?32766"@)
}

/// The successful end of processing: the old board makes way for the items that
/// this run wrote, the session is processed, and the cost is logged.
pub open spec fn finished_processed(
    v: StoreView,
    id: Seq<char>,
    summary: Seq<char>,
    usage: Usage,
    run_item_ids: Seq<Seq<char>>,
    st: StampView,
) -> (StoreView, Result<SessionView, CoreErrorView>) {
    let swapped = StoreView {
        items: items_swept(v.items, id, SweepView::Swap(run_item_ids), st.now),
        ..v
    };
    if run_item_ids.len() > RUN_ITEMS {
        (v, Err(too_many_items()))
    } else {
        match moved_on(swapped, id, SessionStatus::Processed, Some(summary), st.now) {
            (_, Err(e)) => (v, Err(e)),
            (w, Ok(s)) => match usage_recorded(w, Some(id), "processing"@, usage, st) {
                (_, Err(e)) => (v, Err(e)),
                (x, Ok(_)) => (x, Ok(s)),
            },
        }
    }
}

/// The failed end of processing: the session is marked and the cost is logged.
/// No item is touched.
pub open spec fn finished_failed(v: StoreView, id: Seq<char>, usage: Usage, st: StampView) -> (
    StoreView,
    Result<(), CoreErrorView>,
) {
    match moved_on(v, id, SessionStatus::Failed, None, st.now) {
        (_, Err(e)) => (v, Err(e)),
        (w, Ok(_)) => match usage_recorded(w, Some(id), "processing"@, usage, st) {
            (_, Err(e)) => (v, Err(e)),
            (x, Ok(_)) => (x, Ok(())),
        },
    }
}

/// Two counts together, held at the largest count there is.
pub open spec fn counted_together(a: nat, b: nat) -> usize {
    if a + b > usize::MAX {
        usize::MAX
    } else {
        (a + b) as usize
    }
}

/// Clearing what an earlier run wrote: authoritative items and all artifacts,
/// never a live or manual item.
pub open spec fn outputs_cleared(v: StoreView, id: Seq<char>, now: u64) -> (
    StoreView,
    Result<usize, CoreErrorView>,
) {
    if v.session(id) is None {
        (v, Err(not_found("session"@, id)))
    } else {
        (
            StoreView {
                items: items_swept(v.items, id, SweepView::Authoritative, now),
                artifacts: artifacts_swept(v.artifacts, id, now),
                ..v
            },
            Ok(
                counted_together(
                    items_taken(v.items, id, SweepView::Authoritative),
                    artifacts_taken(v.artifacts, id),
                ),
            ),
        )
    }
}

/// The outcome of a clearing.
pub open spec fn count_result(r: Result<usize, CoreError>) -> Result<usize, CoreErrorView> {
    match r {
        Ok(n) => Ok(n),
        Err(e) => Err(e@),
    }
}

impl Store {
    /// Deletes a session together with its live items and artifacts. Children
    /// that were deleted before keep their own time of deletion.
    pub fn delete_session(&mut self, id: &str) -> (r: Result<(), CoreError>)
        requires
            old(self).wf(),
        ensures
            final(self).wf(),
            exists|now: u64| #[trigger]
                old(self)@.clock.shows(now) && (final(self)@, unit_result(r)) == session_deleted(
                    old(self)@,
                    id@,
                    now,
                ),
    {
        let now = self.now();
        match self.live_session(id) {
            None => Err(CoreError::NotFound { entity: "session", id: id.to_string() }),
            Some(i) => {
                let ghost before = self.sessions@;
                let row = &mut self.sessions[i];
                row.deleted_at = Some(now);
                row.session.updated_at = now;
                proof {
                    lemma_replaced(before, i as int, self.sessions@[i as int]);
                }
                sweep_items(&mut self.items, id, &Sweep::All, now);
                sweep_artifacts(&mut self.artifacts, id, now);
                Ok(())
            },
        }
    }

    /// Ends a session and counts it for the reflection cadence, in one step so
    /// that no caller can forget the second half.
    pub fn end_and_record_session(&mut self, id: &str) -> (r: Result<Session, CoreError>)
        requires
            old(self).wf(),
        ensures
            final(self).wf(),
            exists|now: u64| #[trigger]
                old(self)@.clock.shows(now) && (final(self)@, result_view(r))
                    == ended_and_recorded(old(self)@, id@, now),
    {
        let now = self.now();
        match self.end_session_at(id, now) {
            Err(e) => Err(e),
            Ok(session) => match self.record_session_completed() {
                Err(e) => Err(e),
                Ok(_) => Ok(session),
            },
        }
    }

    /// The successful end of processing. In one step: every live item, and
    /// every authoritative item that this run did not write, makes way; the
    /// session is processed; the cost is logged. Manual items stay.
    pub fn finish_session_processed(
        &mut self,
        session_id: &str,
        summary: &str,
        usage: &Usage,
        run_item_ids: &[String],
    ) -> (r: Result<Session, CoreError>)
        requires
            old(self).wf(),
        ensures
            final(self).wf(),
            exists|st: StampView| #[trigger]
                old(self)@.gives(st) && (final(self)@, result_view(r))
                    == finished_processed(
                    old(self)@,
                    session_id@,
                    summary@,
                    *usage,
                    seq_views(run_item_ids@),
                    st,
                ),
    {
        let st = self.stamp();
        self.finish_session_processed_as(session_id, summary, usage, run_item_ids, st)
    }

    /// The same, under the given id and time.
    pub fn finish_session_processed_as(
        &mut self,
        session_id: &str,
        summary: &str,
        usage: &Usage,
        run_item_ids: &[String],
        st: Stamp,
    ) -> (r: Result<Session, CoreError>)
        requires
            old(self).wf(),
        ensures
            final(self).wf(),
            (final(self)@, result_view(r)) == finished_processed(
                old(self)@,
                session_id@,
                summary@,
                *usage,
                seq_views(run_item_ids@),
                st@,
            ),
    {
        let now = st.now;
        if run_item_ids.len() > RUN_ITEMS {
            return Err(
                CoreError::Storage("variable number must be between ?1 and ?32766".to_string()),
            );
        }
        if self.has_usage_id(st.id.as_str()) && self.can_move_on(session_id) {
            return Err(duplicate_error("llm_usage.id"));
        }
        match self.transition_ended(session_id, SessionStatus::Processed, Some(summary), now) {
            Err(e) => Err(e),
            Ok(session) => {
                sweep_items(&mut self.items, session_id, &Sweep::Swap(run_item_ids), now);
                match self.record_llm_usage_as(Some(session_id), "processing", usage, st) {
                    Err(e) => Err(e),
                    Ok(_) => Ok(session),
                }
            },
        }
    }

    /// Whether the session awaits processing or can be retried.
    fn can_move_on(&self, id: &str) -> (r: bool)
        requires
            self.wf(),
        ensures
            r == (self@.session(id@) is Some && (self@.session(id@)->0.status
                == SessionStatus::AwaitingProcessing || self@.session(id@)->0.status
                == SessionStatus::Failed)),
    {
        match self.live_session(id) {
            None => false,
            Some(i) => self.sessions[i].session.status == SessionStatus::AwaitingProcessing
                || self.sessions[i].session.status == SessionStatus::Failed,
        }
    }

    /// The failed end of processing: the session can be retried and the cost is
    /// logged. The board is not touched.
    pub fn finish_session_failed(&mut self, session_id: &str, usage: &Usage) -> (r: Result<
        (),
        CoreError,
    >)
        requires
            old(self).wf(),
        ensures
            final(self).wf(),
            exists|st: StampView| #[trigger]
                old(self)@.gives(st) && (final(self)@, unit_result(r))
                    == finished_failed(old(self)@, session_id@, *usage, st),
    {
        let st = self.stamp();
        self.finish_session_failed_as(session_id, usage, st)
    }

    /// The same, under the given id and time.
    pub fn finish_session_failed_as(&mut self, session_id: &str, usage: &Usage, st: Stamp) -> (r:
        Result<(), CoreError>)
        requires
            old(self).wf(),
        ensures
            final(self).wf(),
            (final(self)@, unit_result(r)) == finished_failed(
                old(self)@,
                session_id@,
                *usage,
                st@,
            ),
    {
        let now = st.now;
        if self.has_usage_id(st.id.as_str()) && self.can_move_on(session_id) {
            return Err(duplicate_error("llm_usage.id"));
        }
        match self.transition_ended(session_id, SessionStatus::Failed, None, now) {
            Err(e) => Err(e),
            Ok(_) => match self.record_llm_usage_as(Some(session_id), "processing", usage, st) {
                Err(e) => Err(e),
                Ok(_) => Ok(()),
            },
        }
    }

    /// Clears what an earlier run wrote, before another attempt: authoritative
    /// items and all artifacts, which only processing writes. The live board and
    /// manual items stay. Returns how many rows were taken.
    pub fn clear_authoritative_outputs(&mut self, session_id: &str) -> (r: Result<
        usize,
        CoreError,
    >)
        requires
            old(self).wf(),
        ensures
            final(self).wf(),
            exists|now: u64| #[trigger]
                old(self)@.clock.shows(now) && (final(self)@, count_result(r)) == outputs_cleared(
                    old(self)@,
                    session_id@,
                    now,
                ),
    {
        let now = self.now();
        if self.live_session(session_id).is_none() {
            return Err(CoreError::NotFound { entity: "session", id: session_id.to_string() });
        }
        let items = sweep_items(&mut self.items, session_id, &Sweep::Authoritative, now);
        let artifacts = sweep_artifacts(&mut self.artifacts, session_id, now);
        Ok(items.saturating_add(artifacts))
    }
}

} // verus!
