//! Artifacts: generated documents of any kind that hang off a session.

use vstd::prelude::*;
use crate::notes::domain::Artifact;
use crate::notes::domain::ArtifactView;
use crate::notes::error::CoreError;
use crate::notes::error::CoreErrorView;
use crate::notes::store::ArtifactRow;
use crate::notes::store::ArtifactRowView;
use crate::notes::store::duplicate;
use crate::notes::store::duplicate_error;
use crate::notes::store::not_found;
use crate::notes::store::Stamp;
use crate::notes::store::StampView;
use crate::notes::store::Store;
use crate::notes::store::StoreView;
use crate::notes::store::table::find;
use crate::notes::store::table::in_order;
use crate::notes::store::table::index_of_key;
use crate::notes::store::table::insert_row;
use crate::notes::store::table::lemma_at;
use crate::notes::store::table::lemma_count;
use crate::notes::store::table::lemma_mapped;
use crate::notes::store::table::lemma_replaced;
use crate::notes::store::table::map_count;
use crate::notes::store::table::row_count;
use crate::notes::store::table::table;
use crate::text::lemma_lex_irreflexive;
use crate::text::lemma_lex_total;
use crate::text::lemma_lex_transitive;
use crate::text::lex_lt;
use crate::text::text_eq;
use crate::views::option_view;
use crate::views::result_view;
use crate::views::seq_views;
use crate::views::unit_result;

verus! {

/// An artifact as it is written.
pub open spec fn fresh_artifact(
    session_id: Seq<char>,
    kind: Seq<char>,
    title: Seq<char>,
    body: Seq<char>,
    device_id: Seq<char>,
    st: StampView,
) -> ArtifactView {
    ArtifactView {
        id: st.id,
        session_id,
        kind,
        title,
        body,
        created_at: st.now,
        updated_at: st.now,
        device_id,
    }
}

/// Adding an artifact to a session that exists.
pub open spec fn artifact_added(
    v: StoreView,
    session_id: Seq<char>,
    kind: Seq<char>,
    title: Seq<char>,
    body: Seq<char>,
    st: StampView,
) -> (StoreView, Result<ArtifactView, CoreErrorView>) {
    if v.session(session_id) is None {
        (v, Err(not_found("session"@, session_id)))
    } else if v.artifacts.contains_key(st.id) {
        (v, Err(duplicate("artifacts.id"@)))
    } else {
        let artifact = fresh_artifact(session_id, kind, title, body, v.device_id, st);
        (
            StoreView {
                artifacts: v.artifacts.insert(
                    st.id,
                    ArtifactRowView { artifact, deleted_at: None },
                ),
                ..v
            },
            Ok(artifact),
        )
    }
}

/// Replacing an artifact's body.
pub open spec fn artifact_edited(v: StoreView, id: Seq<char>, body: Seq<char>, now: u64) -> (
    StoreView,
    Result<ArtifactView, CoreErrorView>,
) {
    match v.artifact(id) {
        None => (v, Err(not_found("artifact"@, id))),
        Some(artifact) => {
            let changed = ArtifactView { body, updated_at: now, ..artifact };
            (
                StoreView {
                    artifacts: v.artifacts.insert(
                        id,
                        ArtifactRowView { artifact: changed, deleted_at: None },
                    ),
                    ..v
                },
                Ok(changed),
            )
        },
    }
}

/// A row marked as deleted.
pub open spec fn artifact_buried(row: ArtifactRowView, now: u64) -> ArtifactRowView {
    ArtifactRowView {
        artifact: ArtifactView { updated_at: now, ..row.artifact },
        deleted_at: Some(now),
    }
}

/// Deleting an artifact.
pub open spec fn artifact_deleted(v: StoreView, id: Seq<char>, now: u64) -> (
    StoreView,
    Result<(), CoreErrorView>,
) {
    if v.artifact(id) is None {
        (v, Err(not_found("artifact"@, id)))
    } else {
        (
            StoreView {
                artifacts: v.artifacts.insert(id, artifact_buried(v.artifacts[id], now)),
                ..v
            },
            Ok(()),
        )
    }
}

/// A live artifact of the session.
pub open spec fn artifact_taken(session_id: Seq<char>) -> spec_fn(ArtifactRowView) -> bool {
    |row: ArtifactRowView| row.deleted_at is None && row.artifact.session_id == session_id
}

/// A sweep of the session's artifacts, row by row.
pub open spec fn swept_artifact(
    session_id: Seq<char>,
    now: u64,
) -> spec_fn(ArtifactRowView) -> ArtifactRowView {
    |row: ArtifactRowView|
        if artifact_taken(session_id)(row) {
            artifact_buried(row, now)
        } else {
            row
        }
}

/// The artifacts after a sweep.
pub open spec fn artifacts_swept(
    artifacts: Map<Seq<char>, ArtifactRowView>,
    session_id: Seq<char>,
    now: u64,
) -> Map<Seq<char>, ArtifactRowView> {
    artifacts.map_values(swept_artifact(session_id, now))
}

/// How many artifacts a sweep takes.
pub open spec fn artifacts_taken(
    artifacts: Map<Seq<char>, ArtifactRowView>,
    session_id: Seq<char>,
) -> nat {
    map_count(artifacts, artifact_taken(session_id))
}

/// The session's artifacts in the order of their ids: nothing is left out,
/// nothing is added, nothing comes twice.
pub open spec fn lists_artifacts(
    v: StoreView,
    session_id: Seq<char>,
    out: Seq<ArtifactView>,
) -> bool {
    &&& forall|i: int, j: int|
        0 <= i < j < out.len() ==> lex_lt((#[trigger] out[i]).id, (#[trigger] out[j]).id)
    &&& forall|i: int|
        0 <= i < out.len() ==> v.artifact((#[trigger] out[i]).id) == Some(out[i])
            && out[i].session_id == session_id
    &&& forall|id: Seq<char>|
        (#[trigger] v.artifact(id)) is Some && v.artifact(id)->0.session_id == session_id
            ==> exists|i: int| 0 <= i < out.len() && #[trigger] out[i] == v.artifact(id)->0
}

/// A live document of the session.
pub open spec fn is_document(v: StoreView, session_id: Seq<char>, a: ArtifactView) -> bool {
    v.artifact(a.id) == Some(a) && a.session_id == session_id && a.kind == "document"@
}

/// The session's document with the greatest id.
pub open spec fn is_latest_document(v: StoreView, session_id: Seq<char>, a: ArtifactView) -> bool {
    is_document(v, session_id, a) && forall|b: ArtifactView| #[trigger]
        is_document(v, session_id, b) ==> !lex_lt(a.id, b.id)
}

/// The session's latest document, if it has any.
pub open spec fn latest_document(v: StoreView, session_id: Seq<char>) -> Option<ArtifactView> {
    if exists|a: ArtifactView| is_latest_document(v, session_id, a) {
        Some(choose|a: ArtifactView| is_latest_document(v, session_id, a))
    } else {
        None
    }
}

/// There is at most one latest document.
pub proof fn lemma_latest_document(v: StoreView, session_id: Seq<char>, a: ArtifactView)
    requires
        is_latest_document(v, session_id, a),
    ensures
        latest_document(v, session_id) == Some(a),
{
    let b = latest_document(v, session_id)->0;
    assert(is_latest_document(v, session_id, b));
    lemma_lex_total(a.id, b.id);
}

/// Sweeps a session's artifacts and counts what was taken.
pub(crate) fn sweep_artifacts(
    artifacts: &mut Vec<ArtifactRow>,
    session_id: &str,
    now: u64,
) -> (r: usize)
    requires
        in_order(old(artifacts)@),
    ensures
        in_order(final(artifacts)@),
        table(final(artifacts)@) == artifacts_swept(table(old(artifacts)@), session_id@, now),
        r as nat == artifacts_taken(table(old(artifacts)@), session_id@),
        r <= old(artifacts)@.len(),
{
    let ghost before = artifacts@;
    let ghost f = swept_artifact(session_id@, now);
    let ghost p = artifact_taken(session_id@);
    let mut taken: usize = 0;
    let mut i: usize = 0;
    while i < artifacts.len()
        invariant
            i <= artifacts.len(),
            taken <= i,
            artifacts@.len() == before.len(),
            f == swept_artifact(session_id@, now),
            p == artifact_taken(session_id@),
            forall|j: int| 0 <= j < i ==> (#[trigger] artifacts@[j])@ == f(before[j]@),
            forall|j: int| i <= j < artifacts.len() ==> #[trigger] artifacts@[j] == before[j],
            taken as nat == row_count(before.take(i as int), p),
        decreases artifacts.len() - i,
    {
        proof {
            assert(before.take(i + 1).drop_last() =~= before.take(i as int));
            assert(before.take(i + 1).last() == before[i as int]);
        }
        if artifacts[i].deleted_at.is_none() && text_eq(
            artifacts[i].artifact.session_id.as_str(),
            session_id,
        ) {
            let row = &mut artifacts[i];
            row.deleted_at = Some(now);
            row.artifact.updated_at = now;
            taken = taken + 1;
        }
        i = i + 1;
    }
    proof {
        assert(before.take(before.len() as int) =~= before);
        lemma_mapped(before, artifacts@, f);
        lemma_count(before, p);
    }
    taken
}

impl Store {
    /// Adds an artifact to a session. The store does not care what its kind
    /// means.
    pub fn add_artifact(&mut self, session_id: &str, kind: &str, title: &str, body: &str) -> (r:
        Result<Artifact, CoreError>)
        requires
            old(self).wf(),
        ensures
            final(self).wf(),
            exists|st: StampView| #[trigger]
                old(self)@.gives(st) && (final(self)@, result_view(r)) == artifact_added(
                    old(self)@,
                    session_id@,
                    kind@,
                    title@,
                    body@,
                    st,
                ),
    {
        let st = self.stamp();
        self.add_artifact_as(session_id, kind, title, body, st)
    }

    /// Adds an artifact under the given id and time.
    pub fn add_artifact_as(
        &mut self,
        session_id: &str,
        kind: &str,
        title: &str,
        body: &str,
        st: Stamp,
    ) -> (r: Result<Artifact, CoreError>)
        requires
            old(self).wf(),
        ensures
            final(self).wf(),
            (final(self)@, result_view(r)) == artifact_added(
                old(self)@,
                session_id@,
                kind@,
                title@,
                body@,
                st@,
            ),
    {
        if self.live_session(session_id).is_none() {
            return Err(CoreError::NotFound { entity: "session", id: session_id.to_string() });
        }
        if find(&self.artifacts, st.id.as_str()).is_some() {
            return Err(duplicate_error("artifacts.id"));
        }
        let artifact = Artifact {
            id: st.id,
            session_id: session_id.to_string(),
            kind: kind.to_string(),
            title: title.to_string(),
            body: body.to_string(),
            created_at: st.now,
            updated_at: st.now,
            device_id: self.device_id.clone(),
        };
        let row = ArtifactRow { artifact: artifact.clone(), deleted_at: None };
        insert_row(&mut self.artifacts, row);
        Ok(artifact)
    }

    /// Finds a live artifact.
    fn live_artifact(&self, id: &str) -> (r: Option<usize>)
        requires
            self.wf(),
        ensures
            match r {
                Some(i) => i < self.artifacts.len() && self.artifacts@[i as int]@.artifact.id == id@
                    && self.artifacts@[i as int].deleted_at is None && self@.artifact(id@) == Some(
                    self.artifacts@[i as int].artifact@,
                ) && self@.artifacts[id@] == self.artifacts@[i as int]@,
                None => self@.artifact(id@) is None,
            },
    {
        match find(&self.artifacts, id) {
            Some(i) => if self.artifacts[i].deleted_at.is_none() {
                Some(i)
            } else {
                None
            },
            None => None,
        }
    }

    /// Replaces an artifact's body.
    pub fn update_artifact_body(&mut self, id: &str, body: &str) -> (r: Result<Artifact, CoreError>)
        requires
            old(self).wf(),
        ensures
            final(self).wf(),
            exists|now: u64| #[trigger]
                old(self)@.clock.shows(now) && (final(self)@, result_view(r)) == artifact_edited(
                    old(self)@,
                    id@,
                    body@,
                    now,
                ),
    {
        let now = self.now();
        match self.live_artifact(id) {
            None => Err(CoreError::NotFound { entity: "artifact", id: id.to_string() }),
            Some(i) => {
                let ghost before = self.artifacts@;
                let row = &mut self.artifacts[i];
                row.artifact.body = body.to_string();
                row.artifact.updated_at = now;
                proof {
                    lemma_replaced(before, i as int, self.artifacts@[i as int]);
                }
                Ok(self.artifacts[i].artifact.clone())
            },
        }
    }

    /// The artifact with this id.
    pub fn get_artifact(&self, id: &str) -> (r: Result<Artifact, CoreError>)
        requires
            self.wf(),
        ensures
            result_view(r) == (match self@.artifact(id@) {
                Some(artifact) => Ok(artifact),
                None => Err(not_found("artifact"@, id@)),
            }),
    {
        match self.live_artifact(id) {
            Some(i) => Ok(self.artifacts[i].artifact.clone()),
            None => Err(CoreError::NotFound { entity: "artifact", id: id.to_string() }),
        }
    }

    /// Artifacts of one session, in the order of their ids.
    pub fn list_artifacts_for_session(&self, session_id: &str) -> (r: Result<
        Vec<Artifact>,
        CoreError,
    >)
        requires
            self.wf(),
        ensures
            r matches Ok(artifacts) && lists_artifacts(
                self@,
                session_id@,
                seq_views(artifacts@),
            ),
    {
        let mut out: Vec<Artifact> = Vec::new();
        let ghost mut from: Seq<int> = Seq::empty();
        let mut i: usize = 0;
        while i < self.artifacts.len()
            invariant
                i <= self.artifacts.len(),
                self.wf(),
                from.len() == out.len(),
                forall|j: int|
                    0 <= j < from.len() ==> 0 <= (#[trigger] from[j]) < i && out@[j]@
                        == self.artifacts@[from[j]].artifact@ && artifact_taken(session_id@)(
                        self.artifacts@[from[j]]@,
                    ),
                forall|a: int, b: int|
                    0 <= a < b < from.len() ==> (#[trigger] from[a]) < (#[trigger] from[b]),
                forall|k: int|
                    0 <= k < i && artifact_taken(session_id@)((#[trigger] self.artifacts@[k])@)
                        ==> from.contains(k),
            decreases self.artifacts.len() - i,
        {
            let ghost seen = from;
            if self.artifacts[i].deleted_at.is_none() && text_eq(
                self.artifacts[i].artifact.session_id.as_str(),
                session_id,
            ) {
                out.push(self.artifacts[i].artifact.clone());
                proof {
                    from = from.push(i as int);
                    assert forall|k: int|
                        0 <= k < i + 1 && artifact_taken(session_id@)(
                            (#[trigger] self.artifacts@[k])@,
                        ) implies from.contains(k) by {
                        if k < i {
                            let j = seen.index_of(k);
                            assert(from[j] == k);
                        } else {
                            assert(from[from.len() - 1] == k);
                        }
                    }
                }
            }
            i = i + 1;
        }
        proof {
            let view = seq_views(out@);
            assert forall|a: int, b: int| 0 <= a < b < view.len() implies lex_lt(
                (#[trigger] view[a]).id,
                (#[trigger] view[b]).id,
            ) by {
                assert(from[a] < from[b]);
                assert(view[a] == out@[a]@ && view[b] == out@[b]@);
            }
            assert forall|a: int| 0 <= a < view.len() implies self@.artifact(
                (#[trigger] view[a]).id,
            ) == Some(view[a]) && view[a].session_id == session_id@ by {
                assert(0 <= from[a] < self.artifacts.len());
                lemma_at(self.artifacts@, from[a]);
            }
            assert forall|id: Seq<char>|
                (#[trigger] self@.artifact(id)) is Some && self@.artifact(id)->0.session_id
                    == session_id@ implies exists|a: int|
                0 <= a < view.len() && #[trigger] view[a] == self@.artifact(id)->0 by {
                let k = index_of_key(self.artifacts@, id);
                assert(0 <= k < self.artifacts.len() && self.artifacts@[k].artifact@.id == id);
                let a = from.index_of(k);
                assert(from[a] == k);
                assert(view[a] == out@[a]@);
            }
        }
        Ok(out)
    }

    /// The session's most recent document, if it has one. Artifacts of any
    /// other kind are never taken for it.
    pub fn latest_document_artifact(&self, session_id: &str) -> (r: Result<
        Option<Artifact>,
        CoreError,
    >)
        requires
            self.wf(),
        ensures
            r matches Ok(a) && option_view(a) == latest_document(self@, session_id@),
            r matches Ok(None) ==> forall|b: ArtifactView| !#[trigger]
                is_document(self@, session_id@, b),
    {
        let mut left: usize = self.artifacts.len();
        while left > 0
            invariant
                left <= self.artifacts.len(),
                self.wf(),
                forall|k: int|
                    left <= k < self.artifacts.len() ==> !(artifact_taken(session_id@)(
                        (#[trigger] self.artifacts@[k])@,
                    ) && self.artifacts@[k].artifact@.kind == "document"@),
            decreases left,
        {
            left = left - 1;
            let row = &self.artifacts[left];
            if row.deleted_at.is_none() && text_eq(row.artifact.session_id.as_str(), session_id)
                && text_eq(row.artifact.kind.as_str(), "document") {
                proof {
                    let a = row.artifact@;
                    lemma_at(self.artifacts@, left as int);
                    assert forall|b: ArtifactView| #[trigger]
                        is_document(self@, session_id@, b) implies !lex_lt(a.id, b.id) by {
                        let k = index_of_key(self.artifacts@, b.id);
                        assert(self.artifacts@[k].artifact@.id == b.id);
                        lemma_at(self.artifacts@, k);
                        lemma_lex_irreflexive(a.id);
                        if k < left && lex_lt(a.id, b.id) {
                            lemma_lex_transitive(a.id, b.id, a.id);
                        }
                    }
                    assert(is_latest_document(self@, session_id@, a));
                    lemma_latest_document(self@, session_id@, a);
                }
                return Ok(Some(row.artifact.clone()));
            }
        }
        proof {
            assert forall|b: ArtifactView| !#[trigger] is_document(self@, session_id@, b) by {
                if is_document(self@, session_id@, b) {
                    let k = index_of_key(self.artifacts@, b.id);
                    assert(self.artifacts@[k].artifact@.id == b.id);
                    lemma_at(self.artifacts@, k);
                }
            }
            assert forall|b: ArtifactView| !is_latest_document(self@, session_id@, b) by {
                assert(!is_document(self@, session_id@, b));
            }
        }
        Ok(None)
    }

    /// Deletes an artifact.
    pub fn delete_artifact(&mut self, id: &str) -> (r: Result<(), CoreError>)
        requires
            old(self).wf(),
        ensures
            final(self).wf(),
            exists|now: u64| #[trigger]
                old(self)@.clock.shows(now) && (final(self)@, unit_result(r)) == artifact_deleted(
                    old(self)@,
                    id@,
                    now,
                ),
    {
        let now = self.now();
        match self.live_artifact(id) {
            None => Err(CoreError::NotFound { entity: "artifact", id: id.to_string() }),
            Some(i) => {
                let ghost before = self.artifacts@;
                let row = &mut self.artifacts[i];
                row.deleted_at = Some(now);
                row.artifact.updated_at = now;
                proof {
                    lemma_replaced(before, i as int, self.artifacts@[i as int]);
                }
                Ok(())
            },
        }
    }
}

} // verus!
