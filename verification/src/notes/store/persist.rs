//! The rows of a store, in and out, for whoever keeps them.

use vstd::prelude::*;
use crate::clock::Clock;
use crate::harness::reflection::policy::ReflectionSignals;
use crate::notes::domain::LlmUsageRow;
use crate::notes::store::ArtifactRow;
use crate::notes::store::ContactRow;
use crate::notes::store::ItemRow;
use crate::notes::store::JobRow;
use crate::notes::store::SequenceRow;
use crate::notes::store::SessionRow;
use crate::notes::store::Store;
use crate::notes::store::StoreView;
use crate::notes::store::table::find;
use crate::notes::store::table::in_order;
use crate::notes::store::table::insert_row;
use crate::notes::store::table::lemma_empty;
use crate::notes::store::table::lemma_inserted;
use crate::notes::store::table::lemma_replaced;
use crate::notes::store::table::Row;
use crate::notes::store::table::table;
use crate::text::lex_lt;
use crate::views::seq_views;

verus! {

/// All rows of a store.
#[derive(Debug)]
pub struct StoreRows {
    pub sessions: Vec<SessionRow>,
    pub items: Vec<ItemRow>,
    pub artifacts: Vec<ArtifactRow>,
    pub jobs: Vec<JobRow>,
    pub contacts: Vec<ContactRow>,
    pub sequences: Vec<SequenceRow>,
    /// Oldest first.
    pub usage: Vec<LlmUsageRow>,
    pub signals: ReflectionSignals,
    pub last_reflected_at: u64,
}

/// Rows by their key; of two with one key the later counts.
pub open spec fn rows_by_key<R: Row>(rows: Seq<R>) -> Map<Seq<char>, R::V>
    decreases rows.len(),
{
    if rows.len() == 0 {
        Map::empty()
    } else {
        rows_by_key(rows.drop_last()).insert(R::key(rows.last()@), rows.last()@)
    }
}

/// Of rows in order no two have one key: the map holds them all.
proof fn lemma_ordered_rows<R: Row>(rows: Seq<R>)
    requires
        in_order(rows),
    ensures
        rows_by_key(rows) == table(rows),
    decreases rows.len(),
{
    if rows.len() == 0 {
        lemma_empty::<R>();
        assert(rows =~= Seq::<R>::empty());
    } else {
        let before = rows.drop_last();
        assert forall|i: int, j: int| 0 <= i < j < before.len() implies lex_lt(
            R::key((#[trigger] before[i])@),
            R::key((#[trigger] before[j])@),
        ) by {
            assert(lex_lt(R::key(rows[i]@), R::key(rows[j]@)));
        }
        lemma_ordered_rows(before);
        let at = before.len() as int;
        assert forall|i: int| 0 <= i < at implies lex_lt(
            R::key((#[trigger] before[i])@),
            R::key(rows.last()@),
        ) by {
            assert(lex_lt(R::key(rows[i]@), R::key(rows[at]@)));
        }
        lemma_inserted(before, at, rows.last());
        assert(before.insert(at, rows.last()) =~= rows);
    }
}

/// Puts rows in order.
fn ordered<R: Row>(rows: Vec<R>) -> (r: Vec<R>)
    ensures
        in_order(r@),
        table(r@) == rows_by_key(rows@),
{
    let ghost all = rows@;
    let mut rows = rows;
    let mut out: Vec<R> = Vec::new();
    let ghost mut done: int = 0;
    proof {
        lemma_empty::<R>();
        assert(all.take(0) =~= Seq::<R>::empty());
        assert(all.skip(0) =~= all);
    }
    while rows.len() > 0
        invariant
            0 <= done <= all.len(),
            rows@ == all.skip(done),
            in_order(out@),
            table(out@) == rows_by_key(all.take(done)),
        decreases rows.len(),
    {
        let row = rows.remove(0);
        proof {
            assert(row == all[done]);
            assert(all.take(done + 1).drop_last() =~= all.take(done));
            assert(all.skip(done).remove(0) =~= all.skip(done + 1));
            done = done + 1;
        }
        match find(&out, row.id()) {
            Some(i) => {
                proof {
                    lemma_replaced(out@, i as int, row);
                }
                out.set(i, row);
            },
            None => {
                insert_row(&mut out, row);
            },
        }
    }
    assert(all.take(all.len() as int) =~= all);
    out
}

/// The store that holds exactly these rows.
pub open spec fn restored(device_id: Seq<char>, rows: StoreRows) -> StoreView {
    StoreView {
        device_id,
        clock: Clock::System,
        sessions: rows_by_key(rows.sessions@),
        items: rows_by_key(rows.items@),
        artifacts: rows_by_key(rows.artifacts@),
        jobs: rows_by_key(rows.jobs@),
        contacts: rows_by_key(rows.contacts@),
        sequences: rows_by_key(rows.sequences@),
        usage: seq_views(rows.usage@),
        signals: rows.signals@,
        last_reflected_at: rows.last_reflected_at,
    }
}

impl Store {
    /// A store that holds these rows, in whatever order they come.
    pub fn restore(device_id: String, rows: StoreRows) -> (r: Store)
        ensures
            r.wf(),
            r@ == restored(device_id@, rows),
    {
        Store {
            device_id,
            clock: Clock::System,
            sessions: ordered(rows.sessions),
            items: ordered(rows.items),
            artifacts: ordered(rows.artifacts),
            jobs: ordered(rows.jobs),
            contacts: ordered(rows.contacts),
            sequences: ordered(rows.sequences),
            usage: rows.usage,
            signals: rows.signals,
            last_reflected_at: rows.last_reflected_at,
        }
    }

    /// The rows of the sessions, deleted ones with them.
    pub fn session_rows(&self) -> (r: &Vec<SessionRow>)
        ensures
            table(r@) == self@.sessions,
            self.wf() ==> rows_by_key(r@) == self@.sessions,
    {
        proof {
            if self.wf() {
                lemma_ordered_rows(self.sessions@);
            }
        }
        &self.sessions
    }

    /// The rows of the items, deleted ones with them.
    pub fn item_rows(&self) -> (r: &Vec<ItemRow>)
        ensures
            table(r@) == self@.items,
            self.wf() ==> rows_by_key(r@) == self@.items,
    {
        proof {
            if self.wf() {
                lemma_ordered_rows(self.items@);
            }
        }
        &self.items
    }

    /// The rows of the artifacts, deleted ones with them.
    pub fn artifact_rows(&self) -> (r: &Vec<ArtifactRow>)
        ensures
            table(r@) == self@.artifacts,
            self.wf() ==> rows_by_key(r@) == self@.artifacts,
    {
        proof {
            if self.wf() {
                lemma_ordered_rows(self.artifacts@);
            }
        }
        &self.artifacts
    }

    /// The rows of the jobs, deleted ones with them.
    pub fn job_rows(&self) -> (r: &Vec<JobRow>)
        ensures
            table(r@) == self@.jobs,
            self.wf() ==> rows_by_key(r@) == self@.jobs,
    {
        proof {
            if self.wf() {
                lemma_ordered_rows(self.jobs@);
            }
        }
        &self.jobs
    }

    /// The rows of the contacts, deleted ones with them.
    pub fn contact_rows(&self) -> (r: &Vec<ContactRow>)
        ensures
            table(r@) == self@.contacts,
            self.wf() ==> rows_by_key(r@) == self@.contacts,
    {
        proof {
            if self.wf() {
                lemma_ordered_rows(self.contacts@);
            }
        }
        &self.contacts
    }

    /// The rows of the document sequences.
    pub fn sequence_rows(&self) -> (r: &Vec<SequenceRow>)
        ensures
            table(r@) == self@.sequences,
            self.wf() ==> rows_by_key(r@) == self@.sequences,
    {
        proof {
            if self.wf() {
                lemma_ordered_rows(self.sequences@);
            }
        }
        &self.sequences
    }

    /// The cost log, oldest first.
    pub fn usage_rows(&self) -> (r: &Vec<LlmUsageRow>)
        ensures
            seq_views(r@) == self@.usage,
    {
        &self.usage
    }

    /// When the last reflection was recorded; zero before the first.
    pub fn last_reflected_at(&self) -> (r: u64)
        ensures
            r == self@.last_reflected_at,
    {
        self.last_reflected_at
    }
}

/// The rows that a store hands out restore it: whatever was written is read back
/// from them. Only the clock starts anew.
pub proof fn law_rows_restore_the_store(v: StoreView, rows: StoreRows)
    requires
        rows_by_key(rows.sessions@) == v.sessions,
        rows_by_key(rows.items@) == v.items,
        rows_by_key(rows.artifacts@) == v.artifacts,
        rows_by_key(rows.jobs@) == v.jobs,
        rows_by_key(rows.contacts@) == v.contacts,
        rows_by_key(rows.sequences@) == v.sequences,
        seq_views(rows.usage@) == v.usage,
        rows.signals@ == v.signals,
        rows.last_reflected_at == v.last_reflected_at,
    ensures
        restored(v.device_id, rows) == (StoreView { clock: Clock::System, ..v }),
{
}

} // verus!
