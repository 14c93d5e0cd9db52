//! Captured items.

use vstd::prelude::*;
use crate::notes::domain::CapturedItem;
use crate::notes::domain::CapturedItemView;
use crate::notes::domain::ItemSource;
use crate::notes::domain::SessionStatus;
use crate::notes::error::CoreError;
use crate::notes::error::CoreErrorView;
use crate::notes::store::duplicate;
use crate::notes::store::duplicate_error;
use crate::notes::store::ItemRow;
use crate::notes::store::ItemRowView;
use crate::notes::store::not_found;
use crate::notes::store::Stamp;
use crate::notes::store::StampView;
use crate::notes::store::Store;
use crate::notes::store::StoreView;
use crate::notes::store::table::find;
use crate::notes::store::table::in_order;
use crate::notes::store::table::index_of_key;
use crate::notes::store::table::insert_row;
use crate::notes::store::table::lemma_at;
use crate::notes::store::table::lemma_count;
use crate::notes::store::table::lemma_mapped;
use crate::notes::store::table::lemma_replaced;
use crate::notes::store::table::map_count;
use crate::notes::store::table::row_count;
use crate::notes::store::table::table;
use crate::text::lex_lt;
use crate::text::text_eq;
use crate::views::option_view;
use crate::views::result_view;
use crate::views::seq_views;
use crate::views::unit_result;

verus! {

/// An item as it is written.
pub open spec fn fresh_item(
    session_id: Seq<char>,
    kind: Seq<char>,
    text: Seq<char>,
    source: ItemSource,
    device_id: Seq<char>,
    st: StampView,
) -> CapturedItemView {
    CapturedItemView {
        id: st.id,
        session_id,
        kind,
        text,
        source,
        done: false,
        created_at: st.now,
        updated_at: st.now,
        device_id,
    }
}

/// Every row of the items stands under its own id.
pub open spec fn items_under_their_ids(v: StoreView) -> bool {
    forall|k: Seq<char>| #[trigger] v.items.contains_key(k) ==> v.items[k].item.id == k
}

/// Writing an item, whatever the session's status.
pub open spec fn item_inserted(
    v: StoreView,
    session_id: Seq<char>,
    kind: Seq<char>,
    text: Seq<char>,
    source: ItemSource,
    st: StampView,
) -> (StoreView, Result<CapturedItemView, CoreErrorView>) {
    if v.items.contains_key(st.id) {
        (v, Err(duplicate("items.id"@)))
    } else {
        let item = fresh_item(session_id, kind, text, source, v.device_id, st);
        (
            StoreView { items: v.items.insert(st.id, ItemRowView { item, deleted_at: None }), ..v },
            Ok(item),
        )
    }
}

/// Adding an item to a session that exists.
pub open spec fn item_added(
    v: StoreView,
    session_id: Seq<char>,
    kind: Seq<char>,
    text: Seq<char>,
    source: ItemSource,
    st: StampView,
) -> (StoreView, Result<CapturedItemView, CoreErrorView>) {
    if v.session(session_id) is None {
        (v, Err(not_found("session"@, session_id)))
    } else {
        item_inserted(v, session_id, kind, text, source, st)
    }
}

/// Adding an item only while the session has the required status; nothing is
/// written otherwise.
pub open spec fn item_added_if(
    v: StoreView,
    session_id: Seq<char>,
    kind: Seq<char>,
    text: Seq<char>,
    required: SessionStatus,
    source: ItemSource,
    st: StampView,
) -> (StoreView, Result<Option<CapturedItemView>, CoreErrorView>) {
    match v.session(session_id) {
        None => (v, Err(not_found("session"@, session_id))),
        Some(s) => if s.status != required {
            (v, Ok(None))
        } else {
            match item_inserted(v, session_id, kind, text, source, st) {
                (w, Ok(item)) => (w, Ok(Some(item))),
                (w, Err(e)) => (w, Err(e)),
            }
        },
    }
}

/// Ticking an item off, or back on.
pub open spec fn item_marked(v: StoreView, id: Seq<char>, done: bool, now: u64) -> (
    StoreView,
    Result<CapturedItemView, CoreErrorView>,
) {
    match v.item(id) {
        None => (v, Err(not_found("item"@, id))),
        Some(item) => {
            let changed = CapturedItemView { done, updated_at: now, ..item };
            (
                StoreView {
                    items: v.items.insert(id, ItemRowView { item: changed, deleted_at: None }),
                    ..v
                },
                Ok(changed),
            )
        },
    }
}

/// A row marked as deleted.
pub open spec fn item_buried(row: ItemRowView, now: u64) -> ItemRowView {
    ItemRowView {
        item: CapturedItemView { updated_at: now, ..row.item },
        deleted_at: Some(now),
    }
}

/// Deleting an item.
pub open spec fn item_deleted(v: StoreView, id: Seq<char>, now: u64) -> (
    StoreView,
    Result<(), CoreErrorView>,
) {
    if v.item(id) is None {
        (v, Err(not_found("item"@, id)))
    } else {
        (StoreView { items: v.items.insert(id, item_buried(v.items[id], now)), ..v }, Ok(()))
    }
}

/// Which items of a session a sweep takes.
pub enum Sweep<'a> {
    /// All of them.
    All,
    /// Those that a processing run wrote.
    Authoritative,
    /// Those that a processing run or a live pass wrote, but for the given ids.
    Swap(&'a [String]),
}

/// The mathematical counterpart of [`Sweep`].
pub enum SweepView {
    All,
    Authoritative,
    Swap(Seq<Seq<char>>),
}

impl<'a> View for Sweep<'a> {
    type V = SweepView;

    open spec fn view(&self) -> SweepView {
        match self {
            Sweep::All => SweepView::All,
            Sweep::Authoritative => SweepView::Authoritative,
            Sweep::Swap(ids) => SweepView::Swap(seq_views(ids@)),
        }
    }
}

impl SweepView {
    /// The sweep takes this row.
    pub open spec fn takes(self, session_id: Seq<char>, row: ItemRowView) -> bool {
        &&& row.deleted_at is None
        &&& row.item.session_id == session_id
        &&& match self {
            SweepView::All => true,
            SweepView::Authoritative => row.item.source == ItemSource::Authoritative,
            SweepView::Swap(ids) => row.item.source != ItemSource::Manual && !ids.contains(
                row.item.id,
            ),
        }
    }
}

/// A sweep, row by row.
pub open spec fn swept_row(
    session_id: Seq<char>,
    which: SweepView,
    now: u64,
) -> spec_fn(ItemRowView) -> ItemRowView {
    |row: ItemRowView|
        if which.takes(session_id, row) {
            item_buried(row, now)
        } else {
            row
        }
}

/// The items after a sweep.
pub open spec fn items_swept(
    items: Map<Seq<char>, ItemRowView>,
    session_id: Seq<char>,
    which: SweepView,
    now: u64,
) -> Map<Seq<char>, ItemRowView> {
    items.map_values(swept_row(session_id, which, now))
}

/// How many items a sweep takes.
pub open spec fn items_taken(
    items: Map<Seq<char>, ItemRowView>,
    session_id: Seq<char>,
    which: SweepView,
) -> nat {
    map_count(items, |row: ItemRowView| which.takes(session_id, row))
}

/// The items that satisfy a condition, in the order of their ids: nothing is
/// left out, nothing is added, nothing comes twice.
pub open spec fn lists_items(
    v: StoreView,
    keep: spec_fn(CapturedItemView) -> bool,
    out: Seq<CapturedItemView>,
) -> bool {
    &&& forall|i: int, j: int|
        0 <= i < j < out.len() ==> lex_lt((#[trigger] out[i]).id, (#[trigger] out[j]).id)
    &&& forall|i: int|
        0 <= i < out.len() ==> v.item((#[trigger] out[i]).id) == Some(out[i]) && keep(out[i])
    &&& forall|id: Seq<char>|
        (#[trigger] v.item(id)) is Some && keep(v.item(id)->0) ==> exists|i: int|
            0 <= i < out.len() && #[trigger] out[i] == v.item(id)->0
}

/// An item of the session.
pub open spec fn of_session(session_id: Seq<char>) -> spec_fn(CapturedItemView) -> bool {
    |item: CapturedItemView| item.session_id == session_id
}

/// A todo that is still open.
pub open spec fn open_todo() -> spec_fn(CapturedItemView) -> bool {
    |item: CapturedItemView| item.kind == "todo"@ && !item.done
}

/// Whether a list of ids holds this one.
fn holds_id(ids: &[String], id: &str) -> (r: bool)
    ensures
        r == seq_views(ids@).contains(id@),
{
    let mut i: usize = 0;
    while i < ids.len()
        invariant
            i <= ids.len(),
            forall|j: int| 0 <= j < i ==> (#[trigger] ids@[j])@ != id@,
        decreases ids.len() - i,
    {
        if text_eq(ids[i].as_str(), id) {
            assert(seq_views(ids@)[i as int] == id@);
            return true;
        }
        i = i + 1;
    }
    false
}

fn sweep_takes(which: &Sweep, session_id: &str, row: &ItemRow) -> (r: bool)
    ensures
        r == which@.takes(session_id@, row@),
{
    if row.deleted_at.is_some() || !text_eq(row.item.session_id.as_str(), session_id) {
        return false;
    }
    match which {
        Sweep::All => true,
        Sweep::Authoritative => row.item.source == ItemSource::Authoritative,
        Sweep::Swap(ids) => row.item.source != ItemSource::Manual && !holds_id(
            ids,
            row.item.id.as_str(),
        ),
    }
}

/// Sweeps a session's items and counts what was taken.
pub(crate) fn sweep_items(
    items: &mut Vec<ItemRow>,
    session_id: &str,
    which: &Sweep,
    now: u64,
) -> (r: usize)
    requires
        in_order(old(items)@),
    ensures
        in_order(final(items)@),
        table(final(items)@) == items_swept(table(old(items)@), session_id@, which@, now),
        r as nat == items_taken(table(old(items)@), session_id@, which@),
        r <= old(items)@.len(),
        final(items)@.len() == old(items)@.len(),
{
    let ghost before = items@;
    let ghost f = swept_row(session_id@, which@, now);
    let ghost p = |row: ItemRowView| which@.takes(session_id@, row);
    let mut taken: usize = 0;
    let mut i: usize = 0;
    while i < items.len()
        invariant
            i <= items.len(),
            taken <= i,
            items@.len() == before.len(),
            f == swept_row(session_id@, which@, now),
            p == (|row: ItemRowView| which@.takes(session_id@, row)),
            forall|j: int| 0 <= j < i ==> (#[trigger] items@[j])@ == f(before[j]@),
            forall|j: int| i <= j < items.len() ==> #[trigger] items@[j] == before[j],
            taken as nat == row_count(before.take(i as int), p),
        decreases items.len() - i,
    {
        proof {
            assert(before.take(i + 1).drop_last() =~= before.take(i as int));
            assert(before.take(i + 1).last() == before[i as int]);
        }
        if sweep_takes(which, session_id, &items[i]) {
            let row = &mut items[i];
            row.deleted_at = Some(now);
            row.item.updated_at = now;
            taken = taken + 1;
        }
        i = i + 1;
    }
    proof {
        assert(before.take(before.len() as int) =~= before);
        lemma_mapped(before, items@, f);
        lemma_count(before, p);
    }
    taken
}

impl Store {
    /// In a store, every item stands under its own id.
    pub proof fn lemma_items_under_their_ids(&self)
        ensures
            items_under_their_ids(self@),
    {
        assert forall|k: Seq<char>| #[trigger] self@.items.contains_key(k) implies self@.items[k].item.id
            == k by {
            let i = index_of_key(self.items@, k);
            assert(self.items@[i]@.item.id == k);
        }
    }

    /// Adds an item by hand.
    pub fn add_item(&mut self, session_id: &str, kind: &str, text: &str) -> (r: Result<
        CapturedItem,
        CoreError,
    >)
        requires
            old(self).wf(),
        ensures
            final(self).wf(),
            exists|st: StampView| #[trigger]
                old(self)@.gives(st) && (final(self)@, result_view(r)) == item_added(
                    old(self)@,
                    session_id@,
                    kind@,
                    text@,
                    ItemSource::Manual,
                    st,
                ),
    {
        self.add_item_with_source(session_id, kind, text, ItemSource::Manual)
    }

    /// Adds an item with an explicit source, whatever the session's status.
    pub fn add_item_with_source(
        &mut self,
        session_id: &str,
        kind: &str,
        text: &str,
        source: ItemSource,
    ) -> (r: Result<CapturedItem, CoreError>)
        requires
            old(self).wf(),
        ensures
            final(self).wf(),
            exists|st: StampView| #[trigger]
                old(self)@.gives(st) && (final(self)@, result_view(r)) == item_added(
                    old(self)@,
                    session_id@,
                    kind@,
                    text@,
                    source,
                    st,
                ),
    {
        let st = self.stamp();
        self.add_item_as(session_id, kind, text, source, st)
    }

    /// Adds an item under the given id and time.
    pub fn add_item_as(
        &mut self,
        session_id: &str,
        kind: &str,
        text: &str,
        source: ItemSource,
        st: Stamp,
    ) -> (r: Result<CapturedItem, CoreError>)
        requires
            old(self).wf(),
        ensures
            final(self).wf(),
            (final(self)@, result_view(r)) == item_added(
                old(self)@,
                session_id@,
                kind@,
                text@,
                source,
                st@,
            ),
    {
        if self.live_session(session_id).is_none() {
            return Err(CoreError::NotFound { entity: "session", id: session_id.to_string() });
        }
        self.insert_item(session_id, kind, text, source, st)
    }

    /// Adds an item only while the session has the required status. The status
    /// is read and the row written in one step, so a session that has moved on
    /// never gets a late item.
    pub fn add_item_if_status(
        &mut self,
        session_id: &str,
        kind: &str,
        text: &str,
        required: SessionStatus,
        source: ItemSource,
    ) -> (r: Result<Option<CapturedItem>, CoreError>)
        requires
            old(self).wf(),
        ensures
            final(self).wf(),
            exists|st: StampView| #[trigger]
                old(self)@.gives(st) && (final(self)@, option_result(r))
                    == item_added_if(
                    old(self)@,
                    session_id@,
                    kind@,
                    text@,
                    required,
                    source,
                    st,
                ),
    {
        let st = self.stamp();
        self.add_item_if_status_as(session_id, kind, text, required, source, st)
    }

    /// The same, under the given id and time.
    pub fn add_item_if_status_as(
        &mut self,
        session_id: &str,
        kind: &str,
        text: &str,
        required: SessionStatus,
        source: ItemSource,
        st: Stamp,
    ) -> (r: Result<Option<CapturedItem>, CoreError>)
        requires
            old(self).wf(),
        ensures
            final(self).wf(),
            (final(self)@, option_result(r)) == item_added_if(
                old(self)@,
                session_id@,
                kind@,
                text@,
                required,
                source,
                st@,
            ),
    {
        match self.live_session(session_id) {
            None => Err(CoreError::NotFound { entity: "session", id: session_id.to_string() }),
            Some(i) => {
                if self.sessions[i].session.status != required {
                    return Ok(None);
                }
                match self.insert_item(session_id, kind, text, source, st) {
                    Ok(item) => Ok(Some(item)),
                    Err(e) => Err(e),
                }
            },
        }
    }

    fn insert_item(
        &mut self,
        session_id: &str,
        kind: &str,
        text: &str,
        source: ItemSource,
        st: Stamp,
    ) -> (r: Result<CapturedItem, CoreError>)
        requires
            old(self).wf(),
        ensures
            final(self).wf(),
            (final(self)@, result_view(r)) == item_inserted(
                old(self)@,
                session_id@,
                kind@,
                text@,
                source,
                st@,
            ),
    {
        if find(&self.items, st.id.as_str()).is_some() {
            return Err(duplicate_error("items.id"));
        }
        let item = CapturedItem {
            id: st.id,
            session_id: session_id.to_string(),
            kind: kind.to_string(),
            text: text.to_string(),
            source,
            done: false,
            created_at: st.now,
            updated_at: st.now,
            device_id: self.device_id.clone(),
        };
        let row = ItemRow { item: item.clone(), deleted_at: None };
        insert_row(&mut self.items, row);
        Ok(item)
    }

    /// Finds a live item.
    fn live_item(&self, id: &str) -> (r: Option<usize>)
        requires
            self.wf(),
        ensures
            match r {
                Some(i) => i < self.items.len() && self.items@[i as int]@.item.id == id@
                    && self.items@[i as int].deleted_at is None && self@.item(id@) == Some(
                    self.items@[i as int].item@,
                ) && self@.items[id@] == self.items@[i as int]@,
                None => self@.item(id@) is None,
            },
    {
        match find(&self.items, id) {
            Some(i) => if self.items[i].deleted_at.is_none() {
                Some(i)
            } else {
                None
            },
            None => None,
        }
    }

    /// Ticks an item off, or back on.
    pub fn set_item_done(&mut self, id: &str, done: bool) -> (r: Result<CapturedItem, CoreError>)
        requires
            old(self).wf(),
        ensures
            final(self).wf(),
            exists|now: u64| #[trigger]
                old(self)@.clock.shows(now) && (final(self)@, result_view(r)) == item_marked(
                    old(self)@,
                    id@,
                    done,
                    now,
                ),
    {
        let now = self.now();
        match self.live_item(id) {
            None => Err(CoreError::NotFound { entity: "item", id: id.to_string() }),
            Some(i) => {
                let ghost before = self.items@;
                let row = &mut self.items[i];
                row.item.done = done;
                row.item.updated_at = now;
                proof {
                    lemma_replaced(before, i as int, self.items@[i as int]);
                }
                Ok(self.items[i].item.clone())
            },
        }
    }

    /// The item with this id.
    pub fn get_item(&self, id: &str) -> (r: Result<CapturedItem, CoreError>)
        requires
            self.wf(),
        ensures
            result_view(r) == (match self@.item(id@) {
                Some(item) => Ok(item),
                None => Err(not_found("item"@, id@)),
            }),
    {
        match self.live_item(id) {
            Some(i) => Ok(self.items[i].item.clone()),
            None => Err(CoreError::NotFound { entity: "item", id: id.to_string() }),
        }
    }

    /// Items of one session, in the order of their ids.
    pub fn list_items_for_session(&self, session_id: &str) -> (r: Result<
        Vec<CapturedItem>,
        CoreError,
    >)
        requires
            self.wf(),
        ensures
            r matches Ok(items) && lists_items(self@, of_session(session_id@), seq_views(items@)),
    {
        let mut keep: Vec<bool> = Vec::new();
        let mut i: usize = 0;
        while i < self.items.len()
            invariant
                i <= self.items.len(),
                keep.len() == i,
                forall|j: int|
                    0 <= j < i ==> (#[trigger] keep@[j]) == of_session(session_id@)(
                        self.items@[j].item@,
                    ),
            decreases self.items.len() - i,
        {
            keep.push(text_eq(self.items[i].item.session_id.as_str(), session_id));
            i = i + 1;
        }
        Ok(self.select_items(&keep, Ghost(of_session(session_id@))))
    }

    /// Open todos across all sessions, in the order of their ids.
    pub fn list_open_todos(&self) -> (r: Result<Vec<CapturedItem>, CoreError>)
        requires
            self.wf(),
        ensures
            r matches Ok(items) && lists_items(self@, open_todo(), seq_views(items@)),
    {
        let mut keep: Vec<bool> = Vec::new();
        let mut i: usize = 0;
        while i < self.items.len()
            invariant
                i <= self.items.len(),
                keep.len() == i,
                forall|j: int|
                    0 <= j < i ==> (#[trigger] keep@[j]) == open_todo()(self.items@[j].item@),
            decreases self.items.len() - i,
        {
            keep.push(!self.items[i].item.done && text_eq(self.items[i].item.kind.as_str(), "todo"));
            i = i + 1;
        }
        Ok(self.select_items(&keep, Ghost(open_todo())))
    }

    /// The live items that are marked to keep.
    fn select_items(
        &self,
        keep: &Vec<bool>,
        wanted: Ghost<spec_fn(CapturedItemView) -> bool>,
    ) -> (r: Vec<CapturedItem>)
        requires
            self.wf(),
            keep.len() == self.items.len(),
            forall|j: int|
                0 <= j < keep.len() ==> (#[trigger] keep@[j]) == (wanted@)(self.items@[j].item@),
        ensures
            lists_items(self@, wanted@, seq_views(r@)),
    {
        let mut out: Vec<CapturedItem> = Vec::new();
        let ghost mut from: Seq<int> = Seq::empty();
        let mut i: usize = 0;
        while i < self.items.len()
            invariant
                i <= self.items.len(),
                self.wf(),
                keep.len() == self.items.len(),
                forall|j: int|
                    0 <= j < keep.len() ==> (#[trigger] keep@[j]) == (wanted@)(
                        self.items@[j].item@,
                    ),
                from.len() == out.len(),
                forall|j: int|
                    0 <= j < from.len() ==> 0 <= (#[trigger] from[j]) < i && out@[j]@
                        == self.items@[from[j]].item@ && self.items@[from[j]].deleted_at is None
                        && keep@[from[j]],
                forall|a: int, b: int|
                    0 <= a < b < from.len() ==> (#[trigger] from[a]) < (#[trigger] from[b]),
                forall|k: int|
                    0 <= k < i && #[trigger] keep@[k] && self.items@[k].deleted_at is None
                        ==> from.contains(k),
            decreases self.items.len() - i,
        {
            let ghost seen = from;
            if keep[i] && self.items[i].deleted_at.is_none() {
                out.push(self.items[i].item.clone());
                proof {
                    from = from.push(i as int);
                    assert(from.last() == i);
                    assert forall|k: int|
                        0 <= k < i + 1 && #[trigger] keep@[k] && self.items@[k].deleted_at is None implies from.contains(
                    k) by {
                        if k < i {
                            let j = seen.index_of(k);
                            assert(from[j] == k);
                        } else {
                            assert(from[from.len() - 1] == k);
                        }
                    }
                }
            }
            i = i + 1;
        }
        proof {
            let view = seq_views(out@);
            assert forall|a: int, b: int| 0 <= a < b < view.len() implies lex_lt(
                (#[trigger] view[a]).id,
                (#[trigger] view[b]).id,
            ) by {
                assert(from[a] < from[b]);
                assert(view[a] == out@[a]@ && view[b] == out@[b]@);
            }
            assert forall|a: int| 0 <= a < view.len() implies self@.item((#[trigger] view[a]).id)
                == Some(view[a]) && (wanted@)(view[a]) by {
                assert(0 <= from[a] < self.items.len());
                lemma_at(self.items@, from[a]);
            }
            assert forall|id: Seq<char>|
                (#[trigger] self@.item(id)) is Some && (wanted@)(
                    self@.item(id)->0,
                ) implies exists|a: int| 0 <= a < view.len() && #[trigger] view[a] == self@.item(
                id,
            )->0 by {
                let k = index_of_key(self.items@, id);
                assert(0 <= k < self.items.len() && self.items@[k].item@.id == id);
                assert(keep@[k]);
                let a = from.index_of(k);
                assert(from[a] == k);
                assert(view[a] == out@[a]@);
            }
        }
        out
    }

    /// Deletes an item.
    pub fn delete_item(&mut self, id: &str) -> (r: Result<(), CoreError>)
        requires
            old(self).wf(),
        ensures
            final(self).wf(),
            exists|now: u64| #[trigger]
                old(self)@.clock.shows(now) && (final(self)@, unit_result(r)) == item_deleted(
                    old(self)@,
                    id@,
                    now,
                ),
    {
        let now = self.now();
        match self.live_item(id) {
            None => Err(CoreError::NotFound { entity: "item", id: id.to_string() }),
            Some(i) => {
                let ghost before = self.items@;
                let row = &mut self.items[i];
                row.deleted_at = Some(now);
                row.item.updated_at = now;
                proof {
                    lemma_replaced(before, i as int, self.items@[i as int]);
                }
                Ok(())
            },
        }
    }
}

/// The outcome of an operation that may have had nothing to do.
pub open spec fn option_result(r: Result<Option<CapturedItem>, CoreError>) -> Result<
    Option<CapturedItemView>,
    CoreErrorView,
> {
    match r {
        Ok(o) => Ok(option_view(o)),
        Err(e) => Err(e@),
    }
}

} // verus!
