//! The store: every row of the notes core, held as plain tables.
//!
//! Nothing is erased. Deleting a row marks it with the time of deletion, and
//! readers skip marked rows. An operation that fails leaves every table as it
//! was.

use vstd::prelude::*;
use crate::clock::Clock;
use crate::harness::reflection::policy::no_signals;
use crate::harness::reflection::policy::ReflectionSignals;
use crate::harness::reflection::policy::SignalsView;
use crate::notes::domain::Artifact;
use crate::notes::domain::ArtifactView;
use crate::notes::domain::CapturedItem;
use crate::notes::domain::CapturedItemView;
use crate::notes::domain::Contact;
use crate::notes::domain::ContactView;
use crate::notes::domain::Job;
use crate::notes::domain::JobView;
use crate::notes::domain::LlmUsageRow;
use crate::notes::domain::LlmUsageRowView;
use crate::notes::domain::Session;
use crate::notes::domain::SessionView;
use crate::notes::error::CoreError;
use crate::notes::error::CoreErrorView;
use crate::text::concat2;
use crate::views::seq_views;

pub mod artifacts;
pub mod contacts;
pub mod documents;
pub mod items;
pub mod jobs;
pub mod laws;
pub mod migrations;
pub mod outcomes;
pub mod persist;
pub mod record_laws;
pub mod reflection;
pub mod search;
pub mod search_laws;
pub mod sessions;
pub mod table;
pub mod time_laws;
pub mod usage;

use crate::notes::store::table::in_order;
use crate::notes::store::table::lemma_empty;
use crate::notes::store::table::table;
use crate::notes::store::table::Row;

verus! {

/// A digit of base sixteen, in lower case.
pub open spec fn is_hex_digit(c: char) -> bool {
    '0' <= c <= '9' || 'a' <= c <= 'f'
}

/// The form of an id: thirty-two digits of base sixteen in five groups, with the
/// version and the variant in their places.
pub open spec fn id_shaped(s: Seq<char>) -> bool {
    &&& s.len() == 36
    &&& forall|i: int|
        0 <= i < 36 ==> if i == 8 || i == 13 || i == 18 || i == 23 {
            (#[trigger] s[i]) == '-'
        } else {
            is_hex_digit(s[i])
        }
    &&& s[14] == '7'
    &&& s[19] == '8' || s[19] == '9' || s[19] == 'a' || s[19] == 'b'
}

/// Calls `uuid::Uuid::now_v7` and renders it. Which id it is rests on time and
/// chance; only its form is promised.
#[verifier::external_body]
pub fn new_id() -> (r: String)
    ensures
        id_shaped(r@),
{
    uuid::Uuid::now_v7().to_string()
}

/// What a new row is given: an id and the time.
#[derive(Clone, Debug)]
pub struct Stamp {
    pub id: String,
    pub now: u64,
}

/// The mathematical counterpart of [`Stamp`].
pub struct StampView {
    pub id: Seq<char>,
    pub now: u64,
}

impl View for Stamp {
    type V = StampView;

    open spec fn view(&self) -> StampView {
        StampView { id: self.id@, now: self.now }
    }
}

/// A session and, if it was deleted, when.
#[derive(Clone, Debug, PartialEq)]
pub struct SessionRow {
    pub session: Session,
    pub deleted_at: Option<u64>,
}

/// The mathematical counterpart of [`SessionRow`].
pub struct SessionRowView {
    pub session: SessionView,
    pub deleted_at: Option<u64>,
}

impl View for SessionRow {
    type V = SessionRowView;

    open spec fn view(&self) -> SessionRowView {
        SessionRowView { session: self.session@, deleted_at: self.deleted_at }
    }
}

impl Row for SessionRow {
    open spec fn key(v: SessionRowView) -> Seq<char> {
        v.session.id
    }

    fn id(&self) -> (r: &str) {
        self.session.id.as_str()
    }
}

/// An item and, if it was deleted, when.
#[derive(Clone, Debug, PartialEq)]
pub struct ItemRow {
    pub item: CapturedItem,
    pub deleted_at: Option<u64>,
}

/// The mathematical counterpart of [`ItemRow`].
pub struct ItemRowView {
    pub item: CapturedItemView,
    pub deleted_at: Option<u64>,
}

impl View for ItemRow {
    type V = ItemRowView;

    open spec fn view(&self) -> ItemRowView {
        ItemRowView { item: self.item@, deleted_at: self.deleted_at }
    }
}

impl Row for ItemRow {
    open spec fn key(v: ItemRowView) -> Seq<char> {
        v.item.id
    }

    fn id(&self) -> (r: &str) {
        self.item.id.as_str()
    }
}

/// An artifact and, if it was deleted, when.
#[derive(Clone, Debug, PartialEq)]
pub struct ArtifactRow {
    pub artifact: Artifact,
    pub deleted_at: Option<u64>,
}

/// The mathematical counterpart of [`ArtifactRow`].
pub struct ArtifactRowView {
    pub artifact: ArtifactView,
    pub deleted_at: Option<u64>,
}

impl View for ArtifactRow {
    type V = ArtifactRowView;

    open spec fn view(&self) -> ArtifactRowView {
        ArtifactRowView { artifact: self.artifact@, deleted_at: self.deleted_at }
    }
}

impl Row for ArtifactRow {
    open spec fn key(v: ArtifactRowView) -> Seq<char> {
        v.artifact.id
    }

    fn id(&self) -> (r: &str) {
        self.artifact.id.as_str()
    }
}

/// A job and, if it was deleted, when.
#[derive(Clone, Debug, PartialEq)]
pub struct JobRow {
    pub job: Job,
    pub deleted_at: Option<u64>,
}

/// The mathematical counterpart of [`JobRow`].
pub struct JobRowView {
    pub job: JobView,
    pub deleted_at: Option<u64>,
}

impl View for JobRow {
    type V = JobRowView;

    open spec fn view(&self) -> JobRowView {
        JobRowView { job: self.job@, deleted_at: self.deleted_at }
    }
}

impl Row for JobRow {
    open spec fn key(v: JobRowView) -> Seq<char> {
        v.job.id
    }

    fn id(&self) -> (r: &str) {
        self.job.id.as_str()
    }
}

/// A contact and, if it was deleted, when.
#[derive(Clone, Debug, PartialEq)]
pub struct ContactRow {
    pub contact: Contact,
    pub deleted_at: Option<u64>,
}

/// The mathematical counterpart of [`ContactRow`].
pub struct ContactRowView {
    pub contact: ContactView,
    pub deleted_at: Option<u64>,
}

impl View for ContactRow {
    type V = ContactRowView;

    open spec fn view(&self) -> ContactRowView {
        ContactRowView { contact: self.contact@, deleted_at: self.deleted_at }
    }
}

impl Row for ContactRow {
    open spec fn key(v: ContactRowView) -> Seq<char> {
        v.contact.id
    }

    fn id(&self) -> (r: &str) {
        self.contact.id.as_str()
    }
}

/// How far the numbering of one kind of document has come.
#[derive(Clone, Debug, PartialEq)]
pub struct SequenceRow {
    pub doc_kind: String,
    /// The last number given out.
    pub last: u64,
    pub device_id: String,
}

/// The mathematical counterpart of [`SequenceRow`].
pub struct SequenceRowView {
    pub doc_kind: Seq<char>,
    pub last: u64,
    pub device_id: Seq<char>,
}

impl View for SequenceRow {
    type V = SequenceRowView;

    open spec fn view(&self) -> SequenceRowView {
        SequenceRowView { doc_kind: self.doc_kind@, last: self.last, device_id: self.device_id@ }
    }
}

impl Row for SequenceRow {
    open spec fn key(v: SequenceRowView) -> Seq<char> {
        v.doc_kind
    }

    fn id(&self) -> (r: &str) {
        self.doc_kind.as_str()
    }
}

/// Every row of the notes core.
#[derive(Debug)]
pub struct Store {
    pub(crate) device_id: String,
    pub(crate) clock: Clock,
    pub(crate) sessions: Vec<SessionRow>,
    pub(crate) items: Vec<ItemRow>,
    pub(crate) artifacts: Vec<ArtifactRow>,
    pub(crate) jobs: Vec<JobRow>,
    pub(crate) contacts: Vec<ContactRow>,
    pub(crate) sequences: Vec<SequenceRow>,
    pub(crate) usage: Vec<LlmUsageRow>,
    pub(crate) signals: ReflectionSignals,
    pub(crate) last_reflected_at: u64,
}

/// The tables as maps from id to row. The cost log is a list, oldest first.
#[verifier::ext_equal]
pub struct StoreView {
    pub device_id: Seq<char>,
    pub clock: Clock,
    pub sessions: Map<Seq<char>, SessionRowView>,
    pub items: Map<Seq<char>, ItemRowView>,
    pub artifacts: Map<Seq<char>, ArtifactRowView>,
    pub jobs: Map<Seq<char>, JobRowView>,
    pub contacts: Map<Seq<char>, ContactRowView>,
    pub sequences: Map<Seq<char>, SequenceRowView>,
    pub usage: Seq<LlmUsageRowView>,
    pub signals: SignalsView,
    pub last_reflected_at: u64,
}

impl View for Store {
    type V = StoreView;

    closed spec fn view(&self) -> StoreView {
        StoreView {
            device_id: self.device_id@,
            clock: self.clock,
            sessions: table(self.sessions@),
            items: table(self.items@),
            artifacts: table(self.artifacts@),
            jobs: table(self.jobs@),
            contacts: table(self.contacts@),
            sequences: table(self.sequences@),
            usage: seq_views(self.usage@),
            signals: self.signals@,
            last_reflected_at: self.last_reflected_at,
        }
    }
}

/// A store that nothing has been written to.
pub open spec fn empty_store(device_id: Seq<char>, clock: Clock) -> StoreView {
    StoreView {
        device_id,
        clock,
        sessions: Map::empty(),
        items: Map::empty(),
        artifacts: Map::empty(),
        jobs: Map::empty(),
        contacts: Map::empty(),
        sequences: Map::empty(),
        usage: Seq::empty(),
        signals: no_signals(),
        last_reflected_at: 0,
    }
}

/// No live row of this entity has the id.
pub open spec fn not_found(entity: Seq<char>, id: Seq<char>) -> CoreErrorView {
    CoreErrorView::NotFound { entity, id }
}

/// The refusal of a second row with the same id.
pub open spec fn duplicate(column: Seq<char>) -> CoreErrorView {
    CoreErrorView::Storage("UNIQUE constraint failed: "@ + column)
}

pub(crate) fn duplicate_error(column: &str) -> (r: CoreError)
    ensures
        r@ == duplicate(column@),
{
    CoreError::Storage(concat2("UNIQUE constraint failed: ", column))
}

impl StoreView {
    /// The store may give this stamp: its clock shows the time, and the id has
    /// the form of one.
    pub open spec fn gives(self, st: StampView) -> bool {
        self.clock.shows(st.now) && id_shaped(st.id)
    }

    /// The session with this id, unless it was deleted.
    pub open spec fn session(self, id: Seq<char>) -> Option<SessionView> {
        if self.sessions.contains_key(id) && self.sessions[id].deleted_at is None {
            Some(self.sessions[id].session)
        } else {
            None
        }
    }

    /// The item with this id, unless it was deleted.
    pub open spec fn item(self, id: Seq<char>) -> Option<CapturedItemView> {
        if self.items.contains_key(id) && self.items[id].deleted_at is None {
            Some(self.items[id].item)
        } else {
            None
        }
    }

    /// The artifact with this id, unless it was deleted.
    pub open spec fn artifact(self, id: Seq<char>) -> Option<ArtifactView> {
        if self.artifacts.contains_key(id) && self.artifacts[id].deleted_at is None {
            Some(self.artifacts[id].artifact)
        } else {
            None
        }
    }

    /// The job with this id, unless it was deleted.
    pub open spec fn job(self, id: Seq<char>) -> Option<JobView> {
        if self.jobs.contains_key(id) && self.jobs[id].deleted_at is None {
            Some(self.jobs[id].job)
        } else {
            None
        }
    }
}

impl Store {
    /// The tables are in order.
    pub closed spec fn wf(&self) -> bool {
        &&& in_order(self.sessions@)
        &&& in_order(self.items@)
        &&& in_order(self.artifacts@)
        &&& in_order(self.jobs@)
        &&& in_order(self.contacts@)
        &&& in_order(self.sequences@)
    }

    /// An empty store that lives in memory.
    pub fn open_in_memory(device_id: &str) -> (r: Result<Store, CoreError>)
        ensures
            r matches Ok(s) && s.wf() && s@ == empty_store(device_id@, Clock::System),
    {
        proof {
            lemma_empty::<SessionRow>();
            lemma_empty::<ItemRow>();
            lemma_empty::<ArtifactRow>();
            lemma_empty::<JobRow>();
            lemma_empty::<ContactRow>();
            lemma_empty::<SequenceRow>();
        }
        let s = Store {
            device_id: device_id.to_string(),
            clock: Clock::System,
            sessions: Vec::new(),
            items: Vec::new(),
            artifacts: Vec::new(),
            jobs: Vec::new(),
            contacts: Vec::new(),
            sequences: Vec::new(),
            usage: Vec::new(),
            signals: ReflectionSignals::default(),
            last_reflected_at: 0,
        };
        assert(s@.usage =~= Seq::empty());
        Ok(s)
    }

    /// The same store, reading another clock.
    pub fn with_clock(self, clock: Clock) -> (r: Store)
        requires
            self.wf(),
        ensures
            r.wf(),
            r@ == (StoreView { clock, ..self@ }),
    {
        let mut s = self;
        s.clock = clock;
        s
    }

    /// The time by the store's clock.
    pub fn now(&self) -> (now: u64)
        ensures
            self@.clock.shows(now),
    {
        self.clock.read()
    }

    /// A fresh id and the time by the store's clock.
    pub fn stamp(&self) -> (r: Stamp)
        ensures
            self@.gives(r@),
    {
        Stamp { id: new_id(), now: self.now() }
    }
}

} // verus!
