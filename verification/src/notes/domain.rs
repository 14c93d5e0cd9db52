//! Domain entities. Jobs are first-class; generated documents of any kind hang
//! off a session as artifacts.

use vstd::prelude::*;
use crate::notes::error::CoreError;
use crate::notes::error::CoreErrorView;
use crate::notes::store::search::text_length;
use crate::text::concat2;
use crate::text::text_eq;
use crate::views::copy_option;
use crate::views::option_view;

verus! {

/// Where a job stands.
#[derive(Clone, Copy, Debug, PartialEq, Eq, Structural)]
pub enum JobStatus {
    Active,
    Done,
    Archived,
}

impl JobStatus {
    /// The name under which the status is stored.
    pub open spec fn name(self) -> Seq<char> {
        match self {
            JobStatus::Active => "active"@,
            JobStatus::Done => "done"@,
            JobStatus::Archived => "archived"@,
        }
    }

    /// The stored name.
    pub fn as_str(self) -> (r: &'static str)
        ensures
            r@ == self.name(),
    {
        match self {
            JobStatus::Active => "active",
            JobStatus::Done => "done",
            JobStatus::Archived => "archived",
        }
    }

    /// Reads a stored name: the status that has it, or `Corrupt` when none has.
    pub fn parse(s: &str) -> (r: Result<JobStatus, CoreError>)
        ensures
            match r {
                Ok(status) => s@ == status.name(),
                Err(e) => e@ == CoreErrorView::Corrupt("unknown job status: "@ + s@)
                    && forall|status: JobStatus|
                    #![trigger status.name()]
                    s@ != status.name(),
            },
    {
        if text_eq(s, "active") {
            Ok(JobStatus::Active)
        } else if text_eq(s, "done") {
            Ok(JobStatus::Done)
        } else if text_eq(s, "archived") {
            Ok(JobStatus::Archived)
        } else {
            Err(CoreError::Corrupt(concat2("unknown job status: ", s)))
        }
    }
}

/// Where a session stands.
#[derive(Clone, Copy, Debug, PartialEq, Eq, Structural)]
pub enum SessionStatus {
    /// Transcript still coming in.
    Recording,
    /// Ended; queued for processing. Safe offline.
    AwaitingProcessing,
    /// Processed; summary and artifacts exist.
    Processed,
    /// Processing failed; can be retried.
    Failed,
}

impl SessionStatus {
    /// The name under which the status is stored.
    pub open spec fn name(self) -> Seq<char> {
        match self {
            SessionStatus::Recording => "recording"@,
            SessionStatus::AwaitingProcessing => "awaiting_processing"@,
            SessionStatus::Processed => "processed"@,
            SessionStatus::Failed => "failed"@,
        }
    }

    /// The stored name.
    pub fn as_str(self) -> (r: &'static str)
        ensures
            r@ == self.name(),
    {
        match self {
            SessionStatus::Recording => "recording",
            SessionStatus::AwaitingProcessing => "awaiting_processing",
            SessionStatus::Processed => "processed",
            SessionStatus::Failed => "failed",
        }
    }

    /// Reads a stored name: the status that has it, or `Corrupt` when none has.
    pub fn parse(s: &str) -> (r: Result<SessionStatus, CoreError>)
        ensures
            match r {
                Ok(status) => s@ == status.name(),
                Err(e) => e@ == CoreErrorView::Corrupt("unknown session status: "@ + s@)
                    && forall|status: SessionStatus|
                    #![trigger status.name()]
                    s@ != status.name(),
            },
    {
        if text_eq(s, "recording") {
            Ok(SessionStatus::Recording)
        } else if text_eq(s, "awaiting_processing") {
            Ok(SessionStatus::AwaitingProcessing)
        } else if text_eq(s, "processed") {
            Ok(SessionStatus::Processed)
        } else if text_eq(s, "failed") {
            Ok(SessionStatus::Failed)
        } else {
            Err(CoreError::Corrupt(concat2("unknown session status: ", s)))
        }
    }
}

/// Where a captured item came from. Drives the swap at the end of a session:
/// live items and an earlier run's authoritative items make way for a new
/// authoritative set; manual items never do. The swap depends on the set being
/// closed.
#[derive(Clone, Copy, Debug, PartialEq, Eq, Structural)]
pub enum ItemSource {
    /// Written by a live pass while recording. Provisional.
    Live,
    /// Written by a processing run. The truth once its run finishes.
    Authoritative,
    /// Entered by the user. Only deleting the session removes it.
    Manual,
}

impl ItemSource {
    /// The name under which the source is stored.
    pub open spec fn name(self) -> Seq<char> {
        match self {
            ItemSource::Live => "live"@,
            ItemSource::Authoritative => "authoritative"@,
            ItemSource::Manual => "manual"@,
        }
    }

    /// The stored name.
    pub fn as_str(self) -> (r: &'static str)
        ensures
            r@ == self.name(),
    {
        match self {
            ItemSource::Live => "live",
            ItemSource::Authoritative => "authoritative",
            ItemSource::Manual => "manual",
        }
    }

    /// Reads a stored name: the source that has it, or `Corrupt` when none has.
    pub fn parse(raw: &str) -> (r: Result<ItemSource, CoreError>)
        ensures
            match r {
                Ok(source) => raw@ == source.name(),
                Err(e) => e@ == CoreErrorView::Corrupt("unknown item source: "@ + raw@)
                    && forall|source: ItemSource|
                    #![trigger source.name()]
                    raw@ != source.name(),
            },
    {
        if text_eq(raw, "live") {
            Ok(ItemSource::Live)
        } else if text_eq(raw, "authoritative") {
            Ok(ItemSource::Authoritative)
        } else if text_eq(raw, "manual") {
            Ok(ItemSource::Manual)
        } else {
            Err(CoreError::Corrupt(concat2("unknown item source: ", raw)))
        }
    }
}

/// Stored names are unambiguous: no two values of one kind share a name, so
/// reading a written name gives the value back.
pub proof fn law_stored_names_are_unambiguous()
    ensures
        forall|a: JobStatus, b: JobStatus| #[trigger] a.name() == #[trigger] b.name() ==> a == b,
        forall|a: SessionStatus, b: SessionStatus|
            #[trigger] a.name() == #[trigger] b.name() ==> a == b,
        forall|a: ItemSource, b: ItemSource|
            #[trigger] a.name() == #[trigger] b.name() ==> a == b,
{
    reveal_strlit("active");
    reveal_strlit("done");
    reveal_strlit("archived");
    reveal_strlit("recording");
    reveal_strlit("awaiting_processing");
    reveal_strlit("processed");
    reveal_strlit("failed");
    reveal_strlit("live");
    reveal_strlit("authoritative");
    reveal_strlit("manual");
    assert("active"@.len() == 6 && "done"@.len() == 4 && "archived"@.len() == 8);
    assert("recording"@.len() == 9 && "awaiting_processing"@.len() == 19);
    assert("processed"@.len() == 9 && "failed"@.len() == 6);
    assert("recording"@[0] == 'r' && "processed"@[0] == 'p');
    assert("live"@.len() == 4 && "authoritative"@.len() == 13 && "manual"@.len() == 6);
}

/// A job that sessions can be linked to.
#[derive(Debug, PartialEq)]
pub struct Job {
    pub id: String,
    pub name: String,
    pub client: Option<String>,
    pub site: Option<String>,
    /// Unix seconds; nothing means unscheduled.
    pub scheduled_at: Option<u64>,
    pub status: JobStatus,
    pub created_at: u64,
    pub updated_at: u64,
    pub device_id: String,
}

/// The mathematical counterpart of [`Job`].
pub struct JobView {
    pub id: Seq<char>,
    pub name: Seq<char>,
    pub client: Option<Seq<char>>,
    pub site: Option<Seq<char>>,
    pub scheduled_at: Option<u64>,
    pub status: JobStatus,
    pub created_at: u64,
    pub updated_at: u64,
    pub device_id: Seq<char>,
}

impl View for Job {
    type V = JobView;

    open spec fn view(&self) -> JobView {
        JobView {
            id: self.id@,
            name: self.name@,
            client: option_view(self.client),
            site: option_view(self.site),
            scheduled_at: self.scheduled_at,
            status: self.status,
            created_at: self.created_at,
            updated_at: self.updated_at,
            device_id: self.device_id@,
        }
    }
}

impl Clone for Job {
    fn clone(&self) -> (r: Job)
        ensures
            r@ == self@,
    {
        Job {
            id: self.id.clone(),
            name: self.name.clone(),
            client: copy_option(&self.client),
            site: copy_option(&self.site),
            scheduled_at: self.scheduled_at,
            status: self.status,
            created_at: self.created_at,
            updated_at: self.updated_at,
            device_id: self.device_id.clone(),
        }
    }
}

/// What the caller knows of a job that is about to be created.
#[derive(Clone, Debug)]
pub struct NewJob {
    pub name: String,
    pub client: Option<String>,
    pub site: Option<String>,
    pub scheduled_at: Option<u64>,
}

impl Default for NewJob {
    fn default() -> (r: NewJob)
        ensures
            r.name@ == Seq::<char>::empty(),
            r.client is None,
            r.site is None,
            r.scheduled_at is None,
    {
        NewJob { name: String::new(), client: None, site: None, scheduled_at: None }
    }
}

/// A recorded walk.
#[derive(Debug, PartialEq)]
pub struct Session {
    pub id: String,
    pub job_id: Option<String>,
    /// Template key that selects the extraction vocabulary and the document
    /// layout (`landscape`, `property` or `inspection`). Kept on the session so
    /// that reprocessing stays consistent.
    pub template: Option<String>,
    pub status: SessionStatus,
    pub transcript: String,
    /// Filled by processing; also feeds reflection.
    pub summary: Option<String>,
    pub started_at: u64,
    pub ended_at: Option<u64>,
    pub created_at: u64,
    pub updated_at: u64,
    pub device_id: String,
}

/// The mathematical counterpart of [`Session`].
pub struct SessionView {
    pub id: Seq<char>,
    pub job_id: Option<Seq<char>>,
    pub template: Option<Seq<char>>,
    pub status: SessionStatus,
    pub transcript: Seq<char>,
    pub summary: Option<Seq<char>>,
    pub started_at: u64,
    pub ended_at: Option<u64>,
    pub created_at: u64,
    pub updated_at: u64,
    pub device_id: Seq<char>,
}

impl View for Session {
    type V = SessionView;

    open spec fn view(&self) -> SessionView {
        SessionView {
            id: self.id@,
            job_id: option_view(self.job_id),
            template: option_view(self.template),
            status: self.status,
            transcript: self.transcript@,
            summary: option_view(self.summary),
            started_at: self.started_at,
            ended_at: self.ended_at,
            created_at: self.created_at,
            updated_at: self.updated_at,
            device_id: self.device_id@,
        }
    }
}

impl Clone for Session {
    fn clone(&self) -> (r: Session)
        ensures
            r@ == self@,
    {
        Session {
            id: self.id.clone(),
            job_id: copy_option(&self.job_id),
            template: copy_option(&self.template),
            status: self.status,
            transcript: self.transcript.clone(),
            summary: copy_option(&self.summary),
            started_at: self.started_at,
            ended_at: self.ended_at,
            created_at: self.created_at,
            updated_at: self.updated_at,
            device_id: self.device_id.clone(),
        }
    }
}

/// A typed item extracted from a session or added to it by hand. `kind` is a
/// free string; a new kind needs no change of the store.
#[derive(Debug, PartialEq)]
pub struct CapturedItem {
    pub id: String,
    pub session_id: String,
    pub kind: String,
    pub text: String,
    pub source: ItemSource,
    pub done: bool,
    pub created_at: u64,
    pub updated_at: u64,
    pub device_id: String,
}

/// The mathematical counterpart of [`CapturedItem`].
pub struct CapturedItemView {
    pub id: Seq<char>,
    pub session_id: Seq<char>,
    pub kind: Seq<char>,
    pub text: Seq<char>,
    pub source: ItemSource,
    pub done: bool,
    pub created_at: u64,
    pub updated_at: u64,
    pub device_id: Seq<char>,
}

impl View for CapturedItem {
    type V = CapturedItemView;

    open spec fn view(&self) -> CapturedItemView {
        CapturedItemView {
            id: self.id@,
            session_id: self.session_id@,
            kind: self.kind@,
            text: self.text@,
            source: self.source,
            done: self.done,
            created_at: self.created_at,
            updated_at: self.updated_at,
            device_id: self.device_id@,
        }
    }
}

impl Clone for CapturedItem {
    fn clone(&self) -> (r: CapturedItem)
        ensures
            r@ == self@,
    {
        CapturedItem {
            id: self.id.clone(),
            session_id: self.session_id.clone(),
            kind: self.kind.clone(),
            text: self.text.clone(),
            source: self.source,
            done: self.done,
            created_at: self.created_at,
            updated_at: self.updated_at,
            device_id: self.device_id.clone(),
        }
    }
}

/// A person mentioned in a session.
#[derive(Debug, PartialEq)]
pub struct Contact {
    pub id: String,
    pub name: String,
    pub trade: Option<String>,
    pub phone: Option<String>,
    pub notes: Option<String>,
    pub created_at: u64,
    pub updated_at: u64,
    pub device_id: String,
}

/// The mathematical counterpart of [`Contact`].
pub struct ContactView {
    pub id: Seq<char>,
    pub name: Seq<char>,
    pub trade: Option<Seq<char>>,
    pub phone: Option<Seq<char>>,
    pub notes: Option<Seq<char>>,
    pub created_at: u64,
    pub updated_at: u64,
    pub device_id: Seq<char>,
}

impl View for Contact {
    type V = ContactView;

    open spec fn view(&self) -> ContactView {
        ContactView {
            id: self.id@,
            name: self.name@,
            trade: option_view(self.trade),
            phone: option_view(self.phone),
            notes: option_view(self.notes),
            created_at: self.created_at,
            updated_at: self.updated_at,
            device_id: self.device_id@,
        }
    }
}

impl Clone for Contact {
    fn clone(&self) -> (r: Contact)
        ensures
            r@ == self@,
    {
        Contact {
            id: self.id.clone(),
            name: self.name.clone(),
            trade: copy_option(&self.trade),
            phone: copy_option(&self.phone),
            notes: copy_option(&self.notes),
            created_at: self.created_at,
            updated_at: self.updated_at,
            device_id: self.device_id.clone(),
        }
    }
}

/// A generated document. `kind` is a free string; `body` is markdown, or JSON
/// for structured kinds.
#[derive(Debug, PartialEq)]
pub struct Artifact {
    pub id: String,
    pub session_id: String,
    pub kind: String,
    pub title: String,
    pub body: String,
    pub created_at: u64,
    pub updated_at: u64,
    pub device_id: String,
}

/// The mathematical counterpart of [`Artifact`].
pub struct ArtifactView {
    pub id: Seq<char>,
    pub session_id: Seq<char>,
    pub kind: Seq<char>,
    pub title: Seq<char>,
    pub body: Seq<char>,
    pub created_at: u64,
    pub updated_at: u64,
    pub device_id: Seq<char>,
}

impl View for Artifact {
    type V = ArtifactView;

    open spec fn view(&self) -> ArtifactView {
        ArtifactView {
            id: self.id@,
            session_id: self.session_id@,
            kind: self.kind@,
            title: self.title@,
            body: self.body@,
            created_at: self.created_at,
            updated_at: self.updated_at,
            device_id: self.device_id@,
        }
    }
}

impl Clone for Artifact {
    fn clone(&self) -> (r: Artifact)
        ensures
            r@ == self@,
    {
        Artifact {
            id: self.id.clone(),
            session_id: self.session_id.clone(),
            kind: self.kind.clone(),
            title: self.title.clone(),
            body: self.body.clone(),
            created_at: self.created_at,
            updated_at: self.updated_at,
            device_id: self.device_id.clone(),
        }
    }
}

/// One record of the append-only cost log.
#[derive(Debug, PartialEq)]
pub struct LlmUsageRow {
    pub id: String,
    pub session_id: Option<String>,
    /// What the tokens bought: `processing` (one row for all phases of a run),
    /// `live_extraction` or `reflection`.
    pub purpose: String,
    pub input_tokens: u64,
    pub output_tokens: u64,
    pub created_at: u64,
    pub device_id: String,
}

/// The mathematical counterpart of [`LlmUsageRow`].
pub struct LlmUsageRowView {
    pub id: Seq<char>,
    pub session_id: Option<Seq<char>>,
    pub purpose: Seq<char>,
    pub input_tokens: u64,
    pub output_tokens: u64,
    pub created_at: u64,
    pub device_id: Seq<char>,
}

impl View for LlmUsageRow {
    type V = LlmUsageRowView;

    open spec fn view(&self) -> LlmUsageRowView {
        LlmUsageRowView {
            id: self.id@,
            session_id: option_view(self.session_id),
            purpose: self.purpose@,
            input_tokens: self.input_tokens,
            output_tokens: self.output_tokens,
            created_at: self.created_at,
            device_id: self.device_id@,
        }
    }
}

impl Clone for LlmUsageRow {
    fn clone(&self) -> (r: LlmUsageRow)
        ensures
            r@ == self@,
    {
        LlmUsageRow {
            id: self.id.clone(),
            session_id: copy_option(&self.session_id),
            purpose: self.purpose.clone(),
            input_tokens: self.input_tokens,
            output_tokens: self.output_tokens,
            created_at: self.created_at,
            device_id: self.device_id.clone(),
        }
    }
}

/// A session without its transcript, for lists and queue polling.
#[derive(Debug, PartialEq)]
pub struct SessionSummary {
    pub id: String,
    pub job_id: Option<String>,
    pub status: SessionStatus,
    pub summary: Option<String>,
    pub started_at: u64,
    pub ended_at: Option<u64>,
    pub transcript_chars: u64,
}

/// The mathematical counterpart of [`SessionSummary`].
pub struct SessionSummaryView {
    pub id: Seq<char>,
    pub job_id: Option<Seq<char>>,
    pub status: SessionStatus,
    pub summary: Option<Seq<char>>,
    pub started_at: u64,
    pub ended_at: Option<u64>,
    pub transcript_chars: u64,
}

impl View for SessionSummary {
    type V = SessionSummaryView;

    open spec fn view(&self) -> SessionSummaryView {
        SessionSummaryView {
            id: self.id@,
            job_id: option_view(self.job_id),
            status: self.status,
            summary: option_view(self.summary),
            started_at: self.started_at,
            ended_at: self.ended_at,
            transcript_chars: self.transcript_chars,
        }
    }
}

/// What a session looks like without its transcript.
///
/// The length counts characters up to the first NUL, as the database does.
pub open spec fn summarized(s: SessionView) -> SessionSummaryView {
    SessionSummaryView {
        id: s.id,
        job_id: s.job_id,
        status: s.status,
        summary: s.summary,
        started_at: s.started_at,
        ended_at: s.ended_at,
        transcript_chars: text_length(s.transcript) as u64,
    }
}

} // verus!
