//! How stored names and messages read.

use vstd::prelude::*;
use crate::harness::error::HarnessError;
use crate::notes::domain::ItemSource;
use crate::notes::domain::JobStatus;
use crate::notes::domain::law_stored_names_are_unambiguous;
use crate::notes::domain::SessionStatus;
use crate::notes::error::CoreError;
use crate::text::decimal;

verus! {

/// The stored names of a session's status.
pub proof fn law_session_status_names(status: SessionStatus, r: &str)
    requires
        call_ensures(SessionStatus::as_str, (status,), r),
    ensures
        r@ == "recording"@ <==> status == SessionStatus::Recording,
        r@ == "awaiting_processing"@ <==> status == SessionStatus::AwaitingProcessing,
        r@ == "processed"@ <==> status == SessionStatus::Processed,
        r@ == "failed"@ <==> status == SessionStatus::Failed,
{
    law_stored_names_are_unambiguous();
    assert(SessionStatus::Recording.name() == "recording"@);
    assert(SessionStatus::AwaitingProcessing.name() == "awaiting_processing"@);
    assert(SessionStatus::Processed.name() == "processed"@);
    assert(SessionStatus::Failed.name() == "failed"@);
}

/// The stored names of an item's origin.
pub proof fn law_item_source_names(source: ItemSource, r: &str)
    requires
        call_ensures(ItemSource::as_str, (source,), r),
    ensures
        r@ == "live"@ <==> source == ItemSource::Live,
        r@ == "authoritative"@ <==> source == ItemSource::Authoritative,
        r@ == "manual"@ <==> source == ItemSource::Manual,
{
    law_stored_names_are_unambiguous();
    assert(ItemSource::Live.name() == "live"@);
    assert(ItemSource::Authoritative.name() == "authoritative"@);
    assert(ItemSource::Manual.name() == "manual"@);
}

/// The stored names of a job's status.
pub proof fn law_job_status_names(status: JobStatus, r: &str)
    requires
        call_ensures(JobStatus::as_str, (status,), r),
    ensures
        r@ == "active"@ <==> status == JobStatus::Active,
        r@ == "done"@ <==> status == JobStatus::Done,
        r@ == "archived"@ <==> status == JobStatus::Archived,
{
    law_stored_names_are_unambiguous();
    assert(JobStatus::Active.name() == "active"@);
    assert(JobStatus::Done.name() == "done"@);
    assert(JobStatus::Archived.name() == "archived"@);
}

/// A name that was written is read as what it was written for.
pub proof fn law_names_are_read_back(
    status: SessionStatus,
    name: &str,
    read: Result<SessionStatus, CoreError>,
    source: ItemSource,
    source_name: &str,
    source_read: Result<ItemSource, CoreError>,
    job: JobStatus,
    job_name: &str,
    job_read: Result<JobStatus, CoreError>,
)
    requires
        call_ensures(SessionStatus::as_str, (status,), name),
        call_ensures(SessionStatus::parse, (name,), read),
        call_ensures(ItemSource::as_str, (source,), source_name),
        call_ensures(ItemSource::parse, (source_name,), source_read),
        call_ensures(JobStatus::as_str, (job,), job_name),
        call_ensures(JobStatus::parse, (job_name,), job_read),
    ensures
        read matches Ok(s) && s == status,
        source_read matches Ok(s) && s == source,
        job_read matches Ok(s) && s == job,
{
    law_stored_names_are_unambiguous();
}

/// A name that nothing was written for is corrupt.
pub proof fn law_unknown_names_are_corrupt(
    name: &str,
    read: Result<SessionStatus, CoreError>,
    source_read: Result<ItemSource, CoreError>,
    job_read: Result<JobStatus, CoreError>,
)
    requires
        call_ensures(SessionStatus::parse, (name,), read),
        call_ensures(ItemSource::parse, (name,), source_read),
        call_ensures(JobStatus::parse, (name,), job_read),
    ensures
        name@ != "recording"@ && name@ != "awaiting_processing"@ && name@ != "processed"@ && name@
            != "failed"@ ==> read is Err && read->Err_0@ is Corrupt,
        name@ != "live"@ && name@ != "authoritative"@ && name@ != "manual"@ ==> source_read is Err
            && source_read->Err_0@ is Corrupt,
        name@ != "active"@ && name@ != "done"@ && name@ != "archived"@ ==> job_read is Err
            && job_read->Err_0@ is Corrupt,
{
}

/// A message says what is wrong, and holds every detail whole.
pub proof fn law_core_messages(e: &CoreError, r: String)
    requires
        call_ensures(CoreError::to_text, (e,), r),
    ensures
        match e {
            CoreError::NotFound { entity, id } => r@ == entity@ + " not found: "@ + id@,
            CoreError::InvalidState(m) => r@ == "invalid state: "@ + m@,
            CoreError::Corrupt(m) => r@ == "corrupt data: "@ + m@,
            CoreError::Storage(m) => r@ == "storage error: "@ + m@,
            CoreError::Agent(inner) => r@ == "agent error: "@ + inner@.message(),
        },
{
}

/// The same of what the harness reports.
pub proof fn law_harness_messages(e: &HarnessError, r: String)
    requires
        call_ensures(HarnessError::to_text, (e,), r),
    ensures
        match e {
            HarnessError::Provider(m) => r@ == "provider error: "@ + m@,
            HarnessError::UnknownTool(n) => r@ == "unknown tool: "@ + n@,
            HarnessError::Tool { name, message } => r@ == "tool '"@ + name@ + "' failed: "@
                + message@,
            HarnessError::MaxTurns(n) => r@ == "agent exceeded max turns ("@ + decimal(*n as nat)
                + ")"@,
        },
{
}

} // verus!
