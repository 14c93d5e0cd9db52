//! Every change is dated by the store's clock.

use vstd::prelude::*;
use crate::harness::llm::Usage;
use crate::notes::domain::Artifact;
use crate::notes::domain::CapturedItem;
use crate::notes::domain::Contact;
use crate::notes::domain::LlmUsageRow;
use crate::notes::domain::Session;
use crate::notes::error::CoreError;
use crate::notes::store::Store;
use crate::ratio::Ratio;

verus! {

/// What is said dates the session; when it began stays.
pub proof fn law_append_is_dated(
    store: &mut Store,
    id: &str,
    chunk: &str,
    r: Result<(), CoreError>,
)
    requires
        call_ensures(Store::append_transcript, (store, id, chunk), r),
    ensures
        r is Ok ==> old(store)@.clock.shows(final(store)@.session(id@)->0.updated_at),
        r is Ok ==> final(store)@.session(id@)->0.created_at == old(store)@.session(id@)->0.created_at
            && final(store)@.session(id@)->0.started_at == old(store)@.session(id@)->0.started_at
            && final(store)@.session(id@)->0.device_id == old(store)@.session(id@)->0.device_id,
        r is Ok ==> final(store)@.session(id@)->0.ended_at == old(store)@.session(id@)->0.ended_at,
{
}

/// A template that is set dates the session.
pub proof fn law_template_is_dated(
    store: &mut Store,
    id: &str,
    template: &str,
    r: Result<(), CoreError>,
)
    requires
        call_ensures(Store::set_session_template, (store, id, template), r),
    ensures
        r is Ok ==> old(store)@.clock.shows(final(store)@.session(id@)->0.updated_at),
        r is Ok ==> final(store)@.session(id@)->0.created_at == old(store)@.session(id@)->0.created_at
            && final(store)@.session(id@)->0.started_at == old(store)@.session(id@)->0.started_at
            && final(store)@.session(id@)->0.device_id == old(store)@.session(id@)->0.device_id,
        r is Ok ==> final(store)@.session(id@)->0.ended_at == old(store)@.session(id@)->0.ended_at,
{
}

/// A session ends at the time that the clock shows.
pub proof fn law_end_is_dated(
    store: &mut Store,
    id: &str,
    r: Result<Session, CoreError>,
)
    requires
        call_ensures(Store::end_session, (store, id), r),
    ensures
        r is Ok ==> old(store)@.clock.shows(final(store)@.session(id@)->0.updated_at),
        r is Ok ==> final(store)@.session(id@)->0.created_at == old(store)@.session(id@)->0.created_at
            && final(store)@.session(id@)->0.started_at == old(store)@.session(id@)->0.started_at
            && final(store)@.session(id@)->0.device_id == old(store)@.session(id@)->0.device_id,
        r is Ok ==> (final(store)@.session(id@)->0.ended_at matches Some(t)
            && old(store)@.clock.shows(t)),
{
}

/// The same where the end is counted.
pub proof fn law_recorded_end_is_dated(
    store: &mut Store,
    id: &str,
    r: Result<Session, CoreError>,
)
    requires
        call_ensures(Store::end_and_record_session, (store, id), r),
    ensures
        r is Ok ==> old(store)@.clock.shows(final(store)@.session(id@)->0.updated_at),
        r is Ok ==> final(store)@.session(id@)->0.created_at == old(store)@.session(id@)->0.created_at
            && final(store)@.session(id@)->0.started_at == old(store)@.session(id@)->0.started_at
            && final(store)@.session(id@)->0.device_id == old(store)@.session(id@)->0.device_id,
        r is Ok ==> (final(store)@.session(id@)->0.ended_at matches Some(t)
            && old(store)@.clock.shows(t)),
{
}

/// A session that is marked as processed is dated; when it ended stays.
pub proof fn law_processed_mark_is_dated(
    store: &mut Store,
    id: &str,
    summary: &str,
    r: Result<Session, CoreError>,
)
    requires
        call_ensures(Store::mark_session_processed, (store, id, summary), r),
    ensures
        r is Ok ==> old(store)@.clock.shows(final(store)@.session(id@)->0.updated_at),
        r is Ok ==> final(store)@.session(id@)->0.created_at == old(store)@.session(id@)->0.created_at
            && final(store)@.session(id@)->0.started_at == old(store)@.session(id@)->0.started_at
            && final(store)@.session(id@)->0.device_id == old(store)@.session(id@)->0.device_id,
        r is Ok ==> final(store)@.session(id@)->0.ended_at == old(store)@.session(id@)->0.ended_at,
{
}

/// A session that is marked as failed is dated; when it ended stays.
pub proof fn law_failed_mark_is_dated(
    store: &mut Store,
    id: &str,
    r: Result<Session, CoreError>,
)
    requires
        call_ensures(Store::mark_session_failed, (store, id), r),
    ensures
        r is Ok ==> old(store)@.clock.shows(final(store)@.session(id@)->0.updated_at),
        r is Ok ==> final(store)@.session(id@)->0.created_at == old(store)@.session(id@)->0.created_at
            && final(store)@.session(id@)->0.started_at == old(store)@.session(id@)->0.started_at
            && final(store)@.session(id@)->0.device_id == old(store)@.session(id@)->0.device_id,
        r is Ok ==> final(store)@.session(id@)->0.ended_at == old(store)@.session(id@)->0.ended_at,
{
}

/// A deleted session keeps its row, with the time of its deletion.
pub proof fn law_deletion_is_dated(
    store: &mut Store,
    id: &str,
    r: Result<(), CoreError>,
)
    requires
        call_ensures(Store::delete_session, (store, id), r),
    ensures
        r is Ok ==> final(store)@.sessions.contains_key(id@) && (
        final(store)@.sessions[id@].deleted_at matches Some(t) && old(store)@.clock.shows(t)),
        r is Ok ==> final(store)@.sessions[id@].session.transcript
            == old(store)@.session(id@)->0.transcript,
{
}

/// An item that is ticked off is dated.
pub proof fn law_tick_off_is_dated(
    store: &mut Store,
    id: &str,
    done: bool,
    r: Result<CapturedItem, CoreError>,
)
    requires
        call_ensures(Store::set_item_done, (store, id, done), r),
    ensures
        r matches Ok(item) ==> old(store)@.clock.shows(item@.updated_at) && item@.device_id
            == old(store)@.item(id@)->0.device_id,
{
}

/// A deleted item keeps its row, with the time of its deletion.
pub proof fn law_item_deletion_is_dated(
    store: &mut Store,
    id: &str,
    r: Result<(), CoreError>,
)
    requires
        call_ensures(Store::delete_item, (store, id), r),
    ensures
        r is Ok ==> final(store)@.items.contains_key(id@) && (
        final(store)@.items[id@].deleted_at matches Some(t) && old(store)@.clock.shows(t)),
        r is Ok ==> final(store)@.items[id@].item.text == old(store)@.item(id@)->0.text,
{
}

/// An artifact that is edited is dated; when it was written stays.
pub proof fn law_edit_is_dated(
    store: &mut Store,
    id: &str,
    body: &str,
    r: Result<Artifact, CoreError>,
)
    requires
        call_ensures(Store::update_artifact_body, (store, id, body), r),
    ensures
        r matches Ok(a) ==> old(store)@.clock.shows(a@.updated_at) && a@.device_id
            == old(store)@.artifact(id@)->0.device_id,
{
}

/// A deleted artifact keeps its row, with the time of its deletion.
pub proof fn law_artifact_deletion_is_dated(
    store: &mut Store,
    id: &str,
    r: Result<(), CoreError>,
)
    requires
        call_ensures(Store::delete_artifact, (store, id), r),
    ensures
        r is Ok ==> final(store)@.artifacts.contains_key(id@) && (
        final(store)@.artifacts[id@].deleted_at matches Some(t) && old(store)@.clock.shows(t)),
        r is Ok ==> final(store)@.artifacts[id@].artifact.body == old(store)@.artifact(id@)->0.body,
{
}

/// A new artifact is dated, and names the device.
pub proof fn law_added_artifact_is_dated(
    store: &mut Store,
    session_id: &str,
    kind: &str,
    title: &str,
    body: &str,
    r: Result<Artifact, CoreError>,
)
    requires
        call_ensures(Store::add_artifact, (store, session_id, kind, title, body), r),
    ensures
        r matches Ok(a) ==> old(store)@.clock.shows(a@.created_at) && a@.updated_at == a@.created_at
            && a@.device_id == old(store)@.device_id,
{
}

/// A new item is dated, and names the device.
pub proof fn law_added_item_is_dated(
    store: &mut Store,
    session_id: &str,
    kind: &str,
    text: &str,
    r: Result<CapturedItem, CoreError>,
)
    requires
        call_ensures(Store::add_item, (store, session_id, kind, text), r),
    ensures
        r matches Ok(i) ==> old(store)@.clock.shows(i@.created_at) && i@.updated_at == i@.created_at
            && i@.device_id == old(store)@.device_id,
{
}

/// A person who is saved is dated.
pub proof fn law_contact_is_dated(
    store: &mut Store,
    name: &str,
    trade: Option<&str>,
    phone: Option<&str>,
    notes: Option<&str>,
    r: Result<Contact, CoreError>,
)
    requires
        call_ensures(Store::upsert_contact, (store, name, trade, phone, notes), r),
    ensures
        r matches Ok(c) ==> old(store)@.clock.shows(c@.updated_at),
{
}

/// A use that is logged is dated, and names the device.
pub proof fn law_logged_use_is_dated(
    store: &mut Store,
    session_id: Option<&str>,
    purpose: &str,
    usage: &Usage,
    r: Result<LlmUsageRow, CoreError>,
)
    requires
        call_ensures(Store::record_llm_usage, (store, session_id, purpose, usage), r),
    ensures
        r matches Ok(row) ==> old(store)@.clock.shows(row@.created_at) && row@.device_id
            == old(store)@.device_id,
{
}

/// A finished reflection is dated.
pub proof fn law_reflection_is_dated(
    store: &mut Store,
    churn: Ratio,
    usage: &Usage,
    r: Result<(), CoreError>,
)
    requires
        call_ensures(Store::finish_reflection, (store, churn, usage), r),
    ensures
        r is Ok ==> old(store)@.clock.shows(final(store)@.last_reflected_at),
        r is Err ==> final(store)@.last_reflected_at == old(store)@.last_reflected_at,
{
}

} // verus!
