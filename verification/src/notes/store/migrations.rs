//! The versions of the schema in which the rows are kept, and the batches that
//! lead from one to the next.

use vstd::prelude::*;
use crate::text::concat3;
use crate::text::decimal;
use crate::text::decimal_text;
use crate::views::seq_views;

verus! {

/// The first schema. Times are in Unix seconds; rows that other devices may see
/// carry their times and their device, and are marked when they are deleted.
pub const INITIAL: &'static str = "
    CREATE TABLE jobs (
        id           TEXT PRIMARY KEY,
        name         TEXT NOT NULL,
        client       TEXT,
        site         TEXT,
        scheduled_at INTEGER,
        status       TEXT NOT NULL,
        created_at   INTEGER NOT NULL,
        updated_at   INTEGER NOT NULL,
        device_id    TEXT NOT NULL,
        deleted_at   INTEGER
    );

    CREATE TABLE sessions (
        id         TEXT PRIMARY KEY,
        job_id     TEXT REFERENCES jobs(id),
        status     TEXT NOT NULL,
        transcript TEXT NOT NULL DEFAULT '',
        summary    TEXT,
        started_at INTEGER NOT NULL,
        ended_at   INTEGER,
        created_at INTEGER NOT NULL,
        updated_at INTEGER NOT NULL,
        device_id  TEXT NOT NULL,
        deleted_at INTEGER
    );

    CREATE TABLE items (
        id         TEXT PRIMARY KEY,
        session_id TEXT NOT NULL REFERENCES sessions(id),
        kind       TEXT NOT NULL,
        text       TEXT NOT NULL,
        done       INTEGER NOT NULL DEFAULT 0,
        created_at INTEGER NOT NULL,
        updated_at INTEGER NOT NULL,
        device_id  TEXT NOT NULL,
        deleted_at INTEGER
    );

    CREATE TABLE contacts (
        id         TEXT PRIMARY KEY,
        name       TEXT NOT NULL,
        trade      TEXT,
        phone      TEXT,
        notes      TEXT,
        created_at INTEGER NOT NULL,
        updated_at INTEGER NOT NULL,
        device_id  TEXT NOT NULL,
        deleted_at INTEGER
    );

    CREATE TABLE artifacts (
        id         TEXT PRIMARY KEY,
        session_id TEXT NOT NULL REFERENCES sessions(id),
        kind       TEXT NOT NULL,
        title      TEXT NOT NULL,
        body       TEXT NOT NULL,
        created_at INTEGER NOT NULL,
        updated_at INTEGER NOT NULL,
        device_id  TEXT NOT NULL,
        deleted_at INTEGER
    );

    CREATE TABLE reflection_state (
        id                INTEGER PRIMARY KEY CHECK (id = 1),
        signals           TEXT NOT NULL,
        last_reflected_at INTEGER NOT NULL DEFAULT 0
    );

    CREATE TABLE llm_usage (
        id            TEXT PRIMARY KEY,
        session_id    TEXT REFERENCES sessions(id),
        purpose       TEXT NOT NULL,
        input_tokens  INTEGER NOT NULL,
        output_tokens INTEGER NOT NULL,
        created_at    INTEGER NOT NULL,
        device_id     TEXT NOT NULL
    );
    CREATE INDEX idx_llm_usage_session ON llm_usage(session_id);

    CREATE INDEX idx_jobs_scheduled ON jobs(scheduled_at);
    CREATE INDEX idx_sessions_started ON sessions(started_at) WHERE deleted_at IS NULL;
    CREATE INDEX idx_sessions_job ON sessions(job_id) WHERE deleted_at IS NULL;
    CREATE INDEX idx_items_session ON items(session_id) WHERE deleted_at IS NULL;
    CREATE INDEX idx_artifacts_session ON artifacts(session_id) WHERE deleted_at IS NULL;
    ";

/// Where an item came from. Rows that were there before count as authoritative:
/// they are replaced only when a new run supersedes them.
pub const ITEM_SOURCE: &'static str = "
    ALTER TABLE items ADD COLUMN source TEXT NOT NULL DEFAULT 'authoritative';
    ";

/// The template of a session, kept so that reprocessing stays consistent.
pub const SESSION_TEMPLATE: &'static str = "
    ALTER TABLE sessions ADD COLUMN template TEXT;
    ";

/// How far the numbering of each kind of document has come on this device.
pub const DOCUMENT_SEQUENCES: &'static str = "
    CREATE TABLE document_sequences (doc_kind TEXT PRIMARY KEY, next INTEGER NOT NULL, device_id TEXT NOT NULL);
    ";

/// The migrations, in the order in which they are applied.
pub open spec fn all_migrations() -> Seq<Seq<char>> {
    seq![INITIAL@, ITEM_SOURCE@, SESSION_TEMPLATE@, DOCUMENT_SEQUENCES@]
}

/// The migrations, in the order in which they are applied. One that was ever in
/// use is never changed: a new one is appended.
pub fn migrations() -> (r: Vec<String>)
    ensures
        seq_views(r@) == all_migrations(),
{
    let r: Vec<String> = vec![
        INITIAL.to_string(),
        ITEM_SOURCE.to_string(),
        SESSION_TEMPLATE.to_string(),
        DOCUMENT_SEQUENCES.to_string(),
    ];
    assert(seq_views(r@) =~= all_migrations());
    r
}

/// A migration and the step of the version number, in one transaction: both
/// happen or neither does.
pub open spec fn batch_of(sql: Seq<char>, version: nat) -> Seq<char> {
    "BEGIN;\n"@ + sql + "\nPRAGMA user_version = "@ + decimal(version) + ";\nCOMMIT;"@
}

/// How many migrations a schema has had. A version that no migration leads to
/// has had them all.
pub open spec fn applied(version: i64, total: nat) -> nat {
    if 0 <= version < total {
        version as nat
    } else {
        total
    }
}

/// The batches that a schema of this version still needs, in order.
pub open spec fn batches_after(version: i64, migrations: Seq<Seq<char>>) -> Seq<Seq<char>> {
    let done = applied(version, migrations.len());
    Seq::new(
        (migrations.len() - done) as nat,
        |i: int| batch_of(migrations[done + i], (done + i + 1) as nat),
    )
}

/// The batches that a schema of this version still needs, in order.
pub fn pending(version: i64, migrations: &Vec<String>) -> (r: Vec<String>)
    ensures
        seq_views(r@) == batches_after(version, seq_views(migrations@)),
{
    let total: usize = migrations.len();
    let done: usize = if 0 <= version && (version as u64) < total as u64 {
        version as usize
    } else {
        total
    };
    let mut out: Vec<String> = Vec::new();
    let mut i: usize = done;
    while i < total
        invariant
            done <= i <= total,
            total == migrations.len(),
            out.len() == i - done,
            forall|k: int|
                0 <= k < out.len() ==> (#[trigger] out@[k])@ == batch_of(
                    migrations@[done + k]@,
                    (done + k + 1) as nat,
                ),
        decreases total - i,
    {
        let mut batch = concat3("BEGIN;\n", migrations[i].as_str(), "\nPRAGMA user_version = ");
        batch.append(decimal_text((i + 1) as u64).as_str());
        batch.append(";\nCOMMIT;");
        out.push(batch);
        i = i + 1;
    }
    assert(seq_views(out@) =~= batches_after(version, seq_views(migrations@)));
    out
}

/// Migrating does not depend on where it starts: what a later version still
/// needs is the end of what an earlier one needs.
pub proof fn law_migrations_resume(from: i64, to: i64, migrations: Seq<Seq<char>>)
    requires
        0 <= from <= to <= migrations.len(),
        migrations.len() <= i64::MAX,
    ensures
        batches_after(to, migrations) == batches_after(from, migrations).skip(to - from),
{
    assert(batches_after(to, migrations) =~= batches_after(from, migrations).skip(to - from));
}

/// A schema still gets every migration from its version on, each with its own step of
/// the version number, and none of those before.
pub proof fn law_pending(version: i64, migrations: &Vec<String>, r: Vec<String>, i: int)
    requires
        call_ensures(pending, (version, migrations), r),
    ensures
        0 <= version <= migrations@.len() ==> r@.len() == migrations@.len() - version,
        0 <= version <= i < migrations@.len() ==> r@[i - version]@ == "BEGIN;\n"@
            + migrations@[i]@ + "\nPRAGMA user_version = "@ + decimal((i + 1) as nat)
            + ";\nCOMMIT;"@,
        version < 0 || version > migrations@.len() ==> r@.len() == 0,
{
    let all = seq_views(r@);
    assert(all.len() == r@.len());
    if 0 <= version <= i < migrations@.len() {
        assert(all[i - version] == r@[i - version]@);
    }
}

} // verus!
