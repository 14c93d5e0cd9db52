//! The schema's versions, applied to a real database.

use murmur::notes::domain::ItemSource;
use murmur::notes::store::migrations::{migrations, pending};
use rusqlite::Connection;

fn version(conn: &Connection) -> i64 {
    conn.pragma_query_value(None, "user_version", |r| r.get(0)).unwrap()
}

/// Runs what is pending. A batch that fails is rolled back.
fn migrate_with(conn: &Connection, migrations: &Vec<String>) -> Result<(), rusqlite::Error> {
    for batch in pending(version(conn), migrations) {
        if let Err(e) = conn.execute_batch(&batch) {
            if !conn.is_autocommit() {
                conn.execute_batch("ROLLBACK;")?;
            }
            return Err(e);
        }
    }
    Ok(())
}

#[test]
fn failed_migration_rolls_back_cleanly() {
    let conn = Connection::open_in_memory().unwrap();
    let broken = vec![migrations()[0].clone(), "CREATE TABLE broken (;".to_string()];
    let err = migrate_with(&conn, &broken);
    assert!(err.is_err(), "broken migration must surface an error");

    // v1 committed; the broken v2 rolled back entirely.
    assert_eq!(version(&conn), 1);

    // Re-running with a fixed second migration succeeds.
    let fixed =
        vec![migrations()[0].clone(), "CREATE TABLE fixed (id TEXT PRIMARY KEY);".to_string()];
    migrate_with(&conn, &fixed).unwrap();
    assert_eq!(version(&conn), 2);
}

#[test]
fn existing_rows_backfill_as_authoritative() {
    let conn = Connection::open_in_memory().unwrap();
    conn.execute_batch("PRAGMA foreign_keys = OFF;").unwrap();
    migrate_with(&conn, &migrations()[..1].to_vec()).unwrap();
    conn.execute(
        "INSERT INTO items (id, session_id, kind, text, done, created_at, updated_at, device_id)
         VALUES ('legacy', ?1, 'todo', 'old', 0, 1, 1, 'device-a')",
        ["s"],
    )
    .unwrap();
    migrate_with(&conn, &migrations()).unwrap();
    let source: String = conn
        .query_row("SELECT source FROM items WHERE id = 'legacy'", [], |r| r.get(0))
        .unwrap();
    assert_eq!(
        ItemSource::parse(&source).unwrap(),
        ItemSource::Authoritative,
        "the column DEFAULT backfills rows that predate the source column"
    );
}

#[test]
fn every_migration_applies_once() {
    let conn = Connection::open_in_memory().unwrap();
    assert_eq!(pending(0, &migrations()).len(), 4);
    migrate_with(&conn, &migrations()).unwrap();
    assert_eq!(version(&conn), 4);
    assert!(pending(version(&conn), &migrations()).is_empty());
    migrate_with(&conn, &migrations()).unwrap();
    for table in ["jobs", "sessions", "items", "contacts", "artifacts", "llm_usage", "document_sequences"] {
        conn.execute_batch(&format!("SELECT * FROM {table};")).unwrap();
    }
}

#[test]
fn batches_are_numbered_transactions() {
    let list = vec!["A;".to_string(), "B;".to_string()];
    assert_eq!(
        pending(0, &list),
        vec![
            "BEGIN;\nA;\nPRAGMA user_version = 1;\nCOMMIT;",
            "BEGIN;\nB;\nPRAGMA user_version = 2;\nCOMMIT;",
        ]
    );
    assert_eq!(pending(1, &list), pending(0, &list)[1..].to_vec());
    assert!(pending(2, &list).is_empty());
    assert!(pending(7, &list).is_empty());
    assert!(pending(-1, &list).is_empty());
}
