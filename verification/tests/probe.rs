use cursor_cleaner::config::Config;
use cursor_cleaner::domain::SchemaState;
use cursor_cleaner::platform::HostPlatform;
use cursor_cleaner::store::{CursorStore, SearchFacts, StateFacts};
use rusqlite::{Connection, OptionalExtension};

fn columns(connection: &Connection, table: &str) -> Vec<String> {
    let mut statement = connection.prepare(&format!("PRAGMA table_info('{table}')")).unwrap();
    let rows = statement.query_map([], |row| row.get::<_, String>(1)).unwrap();
    rows.map(|row| row.unwrap()).collect()
}

fn state_db() -> Connection {
    let connection = Connection::open_in_memory().unwrap();
    connection
        .execute_batch(
            "PRAGMA user_version=1;
             CREATE TABLE ItemTable (key TEXT UNIQUE ON CONFLICT REPLACE, value BLOB);
             CREATE TABLE cursorDiskKV (key TEXT UNIQUE ON CONFLICT REPLACE, value BLOB);
             CREATE TABLE composerHeaders (
                 composerId TEXT PRIMARY KEY, workspaceId TEXT, createdAt INTEGER, lastUpdatedAt INTEGER,
                 isArchived INTEGER, isSubagent INTEGER, recency INTEGER, checkpointAt INTEGER, value TEXT);",
        )
        .unwrap();
    connection
}

fn search_db() -> Connection {
    let connection = Connection::open_in_memory().unwrap();
    connection
        .execute_batch(
            "PRAGMA user_version=7;
             CREATE TABLE conversations (
                 fts_rowid INTEGER PRIMARY KEY, source TEXT NOT NULL, scope TEXT NOT NULL, id TEXT NOT NULL,
                 title TEXT NOT NULL, updated_at INTEGER NOT NULL, is_archived INTEGER NOT NULL,
                 root_fingerprint TEXT, cache_fingerprint TEXT);
             CREATE VIRTUAL TABLE conversation_fts USING fts5(title, body);
             CREATE TABLE conversation_search_candidates (id TEXT PRIMARY KEY, updated_at INTEGER NOT NULL);",
        )
        .unwrap();
    connection
}

fn state_facts(connection: &Connection) -> StateFacts {
    StateFacts {
        version: connection.query_row("PRAGMA user_version", [], |row| row.get(0)).unwrap(),
        item_columns: columns(connection, "ItemTable"),
        cursor_columns: columns(connection, "cursorDiskKV"),
        header_columns: columns(connection, "composerHeaders"),
    }
}

fn search_facts(connection: &Connection) -> SearchFacts {
    SearchFacts {
        version: connection.query_row("PRAGMA user_version", [], |row| row.get(0)).unwrap(),
        conversation_columns: columns(connection, "conversations"),
        candidate_columns: columns(connection, "conversation_search_candidates"),
        fts_sql: connection
            .query_row(
                "SELECT sql FROM sqlite_master WHERE type='table' AND name='conversation_fts'",
                [],
                |row| row.get(0),
            )
            .optional()
            .unwrap(),
    }
}

fn store() -> CursorStore {
    CursorStore::new(Config::from_locations("/Users/u", "/Users/u/C", "/tmp", HostPlatform::MacOs))
}

#[test]
fn probe_verdict_on_sqlite_schemas() {
    let state = state_db();
    let search = search_db();
    let probe = store().probe(Some(state_facts(&state)), Some(search_facts(&search)));
    assert!(probe.supported());
    assert_eq!(probe.search_version, Some(7));
    assert!(probe.diagnostics.is_empty());
    search.execute_batch("PRAGMA user_version=99").unwrap();
    let probe = store().probe(Some(state_facts(&state)), Some(search_facts(&search)));
    assert_eq!(probe.state, SchemaState::Unsupported);
    assert!(probe.diagnostics.iter().any(|value| value.contains("99")));
}

#[test]
fn probe_without_search_database_is_state_only() {
    let state = state_db();
    let probe = store().probe(Some(state_facts(&state)), None);
    assert_eq!(probe.state, SchemaState::Supported);
    assert_eq!(probe.search_version, None);
    assert!(probe.diagnostics.iter().any(|value| value.contains("单库模式")));
}

#[test]
fn probe_reports_missing_state_and_wrong_columns() {
    let probe = store().probe(None, None);
    assert_eq!(probe.state, SchemaState::Missing);
    assert_eq!(probe.diagnostics, ["缺少 state.vscdb：/Users/u/C/globalStorage/state.vscdb"]);
    let state = state_db();
    let mut facts = state_facts(&state);
    facts.item_columns = vec!["key".into()];
    let probe = store().probe(Some(facts), None);
    assert_eq!(probe.state, SchemaState::Unsupported);
    assert!(probe.diagnostics.iter().any(|v| v == "ItemTable 列结构不匹配：期望 key,value，实际 key"));
}

#[test]
fn integrity_results_other_than_ok_fail() {
    assert!(CursorStore::integrity_check("ok", Some("ok")).is_ok());
    assert!(CursorStore::integrity_check("ok", None).is_ok());
    match CursorStore::integrity_check("ok", Some("page 3 bad")) {
        Err(cursor_cleaner::error::AppError::Preflight(m)) => {
            assert_eq!(m, "conversation-search.db 完整性检查失败：page 3 bad")
        }
        other => panic!("unexpected {other:?}"),
    }
    assert!(CursorStore::integrity_check("bad", Some("ok")).is_err());
}
