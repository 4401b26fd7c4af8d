use cursor_cleaner::catalog::{first_rows, valid_rows, ConversationRows, SearchRow, StateRow};
use cursor_cleaner::config::Config;
use cursor_cleaner::domain::{SchemaProbe, SchemaState};
use cursor_cleaner::error::AppError;
use cursor_cleaner::json::{JsonValue, Payload};
use cursor_cleaner::platform::HostPlatform;
use cursor_cleaner::store::CursorStore;

fn store() -> CursorStore {
    CursorStore::new(Config::from_locations("/home/u", "/home/u/Cursor/User", "/tmp", HostPlatform::MacOs))
}

fn supported() -> SchemaProbe {
    SchemaProbe { state: SchemaState::Supported, search_version: Some(1), state_version: Some(1), diagnostics: Vec::new() }
}

#[test]
fn first_rows_skip_repeated_ids() {
    let ids: Vec<String> = ["a", "b", "a", "c", "b"].iter().map(|s| s.to_string()).collect();
    assert_eq!(first_rows(&ids), vec![0, 1, 3]);
    assert!(first_rows(&Vec::new()).is_empty());
}

#[test]
fn valid_rows_skip_malformed_ids() {
    let ids: Vec<String> = ["ok-1", "bad id", "", "ok.2"].iter().map(|s| s.to_string()).collect();
    assert_eq!(valid_rows(&ids), vec![0, 3]);
}

fn payload(bytes: &[u8]) -> Payload {
    Payload::read(Some(bytes.to_vec()))
}

#[test]
fn search_rows_become_entries_with_byte_sizes() {
    let raw: &[u8] = br#"{"role":"user","text":"hi"}"#;
    let rows = ConversationRows::Search(vec![SearchRow {
        id: "c1".into(),
        title: "标题".into(),
        updated_at: 42,
        source: "local".into(),
        archived: true,
        composer: payload(raw),
        workspace: "/w".into(),
    }]);
    let list = store().load_conversations(supported(), rows).unwrap();
    assert_eq!(list.len(), 1);
    assert_eq!(list[0].id, "c1");
    assert_eq!(list[0].logical_bytes, 33);
    assert_eq!(list[0].preview, "user: hi");
    assert_eq!(list[0].source, "local");
    assert!(list[0].archived);
}

#[test]
fn state_rows_take_titles_from_header_then_payload() {
    let titled = |t: &str| payload(format!("{{\"title\":\"{t}\"}}").as_bytes());
    let rows = ConversationRows::State(vec![
        StateRow {
            id: "a".into(),
            updated_at: 1,
            archived: false,
            composer: titled("from payload"),
            header: titled("  from header  "),
            workspace: "/w".into(),
        },
        StateRow {
            id: "b".into(),
            updated_at: 2,
            archived: false,
            composer: titled("from payload"),
            header: Payload::read(None),
            workspace: "/w".into(),
        },
        StateRow {
            id: "c".into(),
            updated_at: 3,
            archived: false,
            composer: Payload::read(None),
            header: titled("   "),
            workspace: "/w".into(),
        },
    ]);
    let list = store().load_conversations(supported(), rows).unwrap();
    assert_eq!(list[0].title, "from header");
    assert_eq!(list[0].logical_bytes, 51);
    assert_eq!(list[0].source, "state.vscdb");
    assert_eq!(list[1].title, "from payload");
    assert_eq!(list[1].logical_bytes, 24);
    assert_eq!(list[2].title, "未命名对话");
    assert_eq!(list[2].preview, "");
}

#[test]
fn unparsable_payloads_count_their_bytes_but_give_no_text() {
    let rows = ConversationRows::State(vec![StateRow {
        id: "a".into(),
        updated_at: 1,
        archived: false,
        composer: payload(b"{oops"),
        header: payload(b"[1,"),
        workspace: "/w".into(),
    }]);
    let list = store().load_conversations(supported(), rows).unwrap();
    assert_eq!(list[0].logical_bytes, 8);
    assert_eq!(list[0].title, "未命名对话");
    assert_eq!(list[0].preview, "");
}

#[test]
fn unsupported_layout_refuses_to_list() {
    let probe = SchemaProbe {
        state: SchemaState::Unsupported,
        search_version: None,
        state_version: None,
        diagnostics: vec!["x".into(), "y".into()],
    };
    match store().load_conversations(probe, ConversationRows::State(Vec::new())) {
        Err(AppError::UnsupportedSchema(m)) => assert_eq!(m, "x；y"),
        other => panic!("unexpected {other:?}"),
    }
}

#[test]
fn payload_parses_json_and_counts_raw_bytes() {
    let raw: &[u8] = br#"{"a":[1,true,null,"x"]}"#;
    let p = payload(raw);
    assert_eq!(p.size(), raw.len());
    match p.json() {
        Some(JsonValue::Object(members)) => {
            assert_eq!(members.len(), 1);
            assert_eq!(members[0].key, "a");
            match &members[0].value {
                JsonValue::Array(items) => {
                    assert!(matches!(&items[0], JsonValue::Number(n) if n == "1"));
                    assert!(matches!(&items[1], JsonValue::Bool(true)));
                    assert!(matches!(&items[2], JsonValue::Null));
                    assert!(matches!(&items[3], JsonValue::Text(t) if t == "x"));
                }
                other => panic!("unexpected {other:?}"),
            }
        }
        other => panic!("unexpected {other:?}"),
    }
    assert!(payload(b"{\"a\":").json().is_none());
    assert_eq!(payload(b"{\"a\":").size(), 5);
    let missing = Payload::read(None);
    assert!(missing.json().is_none());
    assert_eq!(missing.size(), 0);
}
