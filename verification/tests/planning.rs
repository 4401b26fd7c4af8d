use cursor_cleaner::domain::{DeletePlan, Impact};
use cursor_cleaner::error::AppError;
use cursor_cleaner::json::{JsonMember, JsonValue};
use cursor_cleaner::planning::{
    all_removed, check_transcript_target, classify_state_key, foreign_key_label, plan_expired, plan_impact, plan_unchanged,
    receipt_for, requested_ids, requested_present, transaction_verdict, KeyClass, KeyScan, OwnedIdsWalk, SearchCounts,
    StateTable,
};

fn strings(a: &[&str]) -> Vec<String> {
    a.iter().map(|s| s.to_string()).collect()
}

fn plan(id: u64, conversations: usize) -> DeletePlan {
    let mut impact = Impact::empty();
    impact.conversations = conversations;
    impact.state_rows = 5;
    impact.headers = 2;
    impact.transcript_dirs = 1;
    DeletePlan {
        id,
        created_at: 0,
        conversation_ids: strings(&["a"]),
        owned_ids: strings(&["a"]),
        transcript_dirs: Vec::new(),
        impact,
        protected_paths: Vec::new(),
    }
}

#[test]
fn requests_are_sorted_deduplicated_and_checked() {
    assert_eq!(requested_ids(&strings(&["b", "a", "b"])).unwrap(), strings(&["a", "b"]));
    assert!(matches!(requested_ids(&Vec::new()), Err(AppError::Planning(m)) if m == "没有选择对话"));
    assert!(matches!(requested_ids(&strings(&["a", "b/c"])), Err(AppError::Planning(m)) if m == "对话标识格式无效"));
}

#[test]
fn owned_walk_follows_sub_conversations_once() {
    let children = |ids: &[&str]| {
        JsonValue::Object(vec![JsonMember {
            key: "subComposerIds".into(),
            value: JsonValue::Array(ids.iter().map(|s| JsonValue::Text(s.to_string())).collect()),
        }])
    };
    let requested = strings(&["root"]);
    let mut walk = OwnedIdsWalk::start(&requested);
    let root = children(&["kid", "bad id", "root"]);
    let kid = children(&["root"]);
    let mut seen = Vec::new();
    while let Some(id) = walk.next_id() {
        seen.push(id.clone());
        let payload = if id == "root" { Some(&root) } else { Some(&kid) };
        walk.record(&id, Some(payload)).unwrap();
    }
    assert_eq!(seen, strings(&["root", "kid"]));
    assert_eq!(walk.owned_ids(), strings(&["kid", "root"]));
}

#[test]
fn owned_walk_requires_payloads_of_requested_conversations() {
    let mut walk = OwnedIdsWalk::start(&strings(&["a"]));
    let id = walk.next_id().unwrap();
    assert!(matches!(walk.record(&id, None), Err(AppError::Planning(m)) if m == "缺少精确正文状态 composerData:a"));
    let mut walk = OwnedIdsWalk::start(&strings(&["a"]));
    let id = walk.next_id().unwrap();
    assert!(matches!(walk.record(&id, Some(None)), Err(AppError::Planning(m)) if m == "composerData:a 不是有效 JSON"));
}

#[test]
fn owned_walk_parses_raw_payloads() {
    let requested = strings(&["root"]);
    let mut walk = OwnedIdsWalk::start(&requested);
    let mut seen = Vec::new();
    while let Some(id) = walk.next_id() {
        seen.push(id.clone());
        let raw: &[u8] = if id == "root" { br#"{"subComposerIds":["kid","bad id"]}"# } else { b"{}" };
        walk.record_raw(&id, Some(raw)).unwrap();
    }
    assert_eq!(seen, strings(&["root", "kid"]));
    assert_eq!(walk.owned_ids(), strings(&["kid", "root"]));
    let mut walk = OwnedIdsWalk::start(&strings(&["a"]));
    let id = walk.next_id().unwrap();
    assert!(matches!(walk.record_raw(&id, Some(b"{broken")), Err(AppError::Planning(m)) if m == "composerData:a 不是有效 JSON"));
    let mut walk = OwnedIdsWalk::start(&strings(&["a"]));
    let id = walk.next_id().unwrap();
    assert!(matches!(walk.record_raw(&id, None), Err(AppError::Planning(m)) if m == "缺少精确正文状态 composerData:a"));
}

#[test]
fn state_keys_are_owned_foreign_or_unrelated() {
    let owned = strings(&["c1"]);
    assert_eq!(classify_state_key(StateTable::CursorDiskKv, "composerData:c1", &owned), KeyClass::Owned);
    assert_eq!(classify_state_key(StateTable::CursorDiskKv, "bubbleId:c1:7", &owned), KeyClass::Owned);
    assert_eq!(classify_state_key(StateTable::CursorDiskKv, "somethingElse:c1", &owned), KeyClass::Foreign);
    assert_eq!(classify_state_key(StateTable::CursorDiskKv, "composerData:c2", &owned), KeyClass::Unrelated);
    assert_eq!(
        classify_state_key(StateTable::ItemTable, "cursor/glass.tabs.v2/ws/c1/state.json", &owned),
        KeyClass::Owned
    );
    assert_eq!(classify_state_key(StateTable::ItemTable, "composerData:c1", &owned), KeyClass::Foreign);
    assert_eq!(foreign_key_label(StateTable::ItemTable, "k"), "ItemTable/k");
    assert_eq!(foreign_key_label(StateTable::CursorDiskKv, "k"), "cursorDiskKV/k");
}

#[test]
fn plans_expire_after_ten_minutes() {
    let minute: u128 = 60_000_000_000;
    assert!(!plan_expired(0, 10 * minute));
    assert!(plan_expired(0, 10 * minute + 1));
    assert!(!plan_expired(10 * minute, 0));
}

#[test]
fn plans_must_match_to_execute() {
    assert!(plan_unchanged(&plan(1, 1), &plan(1, 1)));
    assert!(!plan_unchanged(&plan(1, 1), &plan(2, 1)));
    assert!(!plan_unchanged(&plan(1, 1), &plan(1, 2)));
    let r = receipt_for(&plan(1, 3), 5, 9);
    assert_eq!((r.deleted_conversations, r.deleted_state_rows, r.deleted_transcript_dirs), (3, 7, 1));
    assert!(r.verified);
    assert_eq!((r.started_at, r.ended_at), (5, 9));
}

#[test]
fn transaction_checks_counts_before_integrity() {
    assert!(transaction_verdict(&vec![0, 0], "ok", true).is_ok());
    assert!(matches!(transaction_verdict(&vec![0, 1], "bad", true), Err(AppError::Execution(m)) if m == "事务内记录数量校验失败"));
    assert!(matches!(transaction_verdict(&vec![], "bad", true), Err(AppError::Execution(m)) if m == "事务内数据库完整性校验失败"));
    assert!(transaction_verdict(&vec![], "ok", false).is_err());
}

#[test]
fn lookups_that_failed_count_against_success() {
    assert!(all_removed(&vec![Some(false), Some(false)]));
    assert!(!all_removed(&vec![Some(false), None]));
    assert!(requested_present(&vec![Some(true)]).is_ok());
    assert!(matches!(requested_present(&vec![Some(true), None]), Err(AppError::Planning(m)) if m == "搜索库中有选中对话已经不存在"));
}

#[test]
fn transcript_targets_must_have_the_expected_shape() {
    let allowed = strings(&["c1"]);
    assert!(check_transcript_target(Some(&strings(&["proj", "agent-transcripts", "c1"])), &allowed, "/p").is_ok());
    assert!(matches!(
        check_transcript_target(Some(&strings(&["proj", "other", "c1"])), &allowed, "/p"),
        Err(AppError::Execution(m)) if m == "transcript 路径结构不安全：/p"
    ));
    assert!(check_transcript_target(Some(&strings(&["proj", "agent-transcripts", "c2"])), &allowed, "/p").is_err());
    assert!(matches!(check_transcript_target(None, &allowed, "/p"), Err(AppError::Execution(m)) if m == "transcript 目标逃逸白名单"));
}

#[test]
fn key_scan_counts_owned_rows_and_collects_foreign_labels() {
    let owned = strings(&["c1"]);
    let mut scan = KeyScan::new();
    assert!(scan.record(StateTable::CursorDiskKv, "composerData:c1", &owned));
    assert!(!scan.record(StateTable::CursorDiskKv, "zzz:c1", &owned));
    assert!(!scan.record(StateTable::CursorDiskKv, "aaa:c1", &owned));
    assert!(!scan.record(StateTable::CursorDiskKv, "aaa:c1", &owned));
    assert!(!scan.record(StateTable::ItemTable, "other", &owned));
    assert!(scan.record(StateTable::ItemTable, "cursor/glass.editorPanelFullscreen/c1", &owned));
    assert_eq!(scan.owned_rows, 2);
    assert_eq!(scan.foreign, strings(&["cursorDiskKV/aaa:c1", "cursorDiskKV/zzz:c1"]));
}

#[test]
fn finished_walk_owns_the_closure_of_the_links() {
    let mut walk = OwnedIdsWalk::start(&strings(&["a"]));
    while let Some(id) = walk.next_id() {
        let raw: &[u8] = match id.as_str() {
            "a" => br#"{"subComposerIds":["b"]}"#,
            "b" => br#"{"subagentComposerIds":["c","../x"]}"#,
            _ => br#"{"subComposerIds":["a"]}"#,
        };
        walk.record_raw(&id, Some(raw)).unwrap();
    }
    assert_eq!(walk.owned_ids(), strings(&["a", "b", "c"]));
    let mut walk = OwnedIdsWalk::start(&strings(&["a"]));
    while let Some(id) = walk.next_id() {
        let raw = if id == "a" { Some(&br#"{"subComposerIds":["z"]}"#[..]) } else { None };
        walk.record_raw(&id, raw).unwrap();
    }
    assert_eq!(walk.owned_ids(), strings(&["a", "z"]));
}

#[test]
fn plan_impact_counts_what_the_plan_removes() {
    let owned = strings(&["a", "b", "c"]);
    let dirs = strings(&["/p/x", "/p/y"]);
    let impact = plan_impact(None, &owned, 7, 2, 1, &dirs, &vec![10, 32]);
    assert_eq!(impact.conversations, 3);
    assert_eq!((impact.fts_rows, impact.candidates), (0, 0));
    assert_eq!((impact.state_rows, impact.headers, impact.unknown_keys), (7, 2, 1));
    assert_eq!((impact.transcript_dirs, impact.transcript_bytes), (2, 42));
    let counts = SearchCounts { conversations: 4, fts_rows: 5, candidates: 6 };
    let impact = plan_impact(Some(counts), &owned, 0, 0, 0, &Vec::new(), &Vec::new());
    assert_eq!((impact.conversations, impact.fts_rows, impact.candidates), (4, 5, 6));
    assert_eq!((impact.transcript_dirs, impact.transcript_bytes), (0, 0));
}
