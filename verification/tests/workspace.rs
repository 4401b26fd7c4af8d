use cursor_cleaner::json::{JsonMember, JsonValue};
use cursor_cleaner::workspace::{
    find_known, infer_workspace, known_workspace, payload_path, tracked_repo_workspace, workspace_folder_path,
    workspace_from_git, workspace_from_payload, workspace_from_projects, workspace_from_records,
    workspace_from_tab_keys, KnownWorkspace, WorkspaceLookup,
};

fn text(s: &str) -> JsonValue {
    JsonValue::Text(s.to_string())
}

fn object(members: Vec<(&str, JsonValue)>) -> JsonValue {
    JsonValue::Object(members.into_iter().map(|(k, v)| JsonMember { key: k.to_string(), value: v }).collect())
}

fn known() -> Vec<KnownWorkspace> {
    vec![
        KnownWorkspace { id: "ws1".into(), path: "/Users/me/alpha".into() },
        KnownWorkspace { id: "ws2".into(), path: "/Users/me/beta".into() },
        KnownWorkspace { id: "ws3".into(), path: "/Users/me/beta".into() },
    ]
}

fn found(r: WorkspaceLookup) -> String {
    match r {
        WorkspaceLookup::Found(p) => p,
        other => panic!("expected an answer, got {other:?}"),
    }
}

#[test]
fn known_workspaces_are_found_by_directory_name() {
    assert_eq!(find_known(&known(), "ws2"), Some("/Users/me/beta".into()));
    assert_eq!(find_known(&known(), "nope"), None);
}

#[test]
fn payload_names_an_absolute_uri_path_first() {
    let payload = object(vec![(
        "workspaceIdentifier",
        object(vec![
            ("id", text("ws1")),
            ("uri", object(vec![("fsPath", text("relative")), ("path", text("/Users/me/gamma"))])),
        ]),
    )]);
    assert_eq!(workspace_from_payload(&payload, &known(), false), Some("/Users/me/gamma".into()));
    let by_id = object(vec![("workspaceIdentifier", object(vec![("id", text("ws1"))]))]);
    assert_eq!(workspace_from_payload(&by_id, &known(), false), Some("/Users/me/alpha".into()));
    assert_eq!(workspace_from_payload(&text("x"), &known(), false), None);
}

#[test]
fn a_single_tracked_repository_names_the_workspace() {
    let repo = |p: &str| object(vec![("repoPath", text(p))]);
    let one = object(vec![("trackedGitRepos", JsonValue::Array(vec![repo("/r/a"), repo("/r/a"), repo("rel")]))]);
    assert_eq!(tracked_repo_workspace(&one, false), Some("/r/a".into()));
    let two = object(vec![("trackedGitRepos", JsonValue::Array(vec![repo("/r/a"), repo("/r/b")]))]);
    assert_eq!(tracked_repo_workspace(&two, false), None);
    let none = object(vec![("trackedGitRepos", JsonValue::Array(vec![repo("rel")]))]);
    assert_eq!(tracked_repo_workspace(&none, false), None);
}

#[test]
fn header_workspace_id_is_the_last_explicit_hint() {
    assert_eq!(workspace_from_records(None, None, Some("empty-window"), &known(), false), Some("未打开文件夹（empty-window）".into()));
    assert_eq!(workspace_from_records(None, None, Some("ws1"), &known(), false), Some("/Users/me/alpha".into()));
    assert_eq!(workspace_from_records(None, None, Some("zz"), &known(), false), None);
    let header = object(vec![("workspaceIdentifier", object(vec![("id", text("ws2"))]))]);
    assert_eq!(workspace_from_records(None, Some(&header), Some("ws1"), &known(), false), Some("/Users/me/beta".into()));
}

fn uri_payload(path: &str) -> JsonValue {
    object(vec![("workspaceIdentifier", object(vec![("uri", object(vec![("fsPath", text(path))]))]))])
}

fn repo_payload(path: &str) -> JsonValue {
    object(vec![("trackedGitRepos", JsonValue::Array(vec![object(vec![("repoPath", text(path))])]))])
}

#[test]
fn explicit_paths_outrank_git_repositories() {
    let composer = repo_payload("/repo");
    let header = uri_payload("/proj");
    assert_eq!(workspace_from_records(Some(&composer), Some(&header), None, &known(), false), Some("/proj".into()));
    assert_eq!(
        found(infer_workspace(Some(&composer), Some(&header), None, None, None, &known(), false)),
        "/proj"
    );
    assert_eq!(workspace_from_records(Some(&composer), None, None, &known(), false), None);
    assert_eq!(workspace_from_git(Some(&composer), Some(&header), false), Some("/repo".into()));
    let composer_path = uri_payload("/own");
    assert_eq!(workspace_from_records(Some(&composer_path), Some(&header), None, &known(), false), Some("/own".into()));
}

#[test]
fn tab_state_outranks_git_repositories() {
    let composer = repo_payload("/repo");
    assert!(matches!(
        infer_workspace(Some(&composer), None, None, None, None, &known(), false),
        WorkspaceLookup::NeedTabKeys
    ));
    let keys = vec!["cursor/glass.tabs.v2/ws1/c1/state.json".to_string()];
    assert_eq!(found(infer_workspace(Some(&composer), None, None, Some(&keys), None, &known(), false)), "/Users/me/alpha");
    let none: Vec<String> = Vec::new();
    assert_eq!(found(infer_workspace(Some(&composer), None, None, Some(&none), None, &known(), false)), "/repo");
}

#[test]
fn raw_workspace_files_are_parsed_here() {
    let k = known_workspace("ws9".into(), br#"{"folder":"file:///Users/me/a%20b"}"#, false).expect("a local folder");
    assert_eq!((k.id.as_str(), k.path.as_str()), ("ws9", "/Users/me/a b"));
    assert!(known_workspace("ws9".into(), b"{not json", false).is_none());
    assert!(known_workspace("ws9".into(), br#"{"folder":"vscode-remote://x/y"}"#, false).is_none());
    assert_eq!(
        payload_path(br#"{"workspaceIdentifier":{"uri":{"fsPath":"/p"}}}"#, false),
        Some("/p".into())
    );
    assert_eq!(payload_path(br#"{"workspaceIdentifier":{"id":"ws1"}}"#, false), None);
    assert_eq!(payload_path(b"[", false), None);
}

#[test]
fn tab_keys_name_the_workspace_directory() {
    let keys = vec![
        "cursor/glass.tabs.v2/zz/c1/state.json".to_string(),
        "cursor/glass.tabs.v2/ws1/c1/state.json".to_string(),
    ];
    assert_eq!(workspace_from_tab_keys(&keys, &known()), Some("/Users/me/alpha".into()));
    let empty = vec!["cursor/glass.tabs.v2/empty-window/c1/state.json".to_string()];
    assert_eq!(workspace_from_tab_keys(&empty, &known()), Some("未打开文件夹（empty-window）".into()));
    assert_eq!(workspace_from_tab_keys(&vec!["a/b".to_string()], &known()), None);
}

#[test]
fn transcript_projects_need_one_distinct_match() {
    assert_eq!(workspace_from_projects(&vec!["Users-me-alpha".into()], &known(), false), Some("/Users/me/alpha".into()));
    assert_eq!(workspace_from_projects(&vec!["Users-me-beta".into()], &known(), false), Some("/Users/me/beta".into()));
    assert_eq!(workspace_from_projects(&vec!["users-me-alpha".into()], &known(), false), None);
    assert_eq!(workspace_from_projects(&vec!["users-me-alpha".into()], &known(), true), Some("/Users/me/alpha".into()));
    assert_eq!(
        workspace_from_projects(&vec!["var-folders-xy".into()], &known(), false),
        Some("临时/历史工作区（路径已不可用）".into())
    );
    assert_eq!(workspace_from_projects(&vec!["other".into()], &known(), false), None);
}

#[test]
fn lookup_asks_for_tab_keys_then_projects() {
    let k = known();
    assert!(matches!(infer_workspace(None, None, None, None, None, &k, false), WorkspaceLookup::NeedTabKeys));
    let keys: Vec<String> = Vec::new();
    assert!(matches!(infer_workspace(None, None, None, Some(&keys), None, &k, false), WorkspaceLookup::NeedProjects));
    let ids: Vec<String> = vec!["nothing".into()];
    assert_eq!(found(infer_workspace(None, None, None, Some(&keys), Some(&ids), &k, false)), "无法识别工作目录");
    assert_eq!(found(infer_workspace(None, None, Some("ws2"), None, None, &k, false)), "/Users/me/beta");
}

#[test]
fn workspace_json_folder_is_read_as_local_path() {
    let doc = object(vec![("folder", text("file:///Users/me/a%20b"))]);
    assert_eq!(workspace_folder_path(&doc, false), Some("/Users/me/a b".into()));
    let remote = object(vec![("folder", text("vscode-remote://x/y"))]);
    assert_eq!(workspace_folder_path(&remote, false), None);
}
