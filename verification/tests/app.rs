use cursor_cleaner::app::{page_meta, App, Effect, KeyCode, KeyEvent, Screen};
use cursor_cleaner::config::Config;
use cursor_cleaner::domain::{CheckResult, CheckState, Conversation, PreflightReport};
use cursor_cleaner::platform::HostPlatform;

fn test_config() -> Config {
    Config::from_locations("/home/test", "/home/test/Library/Application Support/Cursor/User", "/tmp", HostPlatform::MacOs)
}

fn key(code: KeyCode) -> KeyEvent {
    KeyEvent { code, control: false, alt: false }
}

fn record(id: &str, workspace: &str, updated_at: i64) -> Conversation {
    Conversation {
        id: id.into(),
        title: id.into(),
        updated_at,
        source: "local".into(),
        archived: false,
        workspace: workspace.into(),
        preview: String::new(),
        logical_bytes: 0,
    }
}

#[test]
fn destructive_confirmation_defaults_to_cancel() {
    let mut app = App::new(test_config());
    app.screen = Screen::Preview;
    app.handle_key(key(KeyCode::Enter));
    assert_eq!(app.screen, Screen::Confirm);
    assert!(!app.confirm_execute);
}

#[test]
fn search_matches_cjk_and_workspace() {
    let mut app = App::new(test_config());
    app.records.push(Conversation {
        id: "id-1".into(),
        title: "修复终端".into(),
        updated_at: 0,
        source: "local".into(),
        archived: false,
        workspace: "/很长/中文/路径".into(),
        preview: String::new(),
        logical_bytes: 0,
    });
    app.query = "中文".into();
    assert_eq!(app.filtered_indices(), vec![0]);
}

#[test]
fn groups_by_workspace_and_limits_record_list() {
    let mut app = App::new(test_config());
    for (id, workspace, updated_at) in [
        ("id-a", "/项目/甲", 10),
        ("id-b", "/项目/乙", 30),
        ("id-c", "/项目/甲", 20),
        ("id-d", "无法识别工作目录", 40),
    ] {
        app.records.push(record(id, workspace, updated_at));
    }
    let groups = app.workspace_groups();
    assert_eq!(groups[0].label, "/项目/乙");
    assert_eq!(groups[1].label, "/项目/甲");
    assert_eq!(groups[1].conversations, 2);
    assert_eq!(groups[2].label, "无法识别工作目录");

    app.active_workspace = Some("/项目/甲".into());
    assert_eq!(app.filtered_indices(), vec![0, 2]);
}

#[test]
fn execute_needs_explicit_choice_of_execute() {
    let mut app = App::new(test_config());
    app.screen = Screen::Confirm;
    assert!(app.handle_key(key(KeyCode::Enter)).is_none());
    assert_eq!(app.screen, Screen::Preview);
    app.screen = Screen::Confirm;
    app.handle_key(key(KeyCode::Right));
    assert!(app.confirm_execute);
    app.handle_key(key(KeyCode::Left));
    assert!(!app.confirm_execute);
}

#[test]
fn ctrl_c_during_a_run_only_warns() {
    let mut app = App::new(test_config());
    app.screen = Screen::Running;
    let effect = app.handle_key(KeyEvent { code: KeyCode::Char('c'), control: true, alt: false });
    assert!(effect.is_none());
    assert!(!app.should_quit);
    assert_eq!(app.toast.as_deref(), Some("正在创建临时回滚快照或执行数据库事务，不能在中途强制退出。"));
    app.handle_key(key(KeyCode::Down));
    assert!(app.toast.is_none());
    app.screen = Screen::Home;
    app.handle_key(KeyEvent { code: KeyCode::Char('c'), control: true, alt: false });
    assert!(app.should_quit);
}

#[test]
fn selection_toggles_and_stays_sorted() {
    let mut app = App::new(test_config());
    for (id, updated_at) in [("b", 3), ("a", 2), ("c", 1)] {
        app.records.push(record(id, "/w", updated_at));
    }
    app.active_workspace = Some("/w".into());
    app.screen = Screen::Records;
    app.handle_key(key(KeyCode::Char(' ')));
    app.handle_key(key(KeyCode::Down));
    app.handle_key(key(KeyCode::Char(' ')));
    app.handle_key(key(KeyCode::Down));
    app.handle_key(key(KeyCode::Char(' ')));
    assert_eq!(app.selected, ["a", "b", "c"]);
    app.handle_key(key(KeyCode::Char(' ')));
    assert_eq!(app.selected, ["a", "b"]);
}

#[test]
fn cleanup_request_without_records_shows_a_toast() {
    let mut app = App::new(test_config());
    app.screen = Screen::Records;
    assert!(app.handle_key(key(KeyCode::Char('x'))).is_none());
    assert_eq!(app.toast.as_deref(), Some("没有可清理的记录。"));
    assert_eq!(app.screen, Screen::Records);
}

#[test]
fn every_record_lands_in_exactly_one_group() {
    let mut app = App::new(test_config());
    for (id, workspace, updated_at) in [("a", "/x", 1), ("b", "/y", 2), ("c", "/x", 3), ("d", "rel", 4), ("e", "/y", 0)] {
        app.records.push(record(id, workspace, updated_at));
    }
    let groups = app.workspace_groups();
    let total: usize = groups.iter().map(|g| g.conversations).sum();
    assert_eq!(total, app.records.len());
    let labels: Vec<&str> = groups.iter().map(|g| g.label.as_str()).collect();
    assert_eq!(labels, ["/x", "/y", "rel"]);
    assert_eq!(groups[0].latest_updated_at, 3);
}

#[test]
fn search_is_case_insensitive_and_checks_all_fields() {
    let mut app = App::new(test_config());
    app.records.push(record("Alpha-ID", "/Work/Space", 0));
    app.records.push(record("beta", "/other", 0));
    app.query = "SPACE".into();
    assert_eq!(app.filtered_indices(), vec![0]);
    app.query = "alpha".into();
    assert_eq!(app.filtered_indices(), vec![0]);
    app.query = String::new();
    assert_eq!(app.filtered_indices(), vec![0, 1]);
    assert!(cursor_cleaner::app::query_matches("", "x", "y", "z"));
    assert!(!cursor_cleaner::app::query_matches("q", "x", "y", "z"));
    assert!(cursor_cleaner::app::query_matches("q", "x", "y", "aqb"));
}

#[test]
fn browsing_needs_a_supported_probe() {
    let mut app = App::new(test_config());
    app.handle_key(key(KeyCode::Enter));
    assert_eq!(app.screen, Screen::SourceCheck);
    app.handle_key(key(KeyCode::Enter));
    assert_eq!(app.screen, Screen::SourceCheck);
}

#[test]
fn page_texts_follow_the_screen() {
    assert_eq!(page_meta(Screen::Home, false).0, "主页");
    assert_eq!(page_meta(Screen::Records, true).0, "记录搜索");
    assert_eq!(page_meta(Screen::Records, false).0, "记录列表与详情");
    assert_eq!(page_meta(Screen::Running, false).1, "临时回滚快照与事务阶段不可中断");
}

#[test]
fn help_returns_to_the_previous_screen() {
    let mut app = App::new(test_config());
    app.screen = Screen::Detail;
    app.handle_key(key(KeyCode::Char('?')));
    assert_eq!(app.screen, Screen::Help);
    app.handle_key(key(KeyCode::Esc));
    assert_eq!(app.screen, Screen::Detail);
}

#[test]
fn plans_are_built_only_after_a_passing_preflight() {
    let mut app = App::new(test_config());
    app.screen = Screen::Preflight;
    app.pending_ids = vec!["c1".into()];
    assert!(app.handle_key(key(KeyCode::Enter)).is_none());
    app.preflight = Some(PreflightReport {
        checks: vec![CheckResult { label: "x".into(), state: CheckState::Failed, detail: String::new() }],
    });
    assert!(app.handle_key(key(KeyCode::Enter)).is_none());
    assert_eq!(app.screen, Screen::Preflight);
    app.preflight = Some(PreflightReport {
        checks: vec![CheckResult { label: "x".into(), state: CheckState::Warning, detail: String::new() }],
    });
    match app.handle_key(key(KeyCode::Enter)) {
        Some(Effect::BuildPlan(ids)) => assert_eq!(ids, ["c1"]),
        other => panic!("unexpected {other:?}"),
    }
    assert_eq!(app.screen, Screen::Planning);
}

#[test]
fn enter_on_chosen_execute_runs_the_plan() {
    let mut app = App::new(test_config());
    let mut impact = cursor_cleaner::domain::Impact::empty();
    impact.conversations = 1;
    app.plan = Some(cursor_cleaner::domain::DeletePlan {
        id: 77,
        created_at: 0,
        conversation_ids: vec!["a".into()],
        owned_ids: vec!["a".into()],
        transcript_dirs: Vec::new(),
        impact,
        protected_paths: Vec::new(),
    });
    app.screen = Screen::Confirm;
    app.handle_key(key(KeyCode::Right));
    let effect = app.handle_key(key(KeyCode::Enter));
    assert!(matches!(effect, Some(cursor_cleaner::app::Effect::Execute(p)) if p.id == 77));
    assert_eq!(app.screen, Screen::Running);
}

#[test]
fn second_space_gives_the_selection_back() {
    let mut app = App::new(test_config());
    for (id, updated_at) in [("b", 3), ("a", 2)] {
        app.records.push(record(id, "/w", updated_at));
    }
    app.active_workspace = Some("/w".into());
    app.screen = Screen::Records;
    app.handle_key(key(KeyCode::Down));
    app.handle_key(key(KeyCode::Char(' ')));
    let before = app.selected.clone();
    app.handle_key(key(KeyCode::Up));
    app.handle_key(key(KeyCode::Char(' ')));
    assert_eq!(app.selected, ["a", "b"]);
    app.handle_key(key(KeyCode::Char(' ')));
    assert_eq!(app.selected, before);
}
