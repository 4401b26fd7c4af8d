use cursor_cleaner::config::Config;
use cursor_cleaner::error::AppError;
use cursor_cleaner::platform::HostPlatform;

#[test]
fn default_locations_follow_cursor_layout() {
    let c = Config::from_locations("/Users/me", "/Users/me/Library/Application Support/Cursor/User", "/tmp", HostPlatform::MacOs);
    assert_eq!(c.state_db, "/Users/me/Library/Application Support/Cursor/User/globalStorage/state.vscdb");
    assert_eq!(c.projects_root, "/Users/me/.cursor/projects");
    assert_eq!(c.recovery_root, "/tmp/cursor-cleaner-recovery");
    assert_eq!(c.max_preview_chars, 800);
    assert!(c.clone().accept().is_ok());
}

#[test]
fn relative_locations_and_bad_lengths_are_refused() {
    let mut c = Config::from_locations("/Users/me", "/Users/me/C", "/tmp", HostPlatform::MacOs);
    c.projects_root = "rel".into();
    assert!(matches!(c.validate(), Err(AppError::InvalidConfig(m)) if m == "projects_root 必须是绝对路径：rel"));
    let mut c = Config::from_locations("/Users/me", "/Users/me/C", "/tmp", HostPlatform::MacOs);
    c.max_preview_chars = 20001;
    assert!(matches!(c.validate(), Err(AppError::InvalidConfig(m)) if m == "max_preview_chars 必须介于 1 和 20000"));
    let linux = Config::from_locations("/home/u", "/home/u/C", "/tmp", HostPlatform::from_target_os("linux"));
    assert!(matches!(linux.accept(), Err(AppError::InvalidConfig(m)) if m == "cursor-cleaner 目前仅支持 Windows 和 macOS"));
}

#[test]
fn every_error_has_a_message_and_advice() {
    let e = AppError::Io { path: "/x".into(), source: "denied".into() };
    assert_eq!(e.message(), "I/O 操作失败（/x）：denied");
    assert_eq!(e.suggestion(), "检查数据库状态和错误详情后再重试。");
    assert_eq!(AppError::PlanChanged.message(), "清理计划已经变化，请重新预览");
    assert_eq!(AppError::Preflight("p".into()).suggestion(), "完全退出 Cursor，修复检查项后按 R 重试。");
    assert_eq!(AppError::UnsupportedSchema("s".into()).message(), "不支持的 Cursor 数据结构：s");
}
