use cursor_cleaner::cli::{parse_arguments, usage, Invocation};
use cursor_cleaner::error::AppError;

fn args(a: &[&str]) -> Vec<String> {
    a.iter().map(|s| s.to_string()).collect()
}

#[test]
fn arguments_select_config_help_and_version() {
    assert_eq!(parse_arguments(&args(&[])).unwrap(), Invocation::Run { config: None });
    assert_eq!(
        parse_arguments(&args(&["--config", "/a", "--config", "/b"])).unwrap(),
        Invocation::Run { config: Some("/b".into()) }
    );
    assert_eq!(parse_arguments(&args(&["-h", "--bogus"])).unwrap(), Invocation::Help);
    assert_eq!(parse_arguments(&args(&["--version"])).unwrap(), Invocation::Version);
    assert!(usage().starts_with("cursor-cleaner [--config PATH]"));
}

#[test]
fn arguments_refuse_unknown_and_incomplete_options() {
    assert!(matches!(parse_arguments(&args(&["--config"])), Err(AppError::InvalidConfig(m)) if m == "--config 后缺少路径"));
    assert!(matches!(parse_arguments(&args(&["--x", "-h"])), Err(AppError::InvalidConfig(m)) if m == "未知参数：--x"));
}
