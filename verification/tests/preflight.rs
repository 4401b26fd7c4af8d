use cursor_cleaner::domain::{CheckResult, CheckState, PreflightReport, SchemaProbe, SchemaState};
use cursor_cleaner::error::AppError;
use cursor_cleaner::preflight::{build_report, execution_gate, PreflightInputs};

#[test]
fn report_rejects_failed_check() {
    let report = PreflightReport {
        checks: vec![CheckResult {
            label: "并发".into(),
            state: CheckState::Failed,
            detail: "占用".into(),
        }],
    };
    assert!(!report.can_continue());
}

#[test]
fn report_with_warnings_only_continues() {
    let report = PreflightReport {
        checks: vec![
            CheckResult { label: "a".into(), state: CheckState::Passed, detail: String::new() },
            CheckResult { label: "b".into(), state: CheckState::Warning, detail: String::new() },
        ],
    };
    assert!(report.can_continue());
    assert!(PreflightReport { checks: Vec::new() }.can_continue());
}

fn supported_probe(search: Option<i64>) -> SchemaProbe {
    SchemaProbe { state: SchemaState::Supported, search_version: search, state_version: Some(3), diagnostics: Vec::new() }
}

#[test]
fn report_lists_every_check_in_order() {
    let inputs = PreflightInputs {
        schema: Ok(supported_probe(Some(7))),
        integrity: Ok(()),
        transcripts_present: false,
        processes: Ok(vec!["Cursor (PID 1)".to_string()]),
        holders: vec![("state.vscdb".to_string(), Ok(Vec::new()))],
        recovery: Err("denied".to_string()),
    };
    let report = build_report(&inputs);
    let labels: Vec<&str> = report.checks.iter().map(|c| c.label.as_str()).collect();
    assert_eq!(labels, ["Schema", "数据库", "Transcript", "Cursor 进程", "数据库占用", "临时回滚"]);
    assert_eq!(report.checks[0].detail, "conversation-search.db v7 / state.vscdb v3");
    assert_eq!(report.checks[0].state, CheckState::Passed);
    assert_eq!(report.checks[2].state, CheckState::Warning);
    assert_eq!(report.checks[3].state, CheckState::Failed);
    assert_eq!(report.checks[3].detail, "仍在运行：Cursor (PID 1)");
    assert_eq!(report.checks[4].detail, "state.vscdb 未被其他进程打开");
    assert_eq!(report.checks[5].detail, "denied");
    assert!(!report.can_continue());
}

#[test]
fn report_names_state_only_layout_and_schema_failures() {
    let inputs = PreflightInputs {
        schema: Ok(supported_probe(None)),
        integrity: Err(AppError::Preflight("坏".into())),
        transcripts_present: true,
        processes: Ok(Vec::new()),
        holders: Vec::new(),
        recovery: Ok(()),
    };
    let report = build_report(&inputs);
    assert_eq!(report.checks[0].detail, "state.vscdb v3（单库模式）");
    assert_eq!(report.checks[1].state, CheckState::Failed);
    assert_eq!(report.checks[1].detail, "环境检查未通过：坏");
    assert_eq!(report.checks.len(), 5);
    let unsupported = PreflightInputs {
        schema: Ok(SchemaProbe {
            state: SchemaState::Unsupported,
            search_version: None,
            state_version: None,
            diagnostics: vec!["a".into(), "b".into()],
        }),
        integrity: Ok(()),
        transcripts_present: true,
        processes: Ok(Vec::new()),
        holders: Vec::new(),
        recovery: Ok(()),
    };
    let report = build_report(&unsupported);
    assert_eq!(report.checks[0].state, CheckState::Failed);
    assert_eq!(report.checks[0].detail, "a；b");
}

#[test]
fn execution_gate_refuses_only_failed_rechecks() {
    let check = |state| CheckResult { label: "x".into(), state, detail: String::new() };
    let ok = PreflightReport { checks: vec![check(CheckState::Passed), check(CheckState::Warning)] };
    assert!(execution_gate(&ok).is_none());
    let failed = PreflightReport { checks: vec![check(CheckState::Passed), check(CheckState::Failed)] };
    assert!(matches!(
        execution_gate(&failed),
        Some(AppError::Preflight(m)) if m == "执行前复检未通过；Cursor 必须完全退出且数据库不得被占用"
    ));
    assert!(execution_gate(&PreflightReport { checks: Vec::new() }).is_none());
}
