use cursor_cleaner::error::AppError;
use cursor_cleaner::domain::{DeletePlan, Impact, SchemaProbe, SchemaState};
use cursor_cleaner::execution::{
    recovery_dir_name, DeleteRun, PreRun, PreRunAction, PreRunEvent, PreRunStep, RunAction, RunEvent, RunStep,
};

fn io(path: &str, source: &str) -> AppError {
    AppError::Io { path: path.into(), source: source.into() }
}

/// Drives a run, answering each action from `answers` in order, and returns
/// the actions taken and the final result.
fn drive(transcripts: usize, answers: Vec<RunEvent>) -> (Vec<RunAction>, Result<(), AppError>) {
    let mut run = DeleteRun::start(transcripts, "/tmp/rec".into());
    let mut actions = Vec::new();
    let mut answers = answers.into_iter();
    loop {
        let action = run.action();
        if action == RunAction::Finish {
            actions.push(action);
            break;
        }
        actions.push(action);
        run = run.advance(answers.next().expect("an answer for every action"));
    }
    match run.step {
        RunStep::Done(result) => (actions, result),
        _ => unreachable!(),
    }
}

fn ok() -> RunEvent {
    RunEvent::Completed
}

#[test]
fn successful_run_removes_then_deletes_then_verifies() {
    let (actions, result) = drive(
        2,
        vec![ok(), ok(), ok(), ok(), ok(), ok(), ok(), RunEvent::Verified(true), ok(), ok()],
    );
    assert_eq!(
        actions,
        vec![
            RunAction::SnapshotTranscripts,
            RunAction::WriteManifest("snapshot-complete"),
            RunAction::CheckTranscript(0),
            RunAction::RemoveTranscript(0),
            RunAction::CheckTranscript(1),
            RunAction::RemoveTranscript(1),
            RunAction::RunTransaction,
            RunAction::VerifyRemoved,
            RunAction::WriteManifest("complete"),
            RunAction::RemoveRecovery,
            RunAction::Finish,
        ]
    );
    assert!(result.is_ok());
}

#[test]
fn failed_snapshot_drops_the_recovery_folder() {
    let (actions, result) = drive(1, vec![RunEvent::Failed(io("/p", "no space")), ok()]);
    assert_eq!(actions, vec![RunAction::SnapshotTranscripts, RunAction::RemoveRecovery, RunAction::Finish]);
    assert!(matches!(result, Err(AppError::Io { source, .. }) if source == "no space"));
    let (actions, result) = drive(1, vec![ok(), RunEvent::Failed(io("/m", "read-only")), RunEvent::Failed(io("/r", "x"))]);
    assert_eq!(
        actions,
        vec![
            RunAction::SnapshotTranscripts,
            RunAction::WriteManifest("snapshot-complete"),
            RunAction::RemoveRecovery,
            RunAction::Finish,
        ]
    );
    assert!(matches!(result, Err(AppError::Io { source, .. }) if source == "read-only"));
}

#[test]
fn failed_removal_restores_and_reports_the_io_error() {
    let (actions, result) = drive(1, vec![ok(), ok(), ok(), RunEvent::Failed(io("/p", "busy")), ok(), ok()]);
    assert_eq!(
        actions,
        vec![
            RunAction::SnapshotTranscripts,
            RunAction::WriteManifest("snapshot-complete"),
            RunAction::CheckTranscript(0),
            RunAction::RemoveTranscript(0),
            RunAction::RestoreTranscripts,
            RunAction::RemoveRecovery,
            RunAction::Finish,
        ]
    );
    match result {
        Err(AppError::Io { path, source }) => assert_eq!((path.as_str(), source.as_str()), ("/p", "busy")),
        other => panic!("unexpected {other:?}"),
    }
}

#[test]
fn failed_restore_keeps_recovery_data() {
    let (actions, result) = drive(
        1,
        vec![ok(), ok(), ok(), RunEvent::Failed(io("/p", "busy")), RunEvent::Failed(AppError::Execution("x".into())), ok()],
    );
    assert_eq!(actions[5], RunAction::WriteManifest("rollback-failed"));
    assert!(!actions.contains(&RunAction::RemoveRecovery));
    match result {
        Err(AppError::Execution(m)) => assert_eq!(m, "清理 transcript 失败：busy；自动恢复失败：执行被拒绝：x；应急恢复数据保留在 /tmp/rec"),
        other => panic!("unexpected {other:?}"),
    }
}

#[test]
fn unsafe_transcript_restores_earlier_folders_and_drops_recovery() {
    let (actions, result) = drive(2, vec![ok(), ok(), RunEvent::Failed(AppError::Execution("unsafe".into())), ok(), ok()]);
    assert_eq!(
        actions,
        vec![
            RunAction::SnapshotTranscripts,
            RunAction::WriteManifest("snapshot-complete"),
            RunAction::CheckTranscript(0),
            RunAction::RestoreTranscripts,
            RunAction::RemoveRecovery,
            RunAction::Finish,
        ]
    );
    assert!(matches!(result, Err(AppError::Execution(m)) if m == "unsafe"));
    let (actions, _) = drive(2, vec![ok(), ok(), ok(), ok(), RunEvent::Failed(AppError::Execution("unsafe".into())), ok(), ok()]);
    assert_eq!(actions[4], RunAction::CheckTranscript(1));
    assert_eq!(actions[5], RunAction::RestoreTranscripts);
}

#[test]
fn failed_transaction_rolls_back_transcripts() {
    let (actions, result) = drive(0, vec![ok(), ok(), RunEvent::Failed(AppError::Database("locked".into())), ok(), ok(), ok()]);
    assert_eq!(
        actions,
        vec![
            RunAction::SnapshotTranscripts,
            RunAction::WriteManifest("snapshot-complete"),
            RunAction::RunTransaction,
            RunAction::RestoreTranscripts,
            RunAction::WriteManifest("rolled-back"),
            RunAction::RemoveRecovery,
            RunAction::Finish,
        ]
    );
    assert!(matches!(result, Err(AppError::Database(m)) if m == "locked"));
    let (_, result) = drive(
        0,
        vec![
            ok(),
            ok(),
            RunEvent::Failed(AppError::Database("locked".into())),
            RunEvent::Failed(AppError::Execution("r".into())),
            RunEvent::Failed(AppError::Execution("w".into())),
        ],
    );
    assert!(matches!(result, Err(AppError::Execution(m)) if m == "数据库事务已回滚，但 transcript 恢复失败：执行被拒绝：r；应急恢复数据保留在 /tmp/rec"));
}

#[test]
fn unverified_cleanup_restores_and_drops_recovery_data() {
    let (actions, result) = drive(0, vec![ok(), ok(), ok(), RunEvent::Verified(false), ok(), ok()]);
    assert_eq!(actions[3], RunAction::VerifyRemoved);
    assert_eq!(actions[4], RunAction::RestoreTranscripts);
    assert_eq!(actions[5], RunAction::RemoveRecovery);
    assert!(matches!(result, Err(AppError::Execution(m)) if m == "执行后校验失败"));
    let (actions, result) = drive(0, vec![ok(), ok(), ok(), RunEvent::Verified(false), RunEvent::Failed(AppError::Execution("r".into())), ok()]);
    assert_eq!(actions[5], RunAction::WriteManifest("rollback-failed"));
    assert!(matches!(result, Err(AppError::Execution(m)) if m == "执行后校验失败；自动恢复失败：执行被拒绝：r；应急恢复数据保留在 /tmp/rec"));
}

#[test]
fn failed_complete_manifest_still_drops_recovery() {
    let (actions, result) = drive(0, vec![ok(), ok(), ok(), RunEvent::Verified(true), RunEvent::Failed(io("/m", "full")), ok()]);
    assert_eq!(actions[5], RunAction::RemoveRecovery);
    assert!(matches!(result, Err(AppError::Io { source, .. }) if source == "full"));
}

#[test]
fn events_of_the_wrong_kind_change_nothing() {
    let run = DeleteRun::start(1, "/r".into());
    let run = run.advance(RunEvent::Verified(true));
    assert_eq!(run.action(), RunAction::SnapshotTranscripts);
    assert_eq!(run.removed, 0);
}

#[test]
fn recovery_names_pad_the_attempt() {
    assert_eq!(recovery_dir_name(1700000000, "delete", 42, 3), "1700000000-delete-42-03");
    assert_eq!(recovery_dir_name(0, "x", 0, 17), "0-x-0-17");
}

fn approved_plan(id: u64, dirs: usize) -> DeletePlan {
    let mut impact = Impact::empty();
    impact.transcript_dirs = dirs;
    DeletePlan {
        id,
        created_at: 1_000,
        conversation_ids: vec!["a".into()],
        owned_ids: vec!["a".into()],
        transcript_dirs: (0..dirs).map(|i| format!("/p/{i}")).collect(),
        impact,
        protected_paths: Vec::new(),
    }
}

fn probe_of(state: SchemaState) -> SchemaProbe {
    SchemaProbe { state, search_version: None, state_version: None, diagnostics: vec!["a".into(), "b".into()] }
}

/// Runs the checks before a cleanup, answering each action in turn, and
/// returns the actions asked for and the checks' end.
fn pre_run(approved: &DeletePlan, answers: Vec<PreRunEvent>) -> (Vec<PreRunAction>, PreRun) {
    let mut checks = PreRun::start(approved);
    let mut actions = Vec::new();
    let mut answers = answers.into_iter();
    loop {
        let action = checks.action();
        let end = action == PreRunAction::Proceed || action == PreRunAction::Refuse;
        actions.push(action);
        if end {
            break;
        }
        checks = checks.advance(answers.next().expect("an answer for every action"));
    }
    (actions, checks)
}

#[test]
fn checks_pass_in_order_before_the_run() {
    let approved = approved_plan(9, 2);
    let (actions, checks) = pre_run(
        &approved,
        vec![
            PreRunEvent::Clock(2_000),
            PreRunEvent::Probed(Ok(probe_of(SchemaState::Supported))),
            PreRunEvent::Integrity(Ok(())),
            PreRunEvent::Rebuilt(Ok(approved_plan(9, 2))),
        ],
    );
    assert_eq!(
        actions,
        vec![
            PreRunAction::ReadClock,
            PreRunAction::ProbeSchema,
            PreRunAction::CheckIntegrity,
            PreRunAction::RebuildPlan,
            PreRunAction::Proceed,
        ]
    );
    let (fresh, run) = checks.into_run("/tmp/rec".into()).expect("every check passed");
    assert_eq!(fresh.id, 9);
    assert_eq!(run.transcripts, 2);
    assert_eq!(run.action(), RunAction::SnapshotTranscripts);
}

#[test]
fn the_first_failing_check_refuses_the_cleanup() {
    let approved = approved_plan(9, 0);
    let (actions, checks) = pre_run(&approved, vec![PreRunEvent::Clock(1_000 + 600_000_000_001)]);
    assert_eq!(actions, vec![PreRunAction::ReadClock, PreRunAction::Refuse]);
    assert!(matches!(checks.step, PreRunStep::Refused(AppError::PlanChanged)));
    let (_, checks) = pre_run(
        &approved,
        vec![PreRunEvent::Clock(1_000 + 600_000_000_000), PreRunEvent::Probed(Ok(probe_of(SchemaState::Unsupported)))],
    );
    assert!(matches!(checks.step, PreRunStep::Refused(AppError::UnsupportedSchema(ref m)) if m == "a；b"));
    assert!(checks.into_run("/r".into()).is_none());
    let (actions, checks) = pre_run(
        &approved,
        vec![
            PreRunEvent::Clock(0),
            PreRunEvent::Probed(Ok(probe_of(SchemaState::Supported))),
            PreRunEvent::Integrity(Err(AppError::Preflight("bad".into()))),
        ],
    );
    assert_eq!(actions.last(), Some(&PreRunAction::Refuse));
    assert!(!actions.contains(&PreRunAction::RebuildPlan));
    assert!(matches!(checks.step, PreRunStep::Refused(AppError::Preflight(ref m)) if m == "bad"));
    let (_, checks) = pre_run(
        &approved,
        vec![
            PreRunEvent::Clock(0),
            PreRunEvent::Probed(Ok(probe_of(SchemaState::Supported))),
            PreRunEvent::Integrity(Ok(())),
            PreRunEvent::Rebuilt(Ok(approved_plan(10, 0))),
        ],
    );
    assert!(matches!(checks.step, PreRunStep::Refused(AppError::PlanChanged)));
    let (_, checks) = pre_run(
        &approved,
        vec![PreRunEvent::Clock(0), PreRunEvent::Probed(Err(AppError::Database("gone".into())))],
    );
    assert!(matches!(checks.step, PreRunStep::Refused(AppError::Database(ref m)) if m == "gone"));
}
