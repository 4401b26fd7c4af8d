//! The order of the steps of a cleanup run, and what each failure leaves
//! behind. The caller performs each step on disk and reports its outcome.

use vstd::prelude::*;
use crate::domain::{DeletePlan, Impact, SchemaProbe, SchemaState};
use crate::error::{error_message, AppError};
use crate::planning::{plan_expired, PLAN_LIFETIME_NANOS};
use crate::store::CursorStore;
use crate::text::{decimal, ends_with, joined, push_decimal, string_from_chars};

verus! {

/// Where a cleanup run stands.
#[derive(Debug)]
pub enum RunStep {
    /// Copy the transcript folders into the recovery folder.
    Snapshot,
    /// Write the manifest of the copies (`snapshot-complete`).
    RecordSnapshot,
    /// Check that transcript folder `i` is a safe target.
    Check(usize),
    /// Remove transcript folder `i`.
    Remove(usize),
    /// Put the transcript folders back after a check or a removal failed
    /// with `error`.
    RestoreAfterRemove { error: AppError },
    /// Delete the database rows in one transaction.
    Transaction,
    /// Put the transcript folders back after the transaction failed with `error`.
    RestoreAfterTransaction { error: AppError },
    /// The folders are back after a failed transaction: mark the manifest
    /// `rolled-back`.
    RecordRolledBack { error: AppError },
    /// Check that no requested conversation is left.
    Verify,
    /// Put the transcript folders back after some requested conversation was
    /// found still present.
    RestoreAfterVerification,
    /// The folders could not be put back: mark the manifest `rollback-failed`,
    /// then report `message`, which names the recovery folder that is kept.
    RecordRollbackFailed { message: String },
    /// Mark the manifest `complete`.
    RecordComplete,
    /// Drop the recovery folder of a complete run.
    DropRecovery,
    /// Drop the recovery folder, which nothing depends on any more, then
    /// report `error`.
    DropRecoveryThenFail { error: AppError },
    /// The run is over.
    Done(Result<(), AppError>),
}

/// A cleanup run: how many transcript folders it removes, how many are gone,
/// the recovery folder (as shown to the user) and the next step.
#[derive(Debug)]
pub struct DeleteRun {
    pub transcripts: usize,
    pub removed: usize,
    pub recovery: String,
    pub step: RunStep,
}

/// What the caller does next.
#[derive(Debug, PartialEq, Eq)]
pub enum RunAction {
    SnapshotTranscripts,
    CheckTranscript(usize),
    RemoveTranscript(usize),
    RestoreTranscripts,
    RunTransaction,
    VerifyRemoved,
    WriteManifest(&'static str),
    RemoveRecovery,
    Finish,
}

/// The outcome of the step the caller performed.
#[derive(Debug)]
pub enum RunEvent {
    Completed,
    Failed(AppError),
    /// The outcome of `VerifyRemoved`: whether every requested conversation is gone.
    Verified(bool),
}

/// The counts of a run agree with its step: nothing is removed before the
/// copies are recorded, folders are removed one by one in order, and every
/// step after the removals has all of them removed.
pub open spec fn run_wf(r: DeleteRun) -> bool {
    &&& r.removed <= r.transcripts
    &&& match r.step {
        RunStep::Snapshot => r.removed == 0,
        RunStep::RecordSnapshot => r.removed == 0,
        RunStep::Check(i) => i < r.transcripts && r.removed == i,
        RunStep::Remove(i) => i < r.transcripts && r.removed == i,
        RunStep::RestoreAfterRemove { .. } => r.removed < r.transcripts,
        RunStep::RecordRollbackFailed { message } => ends_with(message@, r.recovery@),
        RunStep::DropRecoveryThenFail { .. } => true,
        RunStep::Done(_) => true,
        _ => r.removed == r.transcripts,
    }
}

/// The step after the copies are recorded: the first folder, or the
/// transaction when there is none.
pub open spec fn first_step(transcripts: usize) -> RunStep {
    if transcripts == 0 { RunStep::Transaction } else { RunStep::Check(0) }
}

/// The error text of a failed check or removal: the file system's message.
pub open spec fn removal_detail(e: AppError) -> Seq<char> {
    match e {
        AppError::Io { source, .. } => source@,
        _ => error_message(e),
    }
}

/// The message of a run whose folders could not be put back: what failed,
/// why the restore failed, and where the recovery data is kept.
pub open spec fn rollback_failed_message(failure: Seq<char>, restore: AppError, recovery: Seq<char>) -> Seq<char> {
    failure + error_message(restore) + "；应急恢复数据保留在 "@ + recovery
}

/// What a failed restore reports, by the step that restored.
pub open spec fn restore_failure(step: RunStep) -> Seq<char> {
    match step {
        RunStep::RestoreAfterRemove { error } => "清理 transcript 失败："@ + removal_detail(error) + "；自动恢复失败："@,
        RunStep::RestoreAfterTransaction { .. } => "数据库事务已回滚，但 transcript 恢复失败："@,
        _ => "执行后校验失败；自动恢复失败："@,
    }
}

/// The restore steps.
pub open spec fn is_restore(step: RunStep) -> bool {
    step is RestoreAfterRemove || step is RestoreAfterTransaction || step is RestoreAfterVerification
}

/// `next` follows `run` after `event`. Every failure while the folders are
/// untouched drops the recovery folder and reports the error; every failure
/// after a folder was removed first puts the folders back, and drops the
/// recovery folder only once they are back; a failed restore records
/// `rollback-failed` and reports a message that names the kept recovery
/// folder. An event of the wrong kind changes nothing.
pub open spec fn step_follows(run: DeleteRun, event: RunEvent, next: DeleteRun) -> bool {
    &&& next.transcripts == run.transcripts
    &&& next.recovery == run.recovery
    &&& next.removed == if run.step is Remove && event is Completed { run.removed + 1 } else { run.removed as int }
    &&& match (run.step, event) {
        (RunStep::Snapshot, RunEvent::Completed) => next.step == RunStep::RecordSnapshot,
        (RunStep::Snapshot, RunEvent::Failed(e)) => next.step == RunStep::DropRecoveryThenFail { error: e },
        (RunStep::RecordSnapshot, RunEvent::Completed) => next.step == first_step(run.transcripts),
        (RunStep::RecordSnapshot, RunEvent::Failed(e)) => next.step == RunStep::DropRecoveryThenFail { error: e },
        (RunStep::Check(i), RunEvent::Completed) => next.step == RunStep::Remove(i),
        (RunStep::Check(_), RunEvent::Failed(e)) => next.step == RunStep::RestoreAfterRemove { error: e },
        (RunStep::Remove(i), RunEvent::Completed) => next.step == if i + 1 < run.transcripts {
            RunStep::Check((i + 1) as usize)
        } else {
            RunStep::Transaction
        },
        (RunStep::Remove(_), RunEvent::Failed(e)) => next.step == RunStep::RestoreAfterRemove { error: e },
        (RunStep::RestoreAfterRemove { error }, RunEvent::Completed) => next.step
            == RunStep::DropRecoveryThenFail { error },
        (RunStep::Transaction, RunEvent::Completed) => next.step == RunStep::Verify,
        (RunStep::Transaction, RunEvent::Failed(e)) => next.step == RunStep::RestoreAfterTransaction { error: e },
        (RunStep::RestoreAfterTransaction { error }, RunEvent::Completed) => next.step
            == RunStep::RecordRolledBack { error },
        (RunStep::RecordRolledBack { error }, RunEvent::Completed) => next.step
            == RunStep::DropRecoveryThenFail { error },
        (RunStep::RecordRolledBack { error }, RunEvent::Failed(_)) => next.step
            == RunStep::DropRecoveryThenFail { error },
        (RunStep::Verify, RunEvent::Verified(all_gone)) => next.step == if all_gone {
            RunStep::RecordComplete
        } else {
            RunStep::RestoreAfterVerification
        },
        (RunStep::RestoreAfterVerification, RunEvent::Completed) => next.step matches RunStep::DropRecoveryThenFail {
            error: AppError::Execution(m),
        } && m@ == "执行后校验失败"@,
        (RunStep::RestoreAfterRemove { .. }, RunEvent::Failed(restore)) => next.step matches RunStep::RecordRollbackFailed {
            message,
        } && message@ == rollback_failed_message(restore_failure(run.step), restore, run.recovery@),
        (RunStep::RestoreAfterTransaction { .. }, RunEvent::Failed(restore)) => next.step matches RunStep::RecordRollbackFailed {
            message,
        } && message@ == rollback_failed_message(restore_failure(run.step), restore, run.recovery@),
        (RunStep::RestoreAfterVerification, RunEvent::Failed(restore)) => next.step matches RunStep::RecordRollbackFailed {
            message,
        } && message@ == rollback_failed_message(restore_failure(run.step), restore, run.recovery@),
        (RunStep::RecordRollbackFailed { message }, RunEvent::Completed) => next.step matches RunStep::Done(
            Err(AppError::Execution(m)),
        ) && m@ == message@,
        (RunStep::RecordRollbackFailed { message }, RunEvent::Failed(_)) => next.step matches RunStep::Done(
            Err(AppError::Execution(m)),
        ) && m@ == message@,
        (RunStep::RecordComplete, RunEvent::Completed) => next.step == RunStep::DropRecovery,
        (RunStep::RecordComplete, RunEvent::Failed(e)) => next.step == RunStep::DropRecoveryThenFail { error: e },
        (RunStep::DropRecovery, RunEvent::Completed) => next.step == RunStep::Done(Ok(())),
        (RunStep::DropRecovery, RunEvent::Failed(e)) => next.step == RunStep::Done(Err(e)),
        (RunStep::DropRecoveryThenFail { error }, RunEvent::Completed) => next.step == RunStep::Done(Err(error)),
        (RunStep::DropRecoveryThenFail { error }, RunEvent::Failed(_)) => next.step == RunStep::Done(Err(error)),
        _ => next.step == run.step,
    }
}

/// What the caller does at `step`.
pub open spec fn step_action(step: RunStep) -> RunAction {
    match step {
        RunStep::Snapshot => RunAction::SnapshotTranscripts,
        RunStep::RecordSnapshot => RunAction::WriteManifest("snapshot-complete"),
        RunStep::Check(i) => RunAction::CheckTranscript(i),
        RunStep::Remove(i) => RunAction::RemoveTranscript(i),
        RunStep::RestoreAfterRemove { .. } => RunAction::RestoreTranscripts,
        RunStep::Transaction => RunAction::RunTransaction,
        RunStep::RestoreAfterTransaction { .. } => RunAction::RestoreTranscripts,
        RunStep::RecordRolledBack { .. } => RunAction::WriteManifest("rolled-back"),
        RunStep::Verify => RunAction::VerifyRemoved,
        RunStep::RestoreAfterVerification => RunAction::RestoreTranscripts,
        RunStep::RecordRollbackFailed { .. } => RunAction::WriteManifest("rollback-failed"),
        RunStep::RecordComplete => RunAction::WriteManifest("complete"),
        RunStep::DropRecovery => RunAction::RemoveRecovery,
        RunStep::DropRecoveryThenFail { .. } => RunAction::RemoveRecovery,
        RunStep::Done(_) => RunAction::Finish,
    }
}

fn io_detail(e: &AppError) -> (r: String)
    ensures
        r@ == removal_detail(*e),
{
    match e {
        AppError::Io { source, .. } => source.clone(),
        _ => e.message(),
    }
}

proof fn lemma_ends_with_concat(a: Seq<char>, b: Seq<char>)
    ensures
        ends_with(a + b, b),
{
    assert((a + b).subrange(a.len() as int, (a + b).len() as int) =~= b);
}

/// The step after a restore failed with `restore`: record `rollback-failed`
/// with a message that ends with the recovery folder.
fn rollback_failed(failure: String, restore: &AppError, recovery: &String) -> (r: RunStep)
    ensures
        r matches RunStep::RecordRollbackFailed { message } && message@ == rollback_failed_message(
            failure@,
            *restore,
            recovery@,
        ) && ends_with(message@, recovery@),
{
    let mut message = failure;
    message.append(restore.message().as_str());
    message.append("；应急恢复数据保留在 ");
    let ghost before = message@;
    message.append(recovery.as_str());
    proof {
        lemma_ends_with_concat(before, recovery@);
    }
    RunStep::RecordRollbackFailed { message }
}

impl DeleteRun {
    /// A run over `transcripts` folders whose copies go to `recovery`.
    pub fn start(transcripts: usize, recovery: String) -> (r: DeleteRun)
        ensures
            run_wf(r),
            r.transcripts == transcripts,
            r.removed == 0,
            r.recovery == recovery,
            r.step == RunStep::Snapshot,
    {
        DeleteRun { transcripts, removed: 0, recovery, step: RunStep::Snapshot }
    }

    /// What the caller does next (see `step_action`).
    pub fn action(&self) -> (r: RunAction)
        ensures
            r == step_action(self.step),
    {
        match &self.step {
            RunStep::Snapshot => RunAction::SnapshotTranscripts,
            RunStep::RecordSnapshot => RunAction::WriteManifest("snapshot-complete"),
            RunStep::Check(i) => RunAction::CheckTranscript(*i),
            RunStep::Remove(i) => RunAction::RemoveTranscript(*i),
            RunStep::RestoreAfterRemove { .. } => RunAction::RestoreTranscripts,
            RunStep::Transaction => RunAction::RunTransaction,
            RunStep::RestoreAfterTransaction { .. } => RunAction::RestoreTranscripts,
            RunStep::RecordRolledBack { .. } => RunAction::WriteManifest("rolled-back"),
            RunStep::Verify => RunAction::VerifyRemoved,
            RunStep::RestoreAfterVerification => RunAction::RestoreTranscripts,
            RunStep::RecordRollbackFailed { .. } => RunAction::WriteManifest("rollback-failed"),
            RunStep::RecordComplete => RunAction::WriteManifest("complete"),
            RunStep::DropRecovery => RunAction::RemoveRecovery,
            RunStep::DropRecoveryThenFail { .. } => RunAction::RemoveRecovery,
            RunStep::Done(_) => RunAction::Finish,
        }
    }

    /// The run after the caller reported `event` (see `step_follows`).
    pub fn advance(self, event: RunEvent) -> (r: DeleteRun)
        requires
            run_wf(self),
        ensures
            step_follows(self, event, r),
            run_wf(r),
    {
        let DeleteRun { transcripts, removed, recovery, step } = self;
        let mut removed = removed;
        let next = match (step, event) {
            (RunStep::Snapshot, RunEvent::Completed) => RunStep::RecordSnapshot,
            (RunStep::Snapshot, RunEvent::Failed(e)) => RunStep::DropRecoveryThenFail { error: e },
            (RunStep::RecordSnapshot, RunEvent::Completed) => if transcripts == 0 {
                RunStep::Transaction
            } else {
                RunStep::Check(0)
            },
            (RunStep::RecordSnapshot, RunEvent::Failed(e)) => RunStep::DropRecoveryThenFail { error: e },
            (RunStep::Check(i), RunEvent::Completed) => RunStep::Remove(i),
            (RunStep::Check(_), RunEvent::Failed(e)) => RunStep::RestoreAfterRemove { error: e },
            (RunStep::Remove(i), RunEvent::Completed) => {
                removed = removed + 1;
                if i + 1 < transcripts {
                    RunStep::Check(i + 1)
                } else {
                    RunStep::Transaction
                }
            },
            (RunStep::Remove(_), RunEvent::Failed(e)) => RunStep::RestoreAfterRemove { error: e },
            (RunStep::RestoreAfterRemove { error }, RunEvent::Completed) => RunStep::DropRecoveryThenFail { error },
            (RunStep::RestoreAfterRemove { error }, RunEvent::Failed(restore)) => {
                let mut failure = String::from_str("清理 transcript 失败：");
                failure.append(io_detail(&error).as_str());
                failure.append("；自动恢复失败：");
                rollback_failed(failure, &restore, &recovery)
            },
            (RunStep::Transaction, RunEvent::Completed) => RunStep::Verify,
            (RunStep::Transaction, RunEvent::Failed(e)) => RunStep::RestoreAfterTransaction { error: e },
            (RunStep::RestoreAfterTransaction { error }, RunEvent::Completed) => RunStep::RecordRolledBack { error },
            (RunStep::RestoreAfterTransaction { .. }, RunEvent::Failed(restore)) => {
                let failure = String::from_str("数据库事务已回滚，但 transcript 恢复失败：");
                rollback_failed(failure, &restore, &recovery)
            },
            (RunStep::RecordRolledBack { error }, RunEvent::Completed) => RunStep::DropRecoveryThenFail { error },
            (RunStep::RecordRolledBack { error }, RunEvent::Failed(_)) => RunStep::DropRecoveryThenFail { error },
            (RunStep::Verify, RunEvent::Verified(all_gone)) => if all_gone {
                RunStep::RecordComplete
            } else {
                RunStep::RestoreAfterVerification
            },
            (RunStep::RestoreAfterVerification, RunEvent::Completed) => RunStep::DropRecoveryThenFail {
                error: AppError::Execution(String::from_str("执行后校验失败")),
            },
            (RunStep::RestoreAfterVerification, RunEvent::Failed(restore)) => {
                let failure = String::from_str("执行后校验失败；自动恢复失败：");
                rollback_failed(failure, &restore, &recovery)
            },
            (RunStep::RecordRollbackFailed { message }, RunEvent::Completed) => RunStep::Done(
                Err(AppError::Execution(message)),
            ),
            (RunStep::RecordRollbackFailed { message }, RunEvent::Failed(_)) => RunStep::Done(
                Err(AppError::Execution(message)),
            ),
            (RunStep::RecordComplete, RunEvent::Completed) => RunStep::DropRecovery,
            (RunStep::RecordComplete, RunEvent::Failed(e)) => RunStep::DropRecoveryThenFail { error: e },
            (RunStep::DropRecovery, RunEvent::Completed) => RunStep::Done(Ok(())),
            (RunStep::DropRecovery, RunEvent::Failed(e)) => RunStep::Done(Err(e)),
            (RunStep::DropRecoveryThenFail { error }, RunEvent::Completed) => RunStep::Done(Err(error)),
            (RunStep::DropRecoveryThenFail { error }, RunEvent::Failed(_)) => RunStep::Done(Err(error)),
            (other, _) => other,
        };
        DeleteRun { transcripts, removed, recovery, step: next }
    }
}

/// Where the checks before a cleanup stand. Nothing is written before the
/// run reaches `Ready`.
#[derive(Debug)]
pub enum PreRunStep {
    /// Check that the approved plan is recent enough.
    CheckAge,
    /// Probe the database layout.
    CheckSchema,
    /// Check the integrity of the databases.
    CheckIntegrity,
    /// Build the plan again from the current databases.
    Rebuild,
    /// Every check passed; the cleanup follows the rebuilt plan.
    Ready(DeletePlan),
    /// A check failed with this error.
    Refused(AppError),
}

/// The checks before the cleanup of an approved plan: its creation time,
/// fingerprint and impact, and the next step.
#[derive(Debug)]
pub struct PreRun {
    pub created_at: u128,
    pub approved_id: u64,
    pub approved_impact: Impact,
    pub step: PreRunStep,
}

/// What the caller does next before a cleanup.
#[derive(Debug, PartialEq, Eq)]
pub enum PreRunAction {
    ReadClock,
    ProbeSchema,
    CheckIntegrity,
    RebuildPlan,
    Proceed,
    Refuse,
}

/// What the caller found.
#[derive(Debug)]
pub enum PreRunEvent {
    /// The time now, in nanoseconds since the Unix epoch.
    Clock(u128),
    Probed(Result<SchemaProbe, AppError>),
    Integrity(Result<(), AppError>),
    Rebuilt(Result<DeletePlan, AppError>),
}

/// What the caller does at `step`.
pub open spec fn pre_run_action(step: PreRunStep) -> PreRunAction {
    match step {
        PreRunStep::CheckAge => PreRunAction::ReadClock,
        PreRunStep::CheckSchema => PreRunAction::ProbeSchema,
        PreRunStep::CheckIntegrity => PreRunAction::CheckIntegrity,
        PreRunStep::Rebuild => PreRunAction::RebuildPlan,
        PreRunStep::Ready(_) => PreRunAction::Proceed,
        PreRunStep::Refused(_) => PreRunAction::Refuse,
    }
}

/// `next` follows `run` after `event`. The checks come in a fixed order:
/// the plan's age, the layout, the integrity, then a rebuilt plan that must
/// keep the approved fingerprint and impact; the first that fails refuses
/// the cleanup with its error. An event of the wrong kind changes nothing.
pub open spec fn pre_run_follows(run: PreRun, event: PreRunEvent, next: PreRun) -> bool {
    &&& next.created_at == run.created_at
    &&& next.approved_id == run.approved_id
    &&& next.approved_impact == run.approved_impact
    &&& match (run.step, event) {
        (PreRunStep::CheckAge, PreRunEvent::Clock(now)) => next.step == if now > run.created_at && now
            - run.created_at > PLAN_LIFETIME_NANOS {
            PreRunStep::Refused(AppError::PlanChanged)
        } else {
            PreRunStep::CheckSchema
        },
        (PreRunStep::CheckSchema, PreRunEvent::Probed(Err(e))) => next.step == PreRunStep::Refused(e),
        (PreRunStep::CheckSchema, PreRunEvent::Probed(Ok(p))) => if p.state == SchemaState::Supported {
            next.step == PreRunStep::CheckIntegrity
        } else {
            next.step matches PreRunStep::Refused(AppError::UnsupportedSchema(m)) && m@ == joined(
                p.diagnostics.deep_view(),
                "；"@,
            )
        },
        (PreRunStep::CheckIntegrity, PreRunEvent::Integrity(Ok(()))) => next.step == PreRunStep::Rebuild,
        (PreRunStep::CheckIntegrity, PreRunEvent::Integrity(Err(e))) => next.step == PreRunStep::Refused(e),
        (PreRunStep::Rebuild, PreRunEvent::Rebuilt(Err(e))) => next.step == PreRunStep::Refused(e),
        (PreRunStep::Rebuild, PreRunEvent::Rebuilt(Ok(f))) => next.step == if f.id == run.approved_id && f.impact
            == run.approved_impact {
            PreRunStep::Ready(f)
        } else {
            PreRunStep::Refused(AppError::PlanChanged)
        },
        _ => next.step == run.step,
    }
}

impl PreRun {
    /// The checks before cleaning up `approved`, starting with its age.
    pub fn start(approved: &DeletePlan) -> (r: PreRun)
        ensures
            r.created_at == approved.created_at,
            r.approved_id == approved.id,
            r.approved_impact == approved.impact,
            r.step == PreRunStep::CheckAge,
    {
        PreRun {
            created_at: approved.created_at,
            approved_id: approved.id,
            approved_impact: approved.impact,
            step: PreRunStep::CheckAge,
        }
    }

    /// What the caller does next (see `pre_run_action`).
    pub fn action(&self) -> (r: PreRunAction)
        ensures
            r == pre_run_action(self.step),
    {
        match &self.step {
            PreRunStep::CheckAge => PreRunAction::ReadClock,
            PreRunStep::CheckSchema => PreRunAction::ProbeSchema,
            PreRunStep::CheckIntegrity => PreRunAction::CheckIntegrity,
            PreRunStep::Rebuild => PreRunAction::RebuildPlan,
            PreRunStep::Ready(_) => PreRunAction::Proceed,
            PreRunStep::Refused(_) => PreRunAction::Refuse,
        }
    }

    /// The checks after the caller reported `event` (see `pre_run_follows`).
    pub fn advance(self, event: PreRunEvent) -> (r: PreRun)
        ensures
            pre_run_follows(self, event, r),
    {
        let PreRun { created_at, approved_id, approved_impact, step } = self;
        let next = match (step, event) {
            (PreRunStep::CheckAge, PreRunEvent::Clock(now)) => if plan_expired(created_at, now) {
                PreRunStep::Refused(AppError::PlanChanged)
            } else {
                PreRunStep::CheckSchema
            },
            (PreRunStep::CheckSchema, PreRunEvent::Probed(Err(e))) => PreRunStep::Refused(e),
            (PreRunStep::CheckSchema, PreRunEvent::Probed(Ok(p))) => match CursorStore::require_supported(p) {
                Ok(_) => PreRunStep::CheckIntegrity,
                Err(e) => PreRunStep::Refused(e),
            },
            (PreRunStep::CheckIntegrity, PreRunEvent::Integrity(Ok(()))) => PreRunStep::Rebuild,
            (PreRunStep::CheckIntegrity, PreRunEvent::Integrity(Err(e))) => PreRunStep::Refused(e),
            (PreRunStep::Rebuild, PreRunEvent::Rebuilt(Err(e))) => PreRunStep::Refused(e),
            (PreRunStep::Rebuild, PreRunEvent::Rebuilt(Ok(f))) => if f.id == approved_id && f.impact
                == approved_impact {
                PreRunStep::Ready(f)
            } else {
                PreRunStep::Refused(AppError::PlanChanged)
            },
            (other, _) => other,
        };
        PreRun { created_at, approved_id, approved_impact, step: next }
    }

    /// The cleanup run of the rebuilt plan, once every check passed, with its
    /// copies going to `recovery`; `None` before that or after a refusal.
    pub fn into_run(self, recovery: String) -> (r: Option<(DeletePlan, DeleteRun)>)
        ensures
            match self.step {
                PreRunStep::Ready(f) => r matches Some((g, run)) && g == f && run_wf(run)
                    && run.transcripts == f.transcript_dirs@.len() && run.removed == 0 && run.recovery == recovery
                    && run.step == RunStep::Snapshot,
                _ => r is None,
            },
    {
        match self.step {
            PreRunStep::Ready(f) => {
                let run = DeleteRun::start(f.transcript_dirs.len(), recovery);
                Some((f, run))
            },
            _ => None,
        }
    }
}

/// A cleanup proceeds only after every check passed, in order: the rebuilt
/// plan is accepted only when it keeps the approved fingerprint and impact,
/// the rebuild is asked for only after the integrity check passed, the
/// integrity check only after the layout was found supported, and the
/// layout only after the plan was found recent enough.
pub proof fn law_checks_pass_in_order(run: PreRun, event: PreRunEvent, next: PreRun)
    requires
        pre_run_follows(run, event, next),
        run.step != next.step,
    ensures
        next.step matches PreRunStep::Ready(f) ==> run.step == PreRunStep::Rebuild && event == PreRunEvent::Rebuilt(
            Ok(f),
        ) && f.id == run.approved_id && f.impact == run.approved_impact,
        next.step == PreRunStep::Rebuild ==> (run.step == PreRunStep::CheckIntegrity && (event matches PreRunEvent::Integrity(
            r,
        ) && r is Ok)),
        next.step == PreRunStep::CheckIntegrity ==> (run.step == PreRunStep::CheckSchema && (event matches PreRunEvent::Probed(
            Ok(p),
        ) && p.state == SchemaState::Supported)),
        next.step == PreRunStep::CheckSchema ==> (run.step == PreRunStep::CheckAge && (event matches PreRunEvent::Clock(
            now,
        ) && !(now > run.created_at && now - run.created_at > PLAN_LIFETIME_NANOS))),
{
}

/// The checks end where they end: a refusal or a passed check list stays
/// as it is whatever is reported after it.
pub proof fn law_pre_run_end_is_final(run: PreRun, event: PreRunEvent, next: PreRun)
    requires
        run.step is Ready || run.step is Refused,
        pre_run_follows(run, event, next),
    ensures
        next.step == run.step,
{
}

/// The database rows are deleted only after every transcript folder was
/// checked and removed: the transaction step is entered only from the
/// removal of the last folder, or right after the copies were recorded when
/// there is no folder, and always with all folders removed.
pub proof fn law_transaction_after_all_removals(run: DeleteRun, event: RunEvent, next: DeleteRun)
    requires
        run_wf(run),
        step_follows(run, event, next),
        run_wf(next),
        next.step == RunStep::Transaction,
        run.step != RunStep::Transaction,
    ensures
        run.step == RunStep::Remove((run.transcripts - 1) as usize) || (run.step == RunStep::RecordSnapshot
            && run.transcripts == 0),
        event is Completed,
        next.removed == next.transcripts,
{
}

/// A transcript folder is touched only after its copy was recorded: the
/// first check comes right after the manifest of the copies was written.
pub proof fn law_checks_follow_the_snapshot(run: DeleteRun, event: RunEvent, next: DeleteRun)
    requires
        run_wf(run),
        step_follows(run, event, next),
        next.step == RunStep::Check(0),
        run.step != next.step,
    ensures
        run.step == RunStep::RecordSnapshot,
        event is Completed,
{
}

/// Every failure after a transcript folder may have been removed (a failed
/// check or removal, a failed transaction, a cleanup that left a requested
/// conversation behind) puts the folders back first.
pub proof fn law_failures_restore_the_folders(run: DeleteRun, event: RunEvent, next: DeleteRun)
    requires
        run_wf(run),
        step_follows(run, event, next),
        run.step is Check || run.step is Remove || run.step is Transaction || run.step is Verify,
        if run.step is Verify { event == RunEvent::Verified(false) } else { event is Failed },
    ensures
        is_restore(next.step),
        step_action(next.step) == RunAction::RestoreTranscripts,
{
}

/// The recovery folder is dropped only when nothing depends on it: the
/// folders were never touched, or they were put back, or the cleanup was
/// verified.
pub proof fn law_recovery_dropped_only_when_safe(run: DeleteRun, event: RunEvent, next: DeleteRun)
    requires
        run_wf(run),
        step_follows(run, event, next),
        step_action(next.step) == RunAction::RemoveRecovery,
        step_action(run.step) != RunAction::RemoveRecovery,
    ensures
        run.step is Snapshot || run.step is RecordSnapshot || (is_restore(run.step) && event is Completed)
            || run.step is RecordRolledBack || run.step is RecordComplete,
{
}

/// A run that fails ends either right after the recovery folder was dropped
/// (or its removal was attempted), or with the message of a failed restore,
/// which names the recovery folder that is kept.
pub proof fn law_failure_drops_recovery_unless_restore_failed(
    run: DeleteRun,
    event: RunEvent,
    next: DeleteRun,
    err: AppError,
)
    requires
        run_wf(run),
        step_follows(run, event, next),
        !(run.step is Done),
        next.step == RunStep::Done(Err(err)),
    ensures
        run.step is DropRecoveryThenFail || run.step is DropRecovery || (run.step matches RunStep::RecordRollbackFailed {
            message,
        } && err matches AppError::Execution(m) && m@ == message@ && ends_with(m@, run.recovery@)),
{
}

/// The recovery folder is kept only after a restore failed: the step that
/// records `rollback-failed` is entered only from a restore that failed,
/// with a message that names the recovery folder.
pub proof fn law_recovery_kept_only_after_failed_restore(run: DeleteRun, event: RunEvent, next: DeleteRun)
    requires
        run_wf(run),
        step_follows(run, event, next),
        run_wf(next),
        next.step is RecordRollbackFailed,
        !(run.step is RecordRollbackFailed),
    ensures
        is_restore(run.step),
        event matches RunEvent::Failed(restore) && next.step matches RunStep::RecordRollbackFailed { message }
            && message@ == rollback_failed_message(restore_failure(run.step), restore, run.recovery@),
        next.step matches RunStep::RecordRollbackFailed { message } && ends_with(message@, run.recovery@),
{
}

/// A run succeeds only through a verified cleanup: the manifest is marked
/// complete only after every requested conversation was found gone, and the
/// run ends well only after that manifest was written and the recovery
/// folder dropped.
pub proof fn law_success_only_when_verified(run: DeleteRun, event: RunEvent, next: DeleteRun)
    requires
        run_wf(run),
        step_follows(run, event, next),
        run.step != next.step,
        next.step == RunStep::RecordComplete || next.step == RunStep::Done(Ok(())),
    ensures
        next.step == RunStep::RecordComplete ==> run.step == RunStep::Verify && event == RunEvent::Verified(true),
        next.step == RunStep::Done(Ok(())) ==> run.step == RunStep::DropRecovery && event is Completed,
{
}

/// A transcript folder is removed only right after its safety check
/// succeeded, and the folders are taken in order: folder `i` is checked
/// first or after folder `i - 1` was removed.
pub proof fn law_removal_only_after_check(run: DeleteRun, event: RunEvent, next: DeleteRun)
    requires
        run_wf(run),
        step_follows(run, event, next),
        run.step != next.step,
    ensures
        next.step matches RunStep::Remove(i) ==> run.step == RunStep::Check(i) && event is Completed,
        next.step matches RunStep::Check(i) ==> (i == 0 && run.step == RunStep::RecordSnapshot) || (i >= 1
            && run.step == RunStep::Remove((i - 1) as usize)),
        next.step matches RunStep::Check(i) ==> event is Completed,
{
}

/// A finished run stays finished.
pub proof fn law_done_is_final(run: DeleteRun, event: RunEvent, next: DeleteRun)
    requires
        run.step is Done,
        step_follows(run, event, next),
    ensures
        next.step == run.step,
        next.removed == run.removed,
{
}

/// `n` in decimal, padded with a leading zero to two digits.
pub open spec fn two_digits(n: nat) -> Seq<char> {
    if n < 10 { "0"@ + decimal(n) } else { decimal(n) }
}

/// The name of the `attempt`-th candidate recovery folder of a run labelled
/// `label`, made at `unix_seconds` by process `pid`.
pub open spec fn recovery_name(unix_seconds: nat, label: Seq<char>, pid: nat, attempt: nat) -> Seq<char> {
    decimal(unix_seconds) + "-"@ + label + "-"@ + decimal(pid) + "-"@ + two_digits(attempt)
}

/// How many names are tried before giving up on a unique recovery folder.
pub const RECOVERY_ATTEMPTS: u32 = 100;

/// The name of a candidate recovery folder (see `recovery_name`).
pub fn recovery_dir_name(unix_seconds: u64, label: &str, pid: u32, attempt: u32) -> (r: String)
    ensures
        r@ == recovery_name(unix_seconds as nat, label@, pid as nat, attempt as nat),
{
    let mut out: Vec<char> = Vec::new();
    push_decimal(&mut out, unix_seconds as u128);
    out.push('-');
    let l = crate::text::chars_of(label);
    crate::text::push_all(&mut out, l.as_slice());
    out.push('-');
    push_decimal(&mut out, pid as u128);
    out.push('-');
    if attempt < 10 {
        out.push('0');
    }
    push_decimal(&mut out, attempt as u128);
    let r = string_from_chars(out.as_slice());
    proof {
        reveal_strlit("-");
        reveal_strlit("0");
        assert(r@ =~= recovery_name(unix_seconds as nat, label@, pid as nat, attempt as nat));
    }
    r
}

} // verus!
