//! The checks that gate every plan and every execution.

use vstd::prelude::*;
use crate::domain::{no_failed_check, CheckResult, CheckState, PreflightReport, SchemaProbe, SchemaState};
use crate::error::{error_message, AppError};
use crate::text::{int_decimal, int_text, join_strings, joined};

verus! {

/// A passed check.
pub fn passed(label: &str, detail: String) -> (r: CheckResult)
    ensures
        r.label@ == label@ && r.state == CheckState::Passed && r.detail@ == detail@,
{
    CheckResult { label: String::from_str(label), state: CheckState::Passed, detail }
}

/// A failed check; a failed check blocks the flow.
pub fn failed(label: &str, detail: String) -> (r: CheckResult)
    ensures
        r.label@ == label@ && r.state == CheckState::Failed && r.detail@ == detail@,
{
    CheckResult { label: String::from_str(label), state: CheckState::Failed, detail }
}

/// A check that only warns.
pub fn warning(label: &str, detail: String) -> (r: CheckResult)
    ensures
        r.label@ == label@ && r.state == CheckState::Warning && r.detail@ == detail@,
{
    CheckResult { label: String::from_str(label), state: CheckState::Warning, detail }
}

/// What the runtime observed while checking the environment. `holders` has
/// one entry per database file that exists: its file name and who holds it.
pub struct PreflightInputs {
    pub schema: Result<SchemaProbe, AppError>,
    pub integrity: Result<(), AppError>,
    pub transcripts_present: bool,
    pub processes: Result<Vec<String>, String>,
    pub holders: Vec<(String, Result<Vec<String>, String>)>,
    pub recovery: Result<(), String>,
}

/// A check as plain values: label, state, detail.
pub type CheckView = (Seq<char>, CheckState, Seq<char>);

pub open spec fn check_view(c: CheckResult) -> CheckView {
    (c.label@, c.state, c.detail@)
}

pub open spec fn version_or_zero(v: Option<i64>) -> int {
    match v {
        Some(x) => x as int,
        None => 0,
    }
}

/// The schema line of the report.
pub open spec fn schema_check(schema: Result<SchemaProbe, AppError>) -> CheckView {
    match schema {
        Ok(p) => if p.state == SchemaState::Supported {
            match p.search_version {
                Some(v) => ("Schema"@, CheckState::Passed, "conversation-search.db v"@ + int_decimal(v as int)
                    + " / state.vscdb v"@ + int_decimal(version_or_zero(p.state_version))),
                None => ("Schema"@, CheckState::Passed, "state.vscdb v"@ + int_decimal(version_or_zero(p.state_version))
                    + "（单库模式）"@),
            }
        } else {
            ("Schema"@, CheckState::Failed, joined(p.diagnostics.deep_view(), "；"@))
        },
        Err(e) => ("Schema"@, CheckState::Failed, error_message(e)),
    }
}

/// The database integrity line of the report.
pub open spec fn integrity_check_line(r: Result<(), AppError>) -> CheckView {
    match r {
        Ok(()) => ("数据库"@, CheckState::Passed, "两份数据库 quick_check 均通过"@),
        Err(e) => ("数据库"@, CheckState::Failed, error_message(e)),
    }
}

/// The transcript line: a missing transcript root only warns.
pub open spec fn transcript_check(present: bool) -> CheckView {
    if present {
        ("Transcript"@, CheckState::Passed, "Cursor transcript 根目录可访问"@)
    } else {
        ("Transcript"@, CheckState::Warning, "未发现 transcript 根目录；数据库清理仍可执行"@)
    }
}

/// The process line: any running Cursor process fails the check.
pub open spec fn process_check(r: Result<Seq<Seq<char>>, Seq<char>>) -> CheckView {
    match r {
        Ok(ps) => if ps.len() == 0 {
            ("Cursor 进程"@, CheckState::Passed, "未检测到 Cursor 后台进程"@)
        } else {
            ("Cursor 进程"@, CheckState::Failed, "仍在运行："@ + joined(ps, "、"@))
        },
        Err(d) => ("Cursor 进程"@, CheckState::Failed, d),
    }
}

/// The line of one database file: any other holder fails the check.
pub open spec fn holder_check(name: Seq<char>, r: Result<Seq<Seq<char>>, Seq<char>>) -> CheckView {
    match r {
        Ok(hs) => if hs.len() == 0 {
            ("数据库占用"@, CheckState::Passed, name + " 未被其他进程打开"@)
        } else {
            ("数据库占用"@, CheckState::Failed, name + " 仍被 "@ + joined(hs, "、"@) + " 打开"@)
        },
        Err(d) => ("数据库占用"@, CheckState::Failed, d),
    }
}

/// The line of the temporary rollback area.
pub open spec fn recovery_check(r: Result<(), Seq<char>>) -> CheckView {
    match r {
        Ok(()) => ("临时回滚"@, CheckState::Passed, "可创建并清理唯一测试文件"@),
        Err(d) => ("临时回滚"@, CheckState::Failed, d),
    }
}

pub open spec fn list_result(r: Result<Vec<String>, String>) -> Result<Seq<Seq<char>>, Seq<char>> {
    match r {
        Ok(v) => Ok(v.deep_view()),
        Err(d) => Err(d@),
    }
}

pub open spec fn unit_result(r: Result<(), String>) -> Result<(), Seq<char>> {
    match r {
        Ok(()) => Ok(()),
        Err(d) => Err(d@),
    }
}

/// The report for the observations: schema, integrity, transcripts,
/// processes, one line per existing database file, rollback area.
pub open spec fn report_of(i: PreflightInputs) -> Seq<CheckView> {
    seq![schema_check(i.schema), integrity_check_line(i.integrity), transcript_check(i.transcripts_present),
        process_check(list_result(i.processes))]
        + Seq::new(i.holders@.len(), |k: int| holder_check(i.holders@[k].0@, list_result(i.holders@[k].1)))
        + seq![recovery_check(unit_result(i.recovery))]
}

fn schema_line(schema: &Result<SchemaProbe, AppError>) -> (r: CheckResult)
    ensures
        check_view(r) == schema_check(*schema),
{
    match schema {
        Ok(p) => {
            if p.supported() {
                let sv = match p.state_version {
                    Some(v) => v,
                    None => 0,
                };
                match p.search_version {
                    Some(v) => {
                        let mut d = String::from_str("conversation-search.db v");
                        d.append(int_text(v).as_str());
                        d.append(" / state.vscdb v");
                        d.append(int_text(sv).as_str());
                        passed("Schema", d)
                    },
                    None => {
                        let mut d = String::from_str("state.vscdb v");
                        d.append(int_text(sv).as_str());
                        d.append("（单库模式）");
                        passed("Schema", d)
                    },
                }
            } else {
                failed("Schema", join_strings(&p.diagnostics, "；"))
            }
        },
        Err(e) => failed("Schema", e.message()),
    }
}

fn list_line(r: &Result<Vec<String>, String>) -> (c: CheckResult)
    ensures
        check_view(c) == process_check(list_result(*r)),
{
    match r {
        Ok(ps) => {
            if ps.len() == 0 {
                passed("Cursor 进程", String::from_str("未检测到 Cursor 后台进程"))
            } else {
                let mut d = String::from_str("仍在运行：");
                d.append(join_strings(ps, "、").as_str());
                failed("Cursor 进程", d)
            }
        },
        Err(d) => failed("Cursor 进程", d.clone()),
    }
}

fn holder_line(name: &String, r: &Result<Vec<String>, String>) -> (c: CheckResult)
    ensures
        check_view(c) == holder_check(name@, list_result(*r)),
{
    match r {
        Ok(hs) => {
            let mut d = name.clone();
            if hs.len() == 0 {
                d.append(" 未被其他进程打开");
                passed("数据库占用", d)
            } else {
                d.append(" 仍被 ");
                d.append(join_strings(hs, "、").as_str());
                d.append(" 打开");
                failed("数据库占用", d)
            }
        },
        Err(d) => failed("数据库占用", d.clone()),
    }
}

/// Builds the report of `report_of`.
pub fn build_report(inputs: &PreflightInputs) -> (r: PreflightReport)
    ensures
        r.checks@.map_values(|c: CheckResult| check_view(c)) == report_of(*inputs),
{
    let mut checks: Vec<CheckResult> = Vec::new();
    checks.push(schema_line(&inputs.schema));
    checks.push(match &inputs.integrity {
        Ok(()) => passed("数据库", String::from_str("两份数据库 quick_check 均通过")),
        Err(e) => failed("数据库", e.message()),
    });
    checks.push(if inputs.transcripts_present {
        passed("Transcript", String::from_str("Cursor transcript 根目录可访问"))
    } else {
        warning("Transcript", String::from_str("未发现 transcript 根目录；数据库清理仍可执行"))
    });
    checks.push(list_line(&inputs.processes));
    let ghost head = seq![schema_check(inputs.schema), integrity_check_line(inputs.integrity),
        transcript_check(inputs.transcripts_present), process_check(list_result(inputs.processes))];
    let ghost holders = Seq::new(inputs.holders@.len(), |k: int| holder_check(inputs.holders@[k].0@,
        list_result(inputs.holders@[k].1)));
    assert(checks@.map_values(|c: CheckResult| check_view(c)) =~= head);
    let mut k: usize = 0;
    while k < inputs.holders.len()
        invariant
            k <= inputs.holders@.len(),
            holders == Seq::new(inputs.holders@.len(), |k: int| holder_check(inputs.holders@[k].0@,
                list_result(inputs.holders@[k].1))),
            checks@.map_values(|c: CheckResult| check_view(c)) =~= head + holders.take(k as int),
        decreases inputs.holders@.len() - k,
    {
        let (name, r) = &inputs.holders[k];
        let line = holder_line(name, r);
        assert(check_view(line) == holders[k as int]);
        let ghost before = checks@;
        checks.push(line);
        assert(checks@.map_values(|c: CheckResult| check_view(c)) =~= before.map_values(|c: CheckResult| check_view(c)).push(check_view(line)));
        assert(holders.take(k + 1) =~= holders.take(k as int).push(holders[k as int]));
        k = k + 1;
    }
    checks.push(match &inputs.recovery {
        Ok(()) => passed("临时回滚", String::from_str("可创建并清理唯一测试文件")),
        Err(d) => failed("临时回滚", d.clone()),
    });
    assert(holders.take(k as int) =~= holders);
    assert(checks@.map_values(|c: CheckResult| check_view(c)) =~= report_of(*inputs));
    PreflightReport { checks }
}

/// A database file that another process holds, or whose holders could not
/// be listed, fails the report: its line is a failed check, and no list of
/// checks that the report consists of lets the cleanup continue.
pub proof fn law_held_database_fails_report(i: PreflightInputs, k: int, checks: Seq<CheckResult>)
    requires
        0 <= k < i.holders@.len(),
        match i.holders@[k].1 {
            Ok(hs) => hs@.len() > 0,
            Err(_) => true,
        },
        checks.map_values(|c: CheckResult| check_view(c)) == report_of(i),
    ensures
        report_of(i)[4 + k].0 == "数据库占用"@,
        report_of(i)[4 + k].1 == CheckState::Failed,
        checks[4 + k].state == CheckState::Failed,
        !no_failed_check(checks),
{
    let holders = Seq::new(i.holders@.len(), |j: int| holder_check(i.holders@[j].0@, list_result(i.holders@[j].1)));
    let head = seq![schema_check(i.schema), integrity_check_line(i.integrity), transcript_check(i.transcripts_present),
        process_check(list_result(i.processes))];
    assert(report_of(i) == head + holders + seq![recovery_check(unit_result(i.recovery))]);
    assert(report_of(i).len() == holders.len() + 5);
    assert(checks.map_values(|c: CheckResult| check_view(c)).len() == checks.len());
    assert(report_of(i)[4 + k] == (head + holders)[4 + k]);
    assert((head + holders)[4 + k] == holders[k]);
    assert(checks.map_values(|c: CheckResult| check_view(c))[4 + k] == check_view(checks[4 + k]));
    assert(checks[4 + k].state == CheckState::Failed);
}

/// The refusal of a cleanup whose own preflight failed.
pub open spec fn recheck_refusal() -> Seq<char> {
    "执行前复检未通过；Cursor 必须完全退出且数据库不得被占用"@
}

/// Whether a cleanup may start after the preflight it runs first: nothing
/// when no check failed, else the refusal that ends the cleanup before it
/// touches any file.
pub fn execution_gate(report: &PreflightReport) -> (r: Option<AppError>)
    ensures
        match r {
            None => no_failed_check(report.checks@),
            Some(e) => !no_failed_check(report.checks@) && (e matches AppError::Preflight(m) && m@ == recheck_refusal()),
        },
{
    if report.can_continue() {
        None
    } else {
        Some(AppError::Preflight(String::from_str("执行前复检未通过；Cursor 必须完全退出且数据库不得被占用")))
    }
}

} // verus!
