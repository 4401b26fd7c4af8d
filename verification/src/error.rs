//! Errors of the tool, with the text shown to the user and a suggestion.

use vstd::prelude::*;

verus! {

/// Everything that can stop an operation. Errors raised by the file system,
/// the configuration parser or the database carry their message text.
#[derive(Clone, Debug)]
pub enum AppError {
    ConfigRead(String),
    ConfigParse(String),
    InvalidConfig(String),
    Probe(String),
    UnsupportedSchema(String),
    Database(String),
    Preflight(String),
    Planning(String),
    PlanChanged,
    Execution(String),
    Io { path: String, source: String },
}

/// The message shown for an error.
pub open spec fn error_message(e: AppError) -> Seq<char> {
    match e {
        AppError::ConfigRead(s) => "无法读取配置："@ + s@,
        AppError::ConfigParse(s) => "配置格式无效："@ + s@,
        AppError::InvalidConfig(s) => "配置不安全："@ + s@,
        AppError::Probe(s) => "数据源检查失败："@ + s@,
        AppError::UnsupportedSchema(s) => "不支持的 Cursor 数据结构："@ + s@,
        AppError::Database(s) => "数据库操作失败："@ + s@,
        AppError::Preflight(s) => "环境检查未通过："@ + s@,
        AppError::Planning(s) => "清理计划生成失败："@ + s@,
        AppError::PlanChanged => "清理计划已经变化，请重新预览"@,
        AppError::Execution(s) => "执行被拒绝："@ + s@,
        AppError::Io { path, source } => "I/O 操作失败（"@ + path@ + "）："@ + source@,
    }
}

/// The advice shown with an error.
pub open spec fn error_suggestion(e: AppError) -> Seq<char> {
    match e {
        AppError::ConfigRead(_) | AppError::ConfigParse(_) | AppError::InvalidConfig(_) =>
            "检查配置文件中的绝对路径后重新启动。"@,
        AppError::Probe(_) | AppError::UnsupportedSchema(_) => "仅执行诊断；不要对未知结构写入。"@,
        AppError::Preflight(_) => "完全退出 Cursor，修复检查项后按 R 重试。"@,
        AppError::Planning(_) | AppError::PlanChanged => "返回记录页并重新生成影响预览。"@,
        AppError::Execution(_) | AppError::Database(_) | AppError::Io { .. } =>
            "检查数据库状态和错误详情后再重试。"@,
    }
}

fn prefixed(prefix: &str, s: &String) -> (r: String)
    ensures
        r@ == prefix@ + s@,
{
    let mut r = String::from_str(prefix);
    r.append(s.as_str());
    r
}

impl AppError {
    /// The message shown for this error.
    pub fn message(&self) -> (r: String)
        ensures
            r@ == error_message(*self),
    {
        match self {
            AppError::ConfigRead(s) => prefixed("无法读取配置：", s),
            AppError::ConfigParse(s) => prefixed("配置格式无效：", s),
            AppError::InvalidConfig(s) => prefixed("配置不安全：", s),
            AppError::Probe(s) => prefixed("数据源检查失败：", s),
            AppError::UnsupportedSchema(s) => prefixed("不支持的 Cursor 数据结构：", s),
            AppError::Database(s) => prefixed("数据库操作失败：", s),
            AppError::Preflight(s) => prefixed("环境检查未通过：", s),
            AppError::Planning(s) => prefixed("清理计划生成失败：", s),
            AppError::PlanChanged => String::from_str("清理计划已经变化，请重新预览"),
            AppError::Execution(s) => prefixed("执行被拒绝：", s),
            AppError::Io { path, source } => {
                let mut r = prefixed("I/O 操作失败（", path);
                r.append("）：");
                r.append(source.as_str());
                r
            },
        }
    }

    /// The advice shown with this error.
    pub fn suggestion(&self) -> (r: &'static str)
        ensures
            r@ == error_suggestion(*self),
    {
        match self {
            AppError::ConfigRead(_) | AppError::ConfigParse(_) | AppError::InvalidConfig(_) =>
                "检查配置文件中的绝对路径后重新启动。",
            AppError::Probe(_) | AppError::UnsupportedSchema(_) => "仅执行诊断；不要对未知结构写入。",
            AppError::Preflight(_) => "完全退出 Cursor，修复检查项后按 R 重试。",
            AppError::Planning(_) | AppError::PlanChanged => "返回记录页并重新生成影响预览。",
            AppError::Execution(_) | AppError::Database(_) | AppError::Io { .. } =>
                "检查数据库状态和错误详情后再重试。",
        }
    }
}

} // verus!
