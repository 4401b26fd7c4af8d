//! The tool's configuration and the rules it must satisfy before any access.

use vstd::prelude::*;
use crate::error::AppError;
use crate::platform::{absolute_path, host_supported, is_absolute_path, join, join_path, HostPlatform};

verus! {

/// Where Cursor keeps its data and how much of a conversation to preview.
#[derive(Clone, Debug)]
pub struct Config {
    pub search_db: String,
    pub state_db: String,
    pub workspace_storage: String,
    pub projects_root: String,
    pub recovery_root: String,
    pub max_preview_chars: usize,
    /// The platform whose path rules apply.
    pub host: HostPlatform,
}

/// The largest preview length a configuration may ask for.
pub const MAX_PREVIEW_LIMIT: usize = 20000;

/// The reason a configuration is refused, or `None` when it is acceptable:
/// the first configured location that is not absolute, then the preview length.
pub open spec fn config_problem(c: Config) -> Option<Seq<char>> {
    let w = c.host.windows_paths();
    if !absolute_path(c.search_db@, w) {
        Some("search_db"@ + " 必须是绝对路径："@ + c.search_db@)
    } else if !absolute_path(c.state_db@, w) {
        Some("state_db"@ + " 必须是绝对路径："@ + c.state_db@)
    } else if !absolute_path(c.workspace_storage@, w) {
        Some("workspace_storage"@ + " 必须是绝对路径："@ + c.workspace_storage@)
    } else if !absolute_path(c.projects_root@, w) {
        Some("projects_root"@ + " 必须是绝对路径："@ + c.projects_root@)
    } else if !absolute_path(c.recovery_root@, w) {
        Some("recovery_root"@ + " 必须是绝对路径："@ + c.recovery_root@)
    } else if c.max_preview_chars == 0 || c.max_preview_chars > MAX_PREVIEW_LIMIT {
        Some("max_preview_chars 必须介于 1 和 20000"@)
    } else {
        None
    }
}

fn path_problem(label: &str, path: &String) -> (r: String)
    ensures
        r@ == label@ + " 必须是绝对路径："@ + path@,
{
    let mut r = String::from_str(label);
    r.append(" 必须是绝对路径：");
    r.append(path.as_str());
    r
}

impl Config {
    /// The default locations, given the user's home directory, Cursor's
    /// per-user directory and the temporary directory.
    pub fn from_locations(home: &str, cursor_user: &str, temp_dir: &str, host: HostPlatform) -> (r: Config)
        ensures
            r.search_db@ == join_path(cursor_user@, "globalStorage/conversation-search.db"@, host.windows_paths()),
            r.state_db@ == join_path(cursor_user@, "globalStorage/state.vscdb"@, host.windows_paths()),
            r.workspace_storage@ == join_path(cursor_user@, "workspaceStorage"@, host.windows_paths()),
            r.projects_root@ == join_path(home@, ".cursor/projects"@, host.windows_paths()),
            r.recovery_root@ == join_path(temp_dir@, "cursor-cleaner-recovery"@, host.windows_paths()),
            r.max_preview_chars == 800,
            r.host == host,
    {
        let w = host.uses_windows_paths();
        Config {
            search_db: join(cursor_user, "globalStorage/conversation-search.db", w),
            state_db: join(cursor_user, "globalStorage/state.vscdb", w),
            workspace_storage: join(cursor_user, "workspaceStorage", w),
            projects_root: join(home, ".cursor/projects", w),
            recovery_root: join(temp_dir, "cursor-cleaner-recovery", w),
            max_preview_chars: 800,
            host,
        }
    }

    /// Refuses relative locations and preview lengths outside 1..=20000.
    pub fn validate(&self) -> (r: Result<(), AppError>)
        ensures
            match r {
                Ok(()) => config_problem(*self) is None,
                Err(e) => config_problem(*self) matches Some(m) && e matches AppError::InvalidConfig(s)
                    && s@ == m,
            },
    {
        let w = self.host.uses_windows_paths();
        if !is_absolute_path(self.search_db.as_str(), w) {
            return Err(AppError::InvalidConfig(path_problem("search_db", &self.search_db)));
        }
        if !is_absolute_path(self.state_db.as_str(), w) {
            return Err(AppError::InvalidConfig(path_problem("state_db", &self.state_db)));
        }
        if !is_absolute_path(self.workspace_storage.as_str(), w) {
            return Err(
                AppError::InvalidConfig(path_problem("workspace_storage", &self.workspace_storage)),
            );
        }
        if !is_absolute_path(self.projects_root.as_str(), w) {
            return Err(AppError::InvalidConfig(path_problem("projects_root", &self.projects_root)));
        }
        if !is_absolute_path(self.recovery_root.as_str(), w) {
            return Err(AppError::InvalidConfig(path_problem("recovery_root", &self.recovery_root)));
        }
        if self.max_preview_chars == 0 || self.max_preview_chars > MAX_PREVIEW_LIMIT {
            return Err(AppError::InvalidConfig(String::from_str("max_preview_chars 必须介于 1 和 20000")));
        }
        Ok(())
    }

    /// Accepts a loaded configuration: the host must be supported and the
    /// configuration valid.
    pub fn accept(self) -> (r: Result<Config, AppError>)
        ensures
            match r {
                Ok(c) => c == self && host_supported(self.host) && config_problem(self) is None,
                Err(e) => if !host_supported(self.host) {
                    e matches AppError::InvalidConfig(s) && s@ == "cursor-cleaner 目前仅支持 Windows 和 macOS"@
                } else {
                    config_problem(self) matches Some(m) && e matches AppError::InvalidConfig(s) && s@ == m
                },
            },
    {
        if !self.host.supported() {
            return Err(AppError::InvalidConfig(String::from_str("cursor-cleaner 目前仅支持 Windows 和 macOS")));
        }
        match self.validate() {
            Ok(()) => Ok(self),
            Err(e) => Err(e),
        }
    }
}

} // verus!
