//! The decisions and the report of `unf restart`, and the lines of the
//! audit log.

use vstd::prelude::*;
use vstd::string::StrSliceExecFns;
use vstd::string::StringExecFns;
use crate::output::{status_line, status_prefix};
use crate::paths::{join_path, joined};
use crate::text::push_str;

verus! {

/// What `unf restart` reports in JSON: its outcome, and the auto-start
/// state after it ran (absent when nothing was restarted).
#[derive(Clone, Debug)]
pub struct RestartOutput {
    pub status: String,
    /// Auto-start is installed.
    pub auto_restart: Option<bool>,
    /// This run installed auto-start that was missing.
    pub auto_restart_enabled: Option<bool>,
}

/// There is something to watch: a registered project, or one the intent
/// file names.
pub fn has_projects_to_watch(registered: bool, intended: bool) -> (r: bool)
    ensures
        r == (registered || intended),
{
    registered || intended
}

/// The report when no project is registered: auto-start is left alone and
/// not mentioned.
pub fn no_projects_output() -> (r: RestartOutput)
    ensures
        r.status@ == "no_projects"@,
        r.auto_restart is None,
        r.auto_restart_enabled is None,
{
    RestartOutput {
        status: String::from_str("no_projects"),
        auto_restart: None,
        auto_restart_enabled: None,
    }
}

/// The report after a restart, with the auto-start state.
pub fn restarted_output(enabled_now: bool, present: bool) -> (r: RestartOutput)
    ensures
        r.status@ == "restarted"@,
        r.auto_restart == Some(present),
        r.auto_restart_enabled == Some(enabled_now),
{
    RestartOutput {
        status: String::from_str("restarted"),
        auto_restart: Some(present),
        auto_restart_enabled: Some(enabled_now),
    }
}

/// The line shown when no project is registered.
pub const NO_PROJECTS_LINE: &'static str = "No projects registered. Use 'unf watch' first.";

/// The lines shown after a restart: the restart, and the enabling of
/// auto-start only when this run enabled it and it is in place.
pub fn restarted_lines(enabled_now: bool, present: bool, colored: bool) -> (r: Vec<String>)
    ensures
        r@.len() == if enabled_now && present {
            2int
        } else {
            1int
        },
        r@[0]@ == status_line("Restarted"@, "daemon"@, colored),
        enabled_now && present ==> r@[1]@ == status_line(
            "Enabled"@,
            "auto-restart on login"@,
            colored,
        ),
{
    let mut r: Vec<String> = Vec::new();
    r.push(status_prefix("Restarted", "daemon", colored));
    if enabled_now && present {
        r.push(status_prefix("Enabled", "auto-restart on login", colored));
    }
    r
}

/// The audit log, in the storage directory.
pub fn audit_path(global_dir: &str) -> (r: String)
    ensures
        r@ == joined(global_dir@, "audit.log"@),
{
    join_path(global_dir, "audit.log")
}

/// Where a rotated audit log goes: the log's name with its extension
/// `log` replaced by `log.1`.
pub fn audit_backup_path(global_dir: &str) -> (r: String)
    ensures
        r@ == joined(global_dir@, "audit.log.1"@),
{
    join_path(global_dir, "audit.log.1")
}

/// The size at which the audit log is rotated (1 MB).
pub const MAX_LOG_SIZE: u64 = 1048576;

/// Whether an audit log of this size is rotated before the next line.
pub fn needs_rotation(len: u64) -> (r: bool)
    ensures
        r == (len >= MAX_LOG_SIZE),
{
    len >= MAX_LOG_SIZE
}

/// One line of the audit log, without its newline: the instant, the event
/// and the detail, separated by tabs.
pub fn audit_line(timestamp: &str, event: &str, detail: &str) -> (r: String)
    ensures
        r@ == timestamp@ + "\t"@ + event@ + "\t"@ + detail@,
{
    let mut r = String::from_str(timestamp);
    push_str(&mut r, "\t");
    push_str(&mut r, event);
    push_str(&mut r, "\t");
    push_str(&mut r, detail);
    r
}

} // verus!
