//! What `unf watch`'s start-up, `unf stop` and `unf unwatch` report, and
//! the reading of a daemon's process id from its pid file.

use vstd::prelude::*;
use vstd::string::StrSliceExecFns;
use vstd::string::StringExecFns;
use crate::command_scan::{trim_text, trimmed};
use crate::numbers::{lemma_parse_i64_range, parse_i64, spec_parse_i64};
use crate::output::{status_line, status_prefix};
use crate::text::{decimal, push_decimal, push_str};

verus! {

// ---------------------------------------------------------------------------
// Starting the watch
// ---------------------------------------------------------------------------

/// What starting the watch reports in JSON.
#[derive(Clone, Debug)]
pub struct InitOutput {
    pub status: String,
    /// Snapshots kept from earlier runs, when there are any.
    pub snapshots_preserved: Option<u64>,
    /// Whether auto-start is in place, once the daemon was started.
    pub auto_restart: Option<bool>,
}

/// The report when the project's daemon already runs.
pub fn init_already_running() -> (r: InitOutput)
    ensures
        r.status@ == "already_running"@,
        r.snapshots_preserved is None,
        r.auto_restart is None,
{
    InitOutput {
        status: String::from_str("already_running"),
        snapshots_preserved: None,
        auto_restart: None,
    }
}

/// The line shown when the project's daemon already runs.
pub const ALREADY_WATCHING_LINE: &'static str = "Already watching. Use 'unf status' for details.";

/// The report after the daemon started: resumed over `snapshot_count`
/// earlier snapshots, or started afresh when there are none.
pub fn init_output(snapshot_count: u64, auto_restart: bool) -> (r: InitOutput)
    ensures
        snapshot_count > 0 ==> r.status@ == "resumed"@ && r.snapshots_preserved == Some(
            snapshot_count,
        ),
        snapshot_count == 0 ==> r.status@ == "started"@ && r.snapshots_preserved is None,
        r.auto_restart == Some(auto_restart),
{
    if snapshot_count > 0 {
        InitOutput {
            status: String::from_str("resumed"),
            snapshots_preserved: Some(snapshot_count),
            auto_restart: Some(auto_restart),
        }
    } else {
        InitOutput {
            status: String::from_str("started"),
            snapshots_preserved: None,
            auto_restart: Some(auto_restart),
        }
    }
}

/// The subject of the start-up line: the project, with the count of
/// snapshots kept when there are any.
pub open spec fn watching_subject(project: Seq<char>, snapshot_count: nat) -> Seq<char> {
    if snapshot_count > 0 {
        project + " ("@ + decimal(snapshot_count) + " snapshots preserved)"@
    } else {
        project
    }
}

/// The line shown after the daemon started.
pub fn init_line(project: &str, snapshot_count: u64, colored: bool) -> (r: String)
    ensures
        r@ == status_line("Watching"@, watching_subject(project@, snapshot_count as nat), colored),
{
    let mut subject = String::from_str(project);
    if snapshot_count > 0 {
        push_str(&mut subject, " (");
        push_decimal(&mut subject, snapshot_count);
        push_str(&mut subject, " snapshots preserved)");
    }
    status_prefix("Watching", subject.as_str(), colored)
}

// ---------------------------------------------------------------------------
// Stopping
// ---------------------------------------------------------------------------

/// What `unf stop` reports in JSON.
#[derive(Clone, Debug)]
pub struct StopOutput {
    pub status: String,
    /// Processes still holding a project database that were killed, when
    /// there were any.
    pub stuck_processes_killed: Option<u32>,
}

/// The report when no daemon runs.
pub fn not_running_output() -> (r: StopOutput)
    ensures
        r.status@ == "not_running"@,
        r.stuck_processes_killed is None,
{
    StopOutput { status: String::from_str("not_running"), stuck_processes_killed: None }
}

/// The line, on the error stream, when no daemon runs.
pub const NOT_WATCHING_LINE: &'static str = "Not watching.";

/// The report after the daemon stopped, having killed `stuck` processes
/// that held a project database.
pub fn stop_output(stuck: u32) -> (r: StopOutput)
    ensures
        r.status@ == "stopped"@,
        r.stuck_processes_killed == if stuck > 0 {
            Some(stuck)
        } else {
            None
        },
{
    StopOutput {
        status: String::from_str("stopped"),
        stuck_processes_killed: if stuck > 0 {
            Some(stuck)
        } else {
            None
        },
    }
}

/// The lines after the daemon stopped: the status line for the standard
/// output, and, when stuck processes were killed, a note for the error
/// stream.
pub fn stop_lines(pid: u32, stuck: u32, colored: bool) -> (r: (String, Option<String>))
    ensures
        r.0@ == status_line("Stopped"@, "daemon (pid "@ + decimal(pid as nat) + ")"@, colored),
        stuck == 0 ==> r.1 is None,
        stuck > 0 ==> (r.1 matches Some(note) && note@ == "Killed "@ + decimal(stuck as nat)
            + " stuck process(es)."@),
{
    let mut subject = String::from_str("daemon (pid ");
    push_decimal(&mut subject, pid as u64);
    push_str(&mut subject, ")");
    let line = status_prefix("Stopped", subject.as_str(), colored);
    if stuck > 0 {
        let mut note = String::from_str("Killed ");
        push_decimal(&mut note, stuck as u64);
        push_str(&mut note, " stuck process(es).");
        (line, Some(note))
    } else {
        (line, None)
    }
}

// ---------------------------------------------------------------------------
// Unwatching
// ---------------------------------------------------------------------------

/// The status `unf unwatch` reports in JSON.
pub const UNWATCHED_STATUS: &'static str = "unwatched";

/// The line shown after a project is unwatched.
pub fn unwatch_line(project: &str, colored: bool) -> (r: String)
    ensures
        r@ == status_line("Unwatching"@, project@, colored),
{
    status_prefix("Unwatching", project, colored)
}

// ---------------------------------------------------------------------------
// Process ids
// ---------------------------------------------------------------------------

/// What `str::parse::<u32>` gives for `s`: digits with an optional `+`,
/// within the `u32` range.
pub open spec fn spec_parse_u32(s: Seq<char>) -> Option<u32> {
    if s.len() > 0 && s[0] == '-' {
        None
    } else {
        match spec_parse_i64(s) {
            Ok(v) => if 0 <= v <= u32::MAX {
                Some(v as u32)
            } else {
                None
            },
            Err(_) => None,
        }
    }
}

/// The process id a pid file holds: its text without surrounding white
/// space, read as a `u32`.
pub fn pid_from_text(text: &str) -> (r: Option<u32>)
    ensures
        r == spec_parse_u32(trimmed(text@)),
{
    let t = trim_text(text);
    let s = t.as_str();
    proof {
        lemma_parse_i64_range(s@);
    }
    if s.unicode_len() > 0 && s.get_char(0) == '-' {
        return None;
    }
    match parse_i64(s) {
        Ok(v) => {
            if 0 <= v && v <= 4294967295 {
                Some(v as u32)
            } else {
                None
            }
        },
        Err(_) => None,
    }
}

} // verus!
