use unfudged::daemon_reports::{
    init_already_running, init_line, init_output, not_running_output, pid_from_text, stop_lines,
    stop_output, unwatch_line, ALREADY_WATCHING_LINE, NOT_WATCHING_LINE, UNWATCHED_STATUS,
};

#[test]
fn start_reports_resumed_or_started() {
    let out = init_output(42, true);
    assert_eq!(out.status, "resumed");
    assert_eq!(out.snapshots_preserved, Some(42));
    assert_eq!(out.auto_restart, Some(true));
    let out = init_output(0, false);
    assert_eq!(out.status, "started");
    assert_eq!(out.snapshots_preserved, None);
    assert_eq!(out.auto_restart, Some(false));
    let out = init_already_running();
    assert_eq!(out.status, "already_running");
    assert!(out.snapshots_preserved.is_none() && out.auto_restart.is_none());
    assert_eq!(ALREADY_WATCHING_LINE, "Already watching. Use 'unf status' for details.");
}

#[test]
fn start_line_counts_preserved_snapshots() {
    assert_eq!(init_line("/p", 3, false), "    Watching  /p (3 snapshots preserved)");
    assert_eq!(init_line("/p", 0, false), "    Watching  /p");
    assert_eq!(init_line("/p", 0, true), "\u{1b}[1;32m    Watching\u{1b}[0m  /p");
}

#[test]
fn stop_reports() {
    let out = stop_output(0);
    assert_eq!(out.status, "stopped");
    assert!(out.stuck_processes_killed.is_none());
    assert_eq!(stop_output(2).stuck_processes_killed, Some(2));
    let out = not_running_output();
    assert_eq!(out.status, "not_running");
    assert!(out.stuck_processes_killed.is_none());
    assert_eq!(NOT_WATCHING_LINE, "Not watching.");
}

#[test]
fn stop_lines_note_stuck_processes() {
    let (line, note) = stop_lines(1234, 0, false);
    assert_eq!(line, "     Stopped  daemon (pid 1234)");
    assert!(note.is_none());
    let (_, note) = stop_lines(1234, 2, false);
    assert_eq!(note.as_deref(), Some("Killed 2 stuck process(es)."));
}

#[test]
fn unwatch_reports() {
    assert_eq!(UNWATCHED_STATUS, "unwatched");
    assert_eq!(unwatch_line("/p", false), "  Unwatching  /p");
}

#[test]
fn pid_files_are_read_as_u32() {
    assert_eq!(pid_from_text("1234\n"), Some(1234));
    assert_eq!(pid_from_text("  +7 "), Some(7));
    assert_eq!(pid_from_text("4294967295"), Some(4294967295));
    assert_eq!(pid_from_text("4294967296"), None);
    assert_eq!(pid_from_text("-0"), None);
    assert_eq!(pid_from_text("12a"), None);
    assert_eq!(pid_from_text(""), None);
}
