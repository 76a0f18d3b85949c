use unfudged::restore::{
    confirm_restore, plan_restore, render_dry_run, render_prompt, render_restored, restore_output,
    session_restore_start, sort_path_list, RestorePlan, SKIP_REASON,
};
use unfudged::types::{ContentHash, EventType, Snapshot, SnapshotId, UnfError};

const MINUTE: i64 = 60_000_000_000;
const BASE: i64 = 1_700_000_000_000_000_000;

fn snap(id: i64, path: &str, event: EventType, ts: i64) -> Snapshot {
    Snapshot {
        id: SnapshotId(id),
        file_path: path.to_string(),
        event_type: event,
        timestamp: ts,
        size_bytes: 10,
        content_hash: ContentHash(format!("h{}", id)),
        line_count: 1,
        lines_added: 1,
        lines_removed: 0,
    }
}

fn strings(v: &[&str]) -> Vec<String> {
    v.iter().map(|s| s.to_string()).collect()
}

fn state() -> Vec<Snapshot> {
    vec![
        snap(1, "b.rs", EventType::Create, BASE),
        snap(2, "a.rs", EventType::Modify, BASE),
        snap(3, "gone.rs", EventType::Delete, BASE),
    ]
}

#[test]
fn plan_restores_recorded_files_sorted_and_skips_new_ones() {
    let current = strings(&["b.rs", "a.rs", "gone.rs", "new.rs"]);
    let plan = plan_restore(&state(), &current, None).unwrap();
    assert_eq!(plan.restored, strings(&["a.rs", "b.rs"]));
    assert_eq!(plan.skipped, strings(&["new.rs"]));
}

#[test]
fn plan_with_filter_looks_at_that_file_only() {
    let current = strings(&["b.rs", "a.rs", "new.rs"]);
    let plan = plan_restore(&state(), &current, Some("a.rs")).unwrap();
    assert_eq!(plan.restored, strings(&["a.rs"]));
    assert!(plan.skipped.is_empty());
    let plan = plan_restore(&state(), &current, Some("new.rs")).unwrap();
    assert!(plan.restored.is_empty());
    assert_eq!(plan.skipped, strings(&["new.rs"]));
}

#[test]
fn plan_with_unknown_filter_is_no_results() {
    let current = strings(&["a.rs"]);
    match plan_restore(&state(), &current, Some("x.rs")) {
        Err(UnfError::NoResults(m)) => assert_eq!(m, "No history for \"x.rs\"."),
        other => panic!("unexpected: {:?}", other),
    }
}

#[test]
fn deleted_at_target_is_neither_restored_nor_skipped() {
    let plan = plan_restore(&state(), &strings(&["gone.rs"]), None).unwrap();
    assert!(plan.restored.is_empty());
    assert!(plan.skipped.is_empty());
}

#[test]
fn paths_sort_in_code_point_order_keeping_repeats() {
    let sorted = sort_path_list(strings(&["b", "a", "B", "a", "ab"]));
    assert_eq!(sorted, strings(&["B", "a", "a", "ab", "b"]));
}

fn sample_plan() -> RestorePlan {
    RestorePlan { restored: strings(&["a.rs", "b.rs"]), skipped: strings(&["new.rs"]) }
}

#[test]
fn dry_run_lines_list_files_and_counts() {
    let lines = render_dry_run(&sample_plan(), 7200, "2025-01-15 10:00:00");
    assert_eq!(
        lines,
        strings(&[
            "Restoring to 2 hours ago (2025-01-15 10:00:00):",
            "",
            "  restored  a.rs",
            "  restored  b.rs",
            "  skipped   new.rs  (created after target time, still on disk)",
            "",
            "2 files would be restored, 1 skipped.",
            "",
            "This was a dry run. No files were modified.",
        ])
    );
}

#[test]
fn dry_run_of_one_file_is_singular() {
    let plan = RestorePlan { restored: strings(&["a.rs"]), skipped: vec![] };
    let lines = render_dry_run(&plan, 30, "L");
    assert_eq!(lines[0], "Restoring to 30 seconds ago (L):");
    assert_eq!(lines[4], "1 file would be restored, 0 skipped.");
}

#[test]
fn prompt_names_what_changes() {
    let text = render_prompt(&sample_plan(), 90, "L");
    assert_eq!(
        text,
        "Restore to 1 minute ago (L)?\n\n  Will restore: a.rs, b.rs\n  Will skip (created after target): new.rs\n\nProceed? [y/N] "
    );
    let empty = RestorePlan { restored: vec![], skipped: vec![] };
    assert_eq!(render_prompt(&empty, 90, "L"), "Restore to 1 minute ago (L)?\n\n\nProceed? [y/N] ");
}

#[test]
fn only_y_confirms() {
    assert!(confirm_restore("y\n").is_ok());
    assert!(confirm_restore("  Y ").is_ok());
    assert!(confirm_restore("yes").is_err());
    match confirm_restore("\n") {
        Err(UnfError::InvalidArgument(m)) => assert_eq!(m, "Restore cancelled."),
        other => panic!("unexpected: {:?}", other),
    }
}

#[test]
fn report_lines_after_restore() {
    let lines = render_restored(&strings(&["a.rs"]), &strings(&["new.rs"]), "L", false);
    assert_eq!(
        lines,
        strings(&[
            "    Restored  a.rs (from L)",
            "     Skipped  new.rs  (created after target time, still on disk)",
        ])
    );
}

#[test]
fn json_report_carries_reason_and_time() {
    let out = restore_output(0, &strings(&["a.rs"]), &strings(&["n.rs"]), true);
    assert_eq!(out.target_time, "1970-01-01T00:00:00+00:00");
    assert_eq!(out.restored, strings(&["a.rs"]));
    assert_eq!(out.skipped.len(), 1);
    assert_eq!(out.skipped[0].file, "n.rs");
    assert_eq!(out.skipped[0].reason, SKIP_REASON);
    assert!(out.dry_run);
}

fn history() -> Vec<Snapshot> {
    vec![
        snap(4, "a.rs", EventType::Modify, BASE + 60 * MINUTE),
        snap(1, "a.rs", EventType::Create, BASE),
        snap(5, "b.rs", EventType::Modify, BASE + 61 * MINUTE),
        snap(2, "a.rs", EventType::Modify, BASE + MINUTE),
        snap(3, "b.rs", EventType::Create, BASE + 2 * MINUTE),
    ]
}

#[test]
fn session_zero_is_the_latest_session() {
    assert_eq!(session_restore_start(history(), 0).unwrap(), BASE + 60 * MINUTE);
}

#[test]
fn numbered_sessions_count_from_the_oldest() {
    assert_eq!(session_restore_start(history(), 1).unwrap(), BASE);
    assert_eq!(session_restore_start(history(), 2).unwrap(), BASE + 60 * MINUTE);
}

#[test]
fn missing_sessions_are_invalid_arguments() {
    match session_restore_start(history(), 3) {
        Err(UnfError::InvalidArgument(m)) => {
            assert_eq!(m, "Session 3 not found. Available sessions: 1..2")
        }
        other => panic!("unexpected: {:?}", other),
    }
    match session_restore_start(vec![], 0) {
        Err(UnfError::InvalidArgument(m)) => assert_eq!(m, "No sessions detected."),
        other => panic!("unexpected: {:?}", other),
    }
}
