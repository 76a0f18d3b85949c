use unfudged::diff::{compute_diff_stats, diff_stats_checked, snapshot_for_diff};
use unfudged::grouping::FileGroup;
use unfudged::history::{
    check_merged, check_open_projects, merge_limit, merge_step, MergeStep, HUMAN_MERGE_CAP,
};
use unfudged::listing::{group_lines, spans_multiple_days};
use unfudged::recap::{output_global_recap_human, output_recap_human, GlobalRecapOutput, RecapOutput, SessionRecap};
use unfudged::types::{ContentHash, EventType, OutputFormat, Snapshot, SnapshotId, UnfError};

const DAY: i64 = 86_400_000_000_000;
const BASE: i64 = 1_700_000_000_000_000_000;

fn snap(id: i64, path: &str, ts: i64) -> Snapshot {
    Snapshot {
        id: SnapshotId(id),
        file_path: path.to_string(),
        event_type: EventType::Modify,
        timestamp: ts,
        size_bytes: 10,
        content_hash: ContentHash(format!("h{}", id)),
        line_count: 1,
        lines_added: 1,
        lines_removed: 0,
    }
}

fn session(k: usize) -> SessionRecap {
    SessionRecap {
        number: k,
        start: "x".to_string(),
        end: "x".to_string(),
        duration_seconds: 600,
        edit_count: 3,
        file_count: 1,
        files: vec![],
    }
}

#[test]
fn unparseable_session_times_show_question_marks() {
    let recap = RecapOutput {
        project: "/p".to_string(),
        sessions: vec![session(1), session(2)],
        git: None,
        latest_activity: None,
    };
    assert_eq!(
        output_recap_human(&recap),
        "-- /p --\n\nSession 1  ??:?? - ??:??  (10m, 3 edits, 1 files)\n\nSession 2  ??:?? - ??:??  (10m, 3 edits, 1 files) <-- latest\n\n"
    );
}

#[test]
fn global_recap_shows_question_marks_too() {
    let recap = GlobalRecapOutput {
        projects: vec![RecapOutput {
            project: "/p".to_string(),
            sessions: vec![session(1)],
            git: None,
            latest_activity: None,
        }],
        total_sessions: 1,
        total_edits: 3,
    };
    assert!(output_global_recap_human(&recap).contains("??:?? - ??:??"));
}

#[test]
fn missing_snapshot_for_diff_is_invalid() {
    match snapshot_for_diff(Ok(None), 42) {
        Err(UnfError::InvalidArgument(m)) => assert_eq!(m, "Snapshot 42 not found"),
        other => panic!("unexpected: {:?}", other),
    }
    match snapshot_for_diff(Err("disk I/O error".to_string()), 42) {
        Err(UnfError::InvalidArgument(m)) => assert_eq!(m, "Failed to load snapshot: disk I/O error"),
        other => panic!("unexpected: {:?}", other),
    }
    let s = snapshot_for_diff(Ok(Some(snap(42, "a.rs", BASE))), 42).unwrap();
    assert_eq!(s.id, SnapshotId(42));
}

#[test]
fn merge_collects_the_json_limit_or_the_human_cap() {
    assert_eq!(merge_limit(OutputFormat::Json, 25), 25);
    assert_eq!(merge_limit(OutputFormat::Human, 25), HUMAN_MERGE_CAP);
    assert_eq!(HUMAN_MERGE_CAP, 10000);
}

#[test]
fn merge_takes_the_newest_head_until_limit_or_exhaustion() {
    let heads = [Some((5, 1)), None, Some((7, 2)), Some((7, 1))];
    assert_eq!(merge_step(0, 10, &heads), MergeStep::Take(2));
    assert_eq!(merge_step(10, 10, &heads), MergeStep::Stop);
    assert_eq!(merge_step(0, 10, &[None, None]), MergeStep::Stop);
}

#[test]
fn empty_merges_are_no_results() {
    assert!(check_open_projects(2).is_ok());
    match check_open_projects(0) {
        Err(UnfError::NoResults(m)) => assert_eq!(m, "No accessible projects found."),
        other => panic!("unexpected: {:?}", other),
    }
    assert!(check_merged(1).is_ok());
    match check_merged(0) {
        Err(UnfError::NoResults(m)) => assert_eq!(m, "No changes found across projects."),
        other => panic!("unexpected: {:?}", other),
    }
}

#[test]
fn checked_stats_match_plain_stats() {
    let d = diff_stats_checked(b"a\nb\n", b"a\nc\nd\n").unwrap();
    let p = compute_diff_stats(b"a\nb\n", b"a\nc\nd\n");
    assert_eq!(d, p);
    assert_eq!(d.lines_added, 2);
    assert_eq!(d.lines_removed, 1);
}

#[test]
fn groups_far_apart_span_days_and_show_dates() {
    let g = FileGroup {
        path: "a.rs".to_string(),
        entries: vec![snap(1, "a.rs", BASE), snap(2, "a.rs", BASE + 10 * DAY)],
    };
    assert!(spans_multiple_days(&g));
    let lines = group_lines(&g, false);
    assert_eq!(lines.len(), 3);
    assert!(lines[0].starts_with("a.rs  (2 changes, "));
    let one = FileGroup { path: "b.rs".to_string(), entries: vec![snap(3, "b.rs", BASE), snap(4, "b.rs", BASE)] };
    assert!(!spans_multiple_days(&one));
    assert_eq!(group_lines(&one, false)[0], "b.rs  (2 changes)");
}
