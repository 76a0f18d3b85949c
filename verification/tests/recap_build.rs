use chrono::Utc;
use unfudged::recap::{
    build_recap_output, build_session_recap, compute_file_edits, infer_since_time, FileActivity,
    GitCommit, GitInfo,
};
use unfudged::session::Session;
use unfudged::types::{ContentHash, EventType, Snapshot, SnapshotId};

const SECOND: i64 = 1_000_000_000;
const MINUTE: i64 = 60 * SECOND;
const HOUR: i64 = 60 * MINUTE;

fn now() -> i64 {
    Utc::now().timestamp_nanos_opt().unwrap()
}

#[allow(clippy::too_many_arguments)]
fn snap(id: i64, path: &str, event: EventType, ts: i64, size: u64, hash: &str, lines: u64, added: u64, removed: u64) -> Snapshot {
    Snapshot {
        id: SnapshotId(id),
        file_path: path.to_string(),
        event_type: event,
        timestamp: ts,
        size_bytes: size,
        content_hash: ContentHash(hash.to_string()),
        line_count: lines,
        lines_added: added,
        lines_removed: removed,
    }
}

#[test]
fn test_compute_file_edits_counts_correctly() {
    let now = now();
    let snapshots = vec![
        snap(1, "file1.rs", EventType::Create, now, 100, "abc123", 10, 10, 0),
        snap(2, "file1.rs", EventType::Modify, now + 30 * SECOND, 110, "def456", 15, 5, 2),
        snap(3, "file2.rs", EventType::Create, now + 60 * SECOND, 50, "ghi789", 8, 8, 0),
    ];
    let file_edits = compute_file_edits(&snapshots, now, now + 10 * MINUTE);
    assert_eq!(file_edits.len(), 2);
    assert_eq!(file_edits[0].path, "file1.rs");
    assert_eq!(file_edits[0].edits, 2);
    assert_eq!(file_edits[1].path, "file2.rs");
    assert_eq!(file_edits[1].edits, 1);
}

#[test]
fn test_compute_file_edits_sums_lines() {
    let now = now();
    let snapshots = vec![
        snap(1, "file1.rs", EventType::Create, now, 100, "abc123", 10, 10, 0),
        snap(2, "file1.rs", EventType::Modify, now + 30 * SECOND, 110, "def456", 15, 5, 2),
    ];
    let file_edits = compute_file_edits(&snapshots, now, now + 10 * MINUTE);
    assert_eq!(file_edits.len(), 1);
    assert_eq!(file_edits[0].lines_added, 15);
    assert_eq!(file_edits[0].lines_removed, 2);
}

#[test]
fn test_compute_file_edits_sorts_by_edit_count() {
    let now = now();
    let snapshots = vec![
        snap(1, "file1.rs", EventType::Create, now, 100, "abc123", 10, 10, 0),
        snap(2, "file2.rs", EventType::Create, now + 30 * SECOND, 50, "def456", 8, 8, 0),
        snap(3, "file2.rs", EventType::Modify, now + 60 * SECOND, 55, "ghi789", 10, 2, 1),
        snap(4, "file2.rs", EventType::Modify, now + 90 * SECOND, 58, "jkl012", 13, 3, 0),
    ];
    let file_edits = compute_file_edits(&snapshots, now, now + 10 * MINUTE);
    assert_eq!(file_edits.len(), 2);
    assert_eq!(file_edits[0].path, "file2.rs");
    assert_eq!(file_edits[0].edits, 3);
    assert_eq!(file_edits[1].path, "file1.rs");
    assert_eq!(file_edits[1].edits, 1);
}

#[test]
fn compute_file_edits_ignores_snapshots_outside_the_session() {
    let now = now();
    let snapshots = vec![
        snap(1, "early.rs", EventType::Create, now - SECOND, 1, "a", 1, 1, 0),
        snap(2, "in.rs", EventType::Create, now, 1, "b", 1, 1, 0),
        snap(3, "late.rs", EventType::Create, now + 11 * MINUTE, 1, "c", 1, 1, 0),
    ];
    let file_edits = compute_file_edits(&snapshots, now, now + 10 * MINUTE);
    assert_eq!(file_edits.len(), 1);
    assert_eq!(file_edits[0].path, "in.rs");
}

#[test]
fn test_infer_since_time_with_sessions() {
    let now = now();
    let session_start = now - 2 * HOUR;
    let session = Session {
        number: 1,
        start: session_start,
        end: now - HOUR,
        edit_count: 10,
        files: vec![],
    };
    let inferred = infer_since_time(&[session], now);
    assert_eq!(inferred, session_start - 5 * MINUTE);
}

#[test]
fn test_infer_since_time_without_sessions() {
    let now = now();
    let inferred = infer_since_time(&[], now);
    assert_eq!(inferred, now - 24 * HOUR);
}

#[test]
fn test_build_session_recap() {
    let now = now();
    let session = Session {
        number: 1,
        start: now,
        end: now + 30 * MINUTE,
        edit_count: 5,
        files: vec!["file1.rs".to_string(), "file2.rs".to_string()],
    };
    let file_edits = vec![
        FileActivity {
            path: "file1.rs".to_string(),
            edits: 3,
            last_edit: "2026-01-01T00:25:00+00:00".to_string(),
            lines_added: 10,
            lines_removed: 2,
        },
        FileActivity {
            path: "file2.rs".to_string(),
            edits: 2,
            last_edit: "2026-01-01T00:20:00+00:00".to_string(),
            lines_added: 5,
            lines_removed: 1,
        },
    ];
    let recap = build_session_recap(&session, file_edits);
    assert_eq!(recap.number, 1);
    assert_eq!(recap.duration_seconds, 30 * 60);
    assert_eq!(recap.edit_count, 5);
    assert_eq!(recap.file_count, 2);
    assert_eq!(recap.files.len(), 2);
}

#[test]
fn test_build_recap_output_with_git_info() {
    let git_info = GitInfo {
        branch: "main".to_string(),
        uncommitted_files: vec!["file.rs".to_string()],
        recent_commits: vec![GitCommit { hash: "abc1234".to_string(), message: "Fix bug".to_string() }],
    };
    let recap = build_recap_output("/path/to/project", vec![], Some(git_info.clone()), None);
    assert_eq!(recap.project, "/path/to/project");
    assert!(recap.git.is_some());
    assert_eq!(recap.git.unwrap().branch, "main");
}

#[test]
fn test_build_recap_output_without_git_info() {
    let recap = build_recap_output("/path/to/project", vec![], None, None);
    assert_eq!(recap.project, "/path/to/project");
    assert!(recap.git.is_none());
}
