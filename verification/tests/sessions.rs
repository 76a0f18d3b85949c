use chrono::{DateTime, TimeZone, Utc};
use unfudged::session::{
    compute_gap_threshold_ms, detect_sessions, render_sessions_human, resolve_session,
    session_lines_at, Session, SessionsOutput,
};
use unfudged::types::{ContentHash, EventType, Snapshot, SnapshotId};

const SECOND: i64 = 1_000_000_000;
const MINUTE: i64 = 60 * SECOND;
const HOUR: i64 = 60 * MINUTE;

fn at(y: i32, mo: u32, d: u32, h: u32, mi: u32, s: u32) -> i64 {
    let t: DateTime<Utc> = Utc.with_ymd_and_hms(y, mo, d, h, mi, s).unwrap();
    t.timestamp_nanos_opt().unwrap()
}

fn make_snapshot(ts: i64, file: &str) -> Snapshot {
    Snapshot {
        id: SnapshotId(0),
        file_path: file.to_string(),
        content_hash: ContentHash("abc".to_string()),
        size_bytes: 100,
        timestamp: ts,
        event_type: EventType::Modify,
        line_count: 10,
        lines_added: 5,
        lines_removed: 2,
    }
}

#[test]
fn empty_input_returns_empty() {
    let sessions = detect_sessions(&[]);
    assert_eq!(sessions, vec![]);
}

#[test]
fn single_snapshot_returns_one_session() {
    let ts = at(2025, 1, 15, 12, 0, 0);
    let snap = make_snapshot(ts, "test.rs");
    let sessions = detect_sessions(&[snap]);
    assert_eq!(sessions.len(), 1);
    assert_eq!(sessions[0].number, 1);
    assert_eq!(sessions[0].start, ts);
    assert_eq!(sessions[0].end, ts);
    assert_eq!(sessions[0].edit_count, 1);
    assert_eq!(sessions[0].files, vec!["test.rs"]);
}

#[test]
fn continuous_burst_is_one_session() {
    let base = at(2025, 1, 15, 12, 0, 0);
    let mut snapshots = vec![];
    for i in 0..10 {
        snapshots.push(make_snapshot(base + i * 30 * SECOND, &format!("file{}.rs", i)));
    }
    let sessions = detect_sessions(&snapshots);
    assert_eq!(sessions.len(), 1);
    assert_eq!(sessions[0].number, 1);
    assert_eq!(sessions[0].edit_count, 10);
    assert_eq!(sessions[0].start, base);
    assert_eq!(sessions[0].end, base + 9 * 30 * SECOND);
}

#[test]
fn gap_splits_into_two_sessions() {
    let base = at(2025, 1, 15, 12, 0, 0);
    let mut snapshots = vec![];
    for i in 0..5 {
        snapshots.push(make_snapshot(base + i * 30 * SECOND, "file1.rs"));
    }
    let gap_time = base + 42 * MINUTE;
    for i in 0..5 {
        snapshots.push(make_snapshot(gap_time + i * 30 * SECOND, "file2.rs"));
    }
    let sessions = detect_sessions(&snapshots);
    assert_eq!(sessions.len(), 2);
    assert_eq!(sessions[0].number, 1);
    assert_eq!(sessions[0].edit_count, 5);
    assert_eq!(sessions[0].files, vec!["file1.rs"]);
    assert_eq!(sessions[1].number, 2);
    assert_eq!(sessions[1].edit_count, 5);
    assert_eq!(sessions[1].files, vec!["file2.rs"]);
}

#[test]
fn gap_below_threshold_stays_one_session() {
    let base = at(2025, 1, 15, 12, 0, 0);
    let mut snapshots = vec![];
    for i in 0..5 {
        snapshots.push(make_snapshot(base + i * 30 * SECOND, "file1.rs"));
    }
    let gap_time = base + 4 * MINUTE;
    for i in 0..5 {
        snapshots.push(make_snapshot(gap_time + i * 30 * SECOND, "file2.rs"));
    }
    let sessions = detect_sessions(&snapshots);
    assert_eq!(sessions.len(), 1, "Should be one session since gap is below threshold");
    assert_eq!(sessions[0].edit_count, 10);
}

#[test]
fn threshold_scales_with_span() {
    let one_hour_ms = 60 * 60 * 1000;
    assert_eq!(compute_gap_threshold_ms(one_hour_ms), 5 * 60 * 1000);
    let twenty_four_hours_ms = 24 * 60 * 60 * 1000;
    let threshold_24h = compute_gap_threshold_ms(twenty_four_hours_ms);
    assert!(threshold_24h > 5 * 60 * 1000);
    assert!(threshold_24h < 30 * 60 * 1000);
    let seventy_two_hours_ms = 72 * 60 * 60 * 1000;
    assert_eq!(compute_gap_threshold_ms(seventy_two_hours_ms), 30 * 60 * 1000);
}

#[test]
fn sessions_numbered_ascending() {
    let base = at(2025, 1, 15, 12, 0, 0);
    let mut snapshots = vec![];
    for session_idx in 0..3i64 {
        let session_start = base + session_idx * 6 * HOUR;
        for i in 0..2 {
            snapshots.push(make_snapshot(
                session_start + i * 30 * SECOND,
                &format!("file{}.rs", session_idx),
            ));
        }
    }
    let sessions = detect_sessions(&snapshots);
    assert_eq!(sessions.len(), 3);
    assert_eq!(sessions[0].number, 1);
    assert_eq!(sessions[1].number, 2);
    assert_eq!(sessions[2].number, 3);
}

#[test]
fn resolve_none_returns_latest() {
    let base = at(2025, 1, 15, 12, 0, 0);
    let mut snapshots = vec![];
    for session_idx in 0..2i64 {
        snapshots.push(make_snapshot(base + session_idx * 6 * HOUR, "file.rs"));
    }
    let sessions = detect_sessions(&snapshots);
    let resolved = resolve_session(&sessions, None);
    assert!(resolved.is_ok());
    assert_eq!(resolved.unwrap().number, 2);
}

#[test]
fn resolve_specific_number() {
    let base = at(2025, 1, 15, 12, 0, 0);
    let mut snapshots = vec![];
    for session_idx in 0..3i64 {
        snapshots.push(make_snapshot(base + session_idx * 6 * HOUR, "file.rs"));
    }
    let sessions = detect_sessions(&snapshots);
    let resolved1 = resolve_session(&sessions, Some(1));
    assert!(resolved1.is_ok());
    assert_eq!(resolved1.unwrap().number, 1);
    let resolved2 = resolve_session(&sessions, Some(2));
    assert!(resolved2.is_ok());
    assert_eq!(resolved2.unwrap().number, 2);
}

#[test]
fn resolve_out_of_range_errors() {
    let base = at(2025, 1, 15, 12, 0, 0);
    let snap = make_snapshot(base, "file.rs");
    let sessions = detect_sessions(&[snap]);
    let resolved = resolve_session(&sessions, Some(999));
    assert!(resolved.is_err());
    assert!(resolved.unwrap_err().message().contains("not found"));
}

#[test]
fn resolve_empty_errors() {
    let resolved = resolve_session(&[], None);
    assert!(resolved.is_err());
    assert!(resolved.unwrap_err().message().contains("No sessions"));
}

#[test]
fn files_are_deduplicated() {
    let base = at(2025, 1, 15, 12, 0, 0);
    let mut snapshots = vec![];
    for i in 0..5 {
        snapshots.push(make_snapshot(base + i * 30 * SECOND, "shared.rs"));
    }
    let sessions = detect_sessions(&snapshots);
    assert_eq!(sessions.len(), 1);
    assert_eq!(sessions[0].files.len(), 1, "File should be deduplicated");
    assert_eq!(sessions[0].files[0], "shared.rs");
}

#[test]
fn session_to_output() {
    let base = at(2025, 1, 15, 12, 0, 0);
    let session = Session {
        number: 1,
        start: base,
        end: base + 10 * MINUTE,
        edit_count: 5,
        files: vec!["a.rs".to_string(), "b.rs".to_string()],
    };
    let output = session.to_output();
    assert_eq!(output.number, 1);
    assert_eq!(output.edit_count, 5);
    assert_eq!(output.file_count, 2);
    assert_eq!(output.duration_seconds, 600);
    assert_eq!(output.files.len(), 2);
}

#[test]
fn sessions_output_aggregates_totals() {
    let base = at(2025, 1, 15, 12, 0, 0);
    let sessions = vec![
        Session {
            number: 1,
            start: base,
            end: base + 5 * MINUTE,
            edit_count: 3,
            files: vec!["a.rs".to_string(), "b.rs".to_string()],
        },
        Session {
            number: 2,
            start: base + HOUR,
            end: base + HOUR + 5 * MINUTE,
            edit_count: 2,
            files: vec!["b.rs".to_string(), "c.rs".to_string()],
        },
    ];
    let output = SessionsOutput::from_sessions(&sessions);
    assert_eq!(output.total_edits, 5);
    assert_eq!(output.total_files, 3);
    assert_eq!(output.sessions.len(), 2);
}

#[test]
fn edit_counts_add_up_to_the_history() {
    let base = at(2025, 3, 1, 9, 0, 0);
    let mut snapshots = vec![];
    for i in 0..7i64 {
        snapshots.push(make_snapshot(base + i * 20 * MINUTE, "x.rs"));
    }
    let sessions = detect_sessions(&snapshots);
    let total: usize = sessions.iter().map(|s| s.edit_count).sum();
    assert_eq!(total, snapshots.len());
    for pair in sessions.windows(2) {
        assert!(pair[1].start - pair[0].end > 5 * MINUTE);
    }
}

#[test]
fn session_listing_lines() {
    let base = at(2025, 1, 15, 12, 0, 0);
    let sessions = vec![
        Session { number: 1, start: base, end: base + 90 * MINUTE, edit_count: 4, files: vec!["a.rs".to_string()] },
        Session {
            number: 2,
            start: base + 5 * HOUR,
            end: base + 5 * HOUR + 45 * SECOND,
            edit_count: 2,
            files: vec!["a.rs".to_string(), "b.rs".to_string()],
        },
    ];
    let times = vec![("12:00".to_string(), "13:30".to_string()), ("17:00".to_string(), "17:00".to_string())];
    let lines = session_lines_at(&sessions, &times);
    assert_eq!(lines[0], "Session 1  12:00 - 13:30  (1h 30m, 4 edits, 1 file)");
    assert_eq!(lines[1], "Session 2  17:00 - 17:00  (45s, 2 edits, 2 files)  <-- latest");
    let shown = render_sessions_human(&sessions);
    assert_eq!(shown.len(), 2);
    assert!(shown[1].ends_with("<-- latest"));
    let single = render_sessions_human(&sessions[..1]);
    assert!(!single[0].contains("latest"));
}
