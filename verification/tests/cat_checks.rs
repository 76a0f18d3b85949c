use unfudged::cat::{cat_lookup, cat_output, check_cat_snapshot, CatLookup};
use unfudged::types::{ContentHash, EventType, Snapshot, SnapshotId, UnfError};

fn snap(id: i64, path: &str, event: EventType, ts: i64) -> Snapshot {
    Snapshot {
        id: SnapshotId(id),
        file_path: path.to_string(),
        event_type: event,
        timestamp: ts,
        size_bytes: 9,
        content_hash: ContentHash("abc123".to_string()),
        line_count: 1,
        lines_added: 1,
        lines_removed: 0,
    }
}

#[test]
fn snapshot_id_wins_over_time() {
    assert!(matches!(cat_lookup(Some("5m"), Some(7)), Ok(CatLookup::BySnapshot(7))));
    match cat_lookup(Some("5m"), None) {
        Ok(CatLookup::AtTime(t)) => assert_eq!(t, "5m"),
        other => panic!("unexpected: {:?}", other),
    }
}

#[test]
fn lookup_needs_a_time_or_an_id() {
    match cat_lookup(None, None) {
        Err(UnfError::InvalidArgument(m)) => assert_eq!(m, "Either --at or --snapshot is required."),
        other => panic!("unexpected: {:?}", other),
    }
}

#[test]
fn nothing_found_by_id_or_time() {
    match check_cat_snapshot(None, Some(9999), "a.txt") {
        Err(UnfError::NoResults(m)) => assert_eq!(m, "Snapshot 9999 not found."),
        other => panic!("unexpected: {:?}", other),
    }
    match check_cat_snapshot(None, None, "a.txt") {
        Err(UnfError::NoResults(m)) => assert_eq!(m, "No history for \"a.txt\"."),
        other => panic!("unexpected: {:?}", other),
    }
}

#[test]
fn snapshot_of_another_file_is_refused() {
    let s = snap(3, "file1.txt", EventType::Create, 0);
    match check_cat_snapshot(Some(s), Some(3), "file2.txt") {
        Err(UnfError::InvalidArgument(m)) => {
            assert_eq!(m, "Snapshot 3 is for \"file1.txt\", not \"file2.txt\".")
        }
        other => panic!("unexpected: {:?}", other),
    }
}

#[test]
fn deleted_version_cannot_be_printed() {
    let s = snap(4, "deleted.txt", EventType::Delete, 0);
    match check_cat_snapshot(Some(s), None, "deleted.txt") {
        Err(UnfError::NoResults(m)) => {
            assert_eq!(m, "\"deleted.txt\" was deleted at 1970-01-01T00:00:00+00:00.")
        }
        other => panic!("unexpected: {:?}", other),
    }
}

#[test]
fn live_version_passes() {
    let s = snap(5, "a.txt", EventType::Modify, 0);
    let got = check_cat_snapshot(Some(s), Some(5), "a.txt").unwrap();
    assert_eq!(got.id, SnapshotId(5));
}

#[test]
fn json_of_valid_text_has_no_encoding() {
    let s = snap(6, "a.txt", EventType::Create, 0);
    let out = cat_output(&s, b"version 1");
    assert_eq!(out.file, "a.txt");
    assert_eq!(out.snapshot_id, 6);
    assert_eq!(out.timestamp, "1970-01-01T00:00:00+00:00");
    assert_eq!(out.hash, "abc123");
    assert_eq!(out.bytes, 9);
    assert_eq!(out.content, "version 1");
    assert!(out.encoding.is_none());
}

#[test]
fn json_of_invalid_text_is_lossy_and_marked() {
    let s = snap(7, "b.bin", EventType::Create, 0);
    let out = cat_output(&s, &[0x61, 0xFF, 0x62]);
    assert_eq!(out.content, "a\u{fffd}b");
    assert_eq!(out.encoding.as_deref(), Some("utf8_lossy"));
}
