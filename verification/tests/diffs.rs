use chrono::Utc;
use unfudged::diff::{compute_diff_stats, compute_state_diff, hunks_between, FileChange};
use unfudged::types::{ContentHash, EventType, Snapshot, SnapshotId};

fn snapshot(id: i64, path: &str, hash: &str, size: u64, event: EventType) -> Snapshot {
    Snapshot {
        id: SnapshotId(id),
        file_path: path.to_string(),
        content_hash: ContentHash(hash.to_string()),
        size_bytes: size,
        timestamp: Utc::now().timestamp_nanos_opt().unwrap(),
        event_type: event,
        line_count: 0,
        lines_added: 0,
        lines_removed: 0,
    }
}

#[test]
fn compute_state_diff_detects_created_file() {
    let from_state: Vec<Snapshot> = vec![];
    let to_state = vec![snapshot(1, "new.txt", "abc", 10, EventType::Create)];
    let changes = compute_state_diff(&from_state, &to_state);
    assert_eq!(changes.len(), 1);
    assert_eq!(changes[0].0, "new.txt");
    assert_eq!(changes[0].1, FileChange::Created);
}

#[test]
fn compute_state_diff_detects_deleted_file() {
    let from_state = vec![snapshot(1, "old.txt", "abc", 10, EventType::Create)];
    let to_state = vec![snapshot(2, "old.txt", "000", 0, EventType::Delete)];
    let changes = compute_state_diff(&from_state, &to_state);
    assert_eq!(changes.len(), 1);
    assert_eq!(changes[0].0, "old.txt");
    assert_eq!(changes[0].1, FileChange::Deleted);
}

#[test]
fn compute_state_diff_detects_modified_file() {
    let from_state = vec![snapshot(1, "file.txt", "hash1", 10, EventType::Create)];
    let to_state = vec![snapshot(2, "file.txt", "hash2", 20, EventType::Modify)];
    let changes = compute_state_diff(&from_state, &to_state);
    assert_eq!(changes.len(), 1);
    assert_eq!(changes[0].0, "file.txt");
    assert_eq!(changes[0].1, FileChange::Modified);
}

#[test]
fn compute_state_diff_no_changes() {
    let from_state = vec![snapshot(1, "file.txt", "same", 10, EventType::Create)];
    let to_state = vec![snapshot(2, "file.txt", "same", 10, EventType::Modify)];
    let changes = compute_state_diff(&from_state, &to_state);
    assert_eq!(changes.len(), 0);
}

#[test]
fn compute_state_diff_lists_paths_in_order() {
    let from_state = vec![
        snapshot(1, "b.txt", "1", 1, EventType::Create),
        snapshot(2, "a.txt", "2", 1, EventType::Create),
    ];
    let to_state = vec![
        snapshot(3, "c.txt", "3", 1, EventType::Create),
        snapshot(4, "a.txt", "9", 1, EventType::Modify),
    ];
    let changes = compute_state_diff(&from_state, &to_state);
    let paths: Vec<&str> = changes.iter().map(|c| c.0.as_str()).collect();
    assert_eq!(paths, vec!["a.txt", "b.txt", "c.txt"]);
    assert_eq!(changes[1].1, FileChange::Deleted);
}

#[test]
fn generate_hunks_basic() {
    let hunks = hunks_between("line1\nline2\nline3\n", "line1\nmodified\nline3\n", 3);
    assert_eq!(hunks.len(), 1);
    assert_eq!(hunks[0].old_start, 1);
    assert_eq!(hunks[0].new_start, 1);
    assert!(!hunks[0].lines.is_empty());
    let has_line_nums = hunks[0].lines.iter().any(|l| l.old_num.is_some() || l.new_num.is_some());
    assert!(has_line_nums);
}

#[test]
fn generate_hunks_with_context() {
    let hunks = hunks_between("alpha\nbravo\ncharlie\ndelta\necho\n", "alpha\nBRAVO\ncharlie\nDELTA\necho\n", 3);
    assert_eq!(hunks.len(), 1);
    assert_eq!(hunks[0].old_start, 1);
    assert_eq!(hunks[0].old_count, 5);
    assert_eq!(hunks[0].new_start, 1);
    assert_eq!(hunks[0].new_count, 5);
    let ops: Vec<&str> = hunks[0].lines.iter().map(|l| l.op.as_str()).collect();
    assert!(ops.contains(&"equal"));
    assert!(ops.contains(&"delete"));
    assert!(ops.contains(&"insert"));
    for line in &hunks[0].lines {
        match line.op.as_str() {
            "equal" => {
                assert!(line.old_num.is_some());
                assert!(line.new_num.is_some());
            }
            "delete" => {
                assert!(line.old_num.is_some());
                assert!(line.new_num.is_none());
            }
            "insert" => {
                assert!(line.old_num.is_none());
                assert!(line.new_num.is_some());
            }
            _ => panic!("unexpected op: {}", line.op),
        }
    }
}

#[test]
fn generate_hunks_only_insertions() {
    let hunks = hunks_between("", "new1\nnew2\nnew3\n", 3);
    assert_eq!(hunks.len(), 1);
    assert_eq!(hunks[0].old_count, 0);
    assert_eq!(hunks[0].new_count, 3);
    for line in &hunks[0].lines {
        assert_eq!(line.op, "insert");
        assert!(line.old_num.is_none());
        assert!(line.new_num.is_some());
    }
}

#[test]
fn generate_hunks_only_deletions() {
    let hunks = hunks_between("old1\nold2\nold3\n", "", 3);
    assert_eq!(hunks.len(), 1);
    assert_eq!(hunks[0].old_count, 3);
    assert_eq!(hunks[0].new_count, 0);
    for line in &hunks[0].lines {
        assert_eq!(line.op, "delete");
        assert!(line.old_num.is_some());
        assert!(line.new_num.is_none());
    }
}

#[test]
fn generate_hunks_no_changes() {
    let hunks = hunks_between("same\nlines\n", "same\nlines\n", 3);
    assert_eq!(hunks.len(), 0);
}

#[test]
fn generate_hunks_line_numbers_sequential() {
    let hunks = hunks_between("a\nb\nc\nd\ne\n", "a\nB\nc\nD\ne\nf\n", 3);
    assert_eq!(hunks.len(), 1);
    let mut last_old = 0u32;
    let mut last_new = 0u32;
    for line in &hunks[0].lines {
        if let Some(old_num) = line.old_num {
            assert!(old_num > last_old);
            last_old = old_num;
        }
        if let Some(new_num) = line.new_num {
            assert!(new_num > last_new);
            last_new = new_num;
        }
    }
}

#[test]
fn diff_stats_identical_content() {
    let content = b"line1\nline2\nline3\n";
    let stats = compute_diff_stats(content, content);
    assert_eq!(stats.lines_added, 0);
    assert_eq!(stats.lines_removed, 0);
}

#[test]
fn diff_stats_pure_additions() {
    let stats = compute_diff_stats(b"", b"line1\nline2\n");
    assert_eq!(stats.lines_added, 2);
    assert_eq!(stats.lines_removed, 0);
}

#[test]
fn diff_stats_pure_deletions() {
    let stats = compute_diff_stats(b"line1\nline2\n", b"");
    assert_eq!(stats.lines_added, 0);
    assert_eq!(stats.lines_removed, 2);
}

#[test]
fn diff_stats_mixed_changes() {
    let stats = compute_diff_stats(b"line1\nline2\nline3\n", b"line1\nmodified\nline4\n");
    assert_eq!(stats.lines_added, 2);
    assert_eq!(stats.lines_removed, 2);
}

#[test]
fn diff_stats_empty_inputs() {
    let stats = compute_diff_stats(b"", b"");
    assert_eq!(stats.lines_added, 0);
    assert_eq!(stats.lines_removed, 0);
}
