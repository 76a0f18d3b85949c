use chrono::{DateTime, TimeZone, Utc};
use unfudged::grouping::group_by_file;
use unfudged::history::{
    check_json_only_flags, compute_density_buckets, cursor_from_page, format_cursor, parse_cursor, DensityParams,
    GlobalDensityParams, GlobalLogParams, LogParams,
};
use unfudged::listing::format_snapshot_line;
use unfudged::types::{ContentHash, EventType, HistoryCursor, OutputFormat, Snapshot, SnapshotId};

fn nanos(t: DateTime<Utc>) -> i64 {
    t.timestamp_nanos_opt().unwrap()
}

#[allow(clippy::too_many_arguments)]
fn snapshot(
    id: i64,
    path: &str,
    hash: &str,
    size: u64,
    timestamp: i64,
    event: EventType,
    line_count: u64,
    added: u64,
    removed: u64,
) -> Snapshot {
    Snapshot {
        id: SnapshotId(id),
        file_path: path.to_string(),
        content_hash: ContentHash(hash.to_string()),
        size_bytes: size,
        timestamp,
        event_type: event,
        line_count,
        lines_added: added,
        lines_removed: removed,
    }
}

fn check_cursor_from_page_empty() {
    let page: Vec<Snapshot> = vec![];
    assert!(cursor_from_page(&page).is_none());
}

fn check_cursor_from_page_single() {
    let snap = snapshot(42, "test.txt", "abc123", 100, nanos(Utc::now()), EventType::Create, 0, 0, 0);
    let page = vec![snap.clone()];
    let cursor = cursor_from_page(&page).unwrap();
    assert_eq!(cursor.id, snap.id);
    assert_eq!(cursor.timestamp, snap.timestamp);
}

fn check_cursor_from_page_multiple() {
    let now = nanos(Utc::now());
    let snap1 = snapshot(1, "test.txt", "abc", 100, now, EventType::Create, 0, 0, 0);
    let snap2 = snapshot(2, "test.txt", "def", 200, now, EventType::Modify, 0, 0, 0);
    let page = vec![snap1, snap2.clone()];
    let cursor = cursor_from_page(&page).unwrap();
    assert_eq!(cursor.id, snap2.id);
    assert_eq!(cursor.timestamp, snap2.timestamp);
}

fn check_format_snapshot_line_created_no_color() {
    let snap = snapshot(1, "src/test.rs", "abc123", 1234, nanos(Utc::now()), EventType::Create, 10, 10, 0);
    let line = format_snapshot_line(&snap, false);
    assert!(line.contains("created"));
    assert!(line.contains("src/test.rs"));
    assert!(line.contains("1.2 KB"));
    assert!(line.contains("+10/-0"));
    assert!(!line.contains("\x1b["));
}

fn check_format_snapshot_line_modified_no_color() {
    let snap = snapshot(1, "src/engine.rs", "def456", 2048, nanos(Utc::now()), EventType::Modify, 30, 5, 2);
    let line = format_snapshot_line(&snap, false);
    assert!(line.contains("modified"));
    assert!(line.contains("src/engine.rs"));
    assert!(line.contains("2.0 KB"));
    assert!(line.contains("+5/-2"));
}

fn check_format_snapshot_line_deleted_no_color() {
    let snap = snapshot(1, "src/old.rs", "ghi789", 500, nanos(Utc::now()), EventType::Delete, 20, 0, 20);
    let line = format_snapshot_line(&snap, false);
    assert!(line.contains("deleted"));
    assert!(line.contains("src/old.rs"));
    assert!(!line.contains("KB"));
    assert!(!line.contains("+"));
}

fn check_format_snapshot_line_pre_migration_no_stats() {
    let snap = snapshot(1, "src/legacy.rs", "oldstyle", 5000, nanos(Utc::now()), EventType::Create, 50, 0, 0);
    let line = format_snapshot_line(&snap, false);
    assert!(line.contains("created"));
    assert!(line.contains("src/legacy.rs"));
    assert!(line.contains("4.9 KB"));
    assert!(!line.contains("+"));
    assert!(!line.contains("-/-"));
}

fn check_group_by_file_empty() {
    let snapshots: Vec<Snapshot> = vec![];
    let groups = group_by_file(snapshots);
    assert!(groups.is_empty());
}

fn check_group_by_file_single_file_single_entry() {
    let now = nanos(Utc::now());
    let snap = snapshot(1, "test.txt", "abc", 100, now, EventType::Create, 0, 0, 0);
    let groups = group_by_file(vec![snap.clone()]);
    assert_eq!(groups.len(), 1);
    assert_eq!(groups[0].path, "test.txt");
    assert_eq!(groups[0].entries.len(), 1);
    assert_eq!(groups[0].entries[0], snap);
}

fn check_group_by_file_single_file_multiple_entries_chronological() {
    let base = nanos(Utc::now());
    let sec = 1_000_000_000i64;
    let snap1 = snapshot(1, "test.txt", "abc", 100, base, EventType::Create, 0, 0, 0);
    let snap2 = snapshot(2, "test.txt", "def", 200, base + 10 * sec, EventType::Modify, 0, 0, 0);
    let snap3 = snapshot(3, "test.txt", "ghi", 300, base + 5 * sec, EventType::Modify, 0, 0, 0);
    let groups = group_by_file(vec![snap2.clone(), snap1.clone(), snap3.clone()]);
    assert_eq!(groups.len(), 1);
    assert_eq!(groups[0].path, "test.txt");
    assert_eq!(groups[0].entries.len(), 3);
    assert_eq!(groups[0].entries[0], snap1);
    assert_eq!(groups[0].entries[1], snap3);
    assert_eq!(groups[0].entries[2], snap2);
}

fn check_group_by_file_multiple_files_newest_first() {
    let sec = 1_000_000_000i64;
    let t1 = nanos(Utc::now());
    let t2 = t1 + 100 * sec;
    let t3 = t1 + 50 * sec;
    let a = snapshot(1, "a.txt", "abc", 100, t1, EventType::Create, 0, 0, 0);
    let b = snapshot(2, "b.txt", "def", 200, t2, EventType::Create, 0, 0, 0);
    let c = snapshot(3, "c.txt", "ghi", 300, t3, EventType::Create, 0, 0, 0);
    let groups = group_by_file(vec![a, b.clone(), c.clone()]);
    assert_eq!(groups.len(), 3);
    assert_eq!(groups[0].path, "b.txt");
    assert_eq!(groups[0].entries[0], b);
    assert_eq!(groups[1].path, "c.txt");
    assert_eq!(groups[1].entries[0], c);
    assert_eq!(groups[2].path, "a.txt");
}

fn check_group_by_file_mixed_files_and_entries() {
    let sec = 1_000_000_000i64;
    let t1 = nanos(Utc::now());
    let t2 = t1 + 10 * sec;
    let t3 = t1 + 20 * sec;
    let t4 = t1 + 30 * sec;
    let snap1 = snapshot(1, "a.txt", "h1", 100, t1, EventType::Create, 0, 0, 0);
    let snap2 = snapshot(2, "b.txt", "h2", 200, t2, EventType::Create, 0, 0, 0);
    let snap3 = snapshot(3, "a.txt", "h3", 150, t3, EventType::Modify, 0, 0, 0);
    let snap4 = snapshot(4, "b.txt", "h4", 250, t4, EventType::Modify, 0, 0, 0);
    let groups = group_by_file(vec![snap1.clone(), snap2.clone(), snap3.clone(), snap4.clone()]);
    assert_eq!(groups.len(), 2);
    assert_eq!(groups[0].path, "b.txt");
    assert_eq!(groups[0].entries.len(), 2);
    assert_eq!(groups[0].entries[0], snap2);
    assert_eq!(groups[0].entries[1], snap4);
    assert_eq!(groups[1].path, "a.txt");
    assert_eq!(groups[1].entries.len(), 2);
    assert_eq!(groups[1].entries[0], snap1);
    assert_eq!(groups[1].entries[1], snap3);
}

fn check_density_empty_timestamps() {
    let from = nanos(Utc::now());
    let to = from + 3_600_000_000_000;
    let buckets = compute_density_buckets(&[], from, to, 10);
    assert!(buckets.is_empty());
}

fn check_density_zero_buckets() {
    let now = nanos(Utc::now());
    let buckets = compute_density_buckets(&[now], now, now, 0);
    assert!(buckets.is_empty());
}

fn check_density_single_timestamp_single_bucket() {
    let now = nanos(Utc::now());
    let buckets = compute_density_buckets(&[now], now, now, 1);
    assert_eq!(buckets.len(), 1);
    assert_eq!(buckets[0].count, 1);
}

fn check_density_even_distribution() {
    let base = nanos(Utc.with_ymd_and_hms(2026, 1, 1, 0, 0, 0).unwrap());
    let hour = 3_600_000_000_000i64;
    let timestamps: Vec<i64> = (0..4).map(|i| base + i * hour).collect();
    let buckets = compute_density_buckets(&timestamps, base, base + 3 * hour, 3);
    assert_eq!(buckets.len(), 3);
    assert_eq!(buckets[0].count, 1);
    assert_eq!(buckets[1].count, 1);
    assert_eq!(buckets[2].count, 2);
}

fn check_density_all_in_one_bucket() {
    let base = nanos(Utc.with_ymd_and_hms(2026, 1, 1, 0, 0, 0).unwrap());
    let timestamps = vec![base, base, base];
    let buckets = compute_density_buckets(&timestamps, base, base, 5);
    assert_eq!(buckets.len(), 5);
    assert_eq!(buckets[0].count, 3);
    for b in &buckets[1..] {
        assert_eq!(b.count, 0);
    }
}

fn check_parse_cursor_valid_utc() {
    let cursor = parse_cursor("2026-02-12T14:32:07+00:00:42").unwrap();
    assert_eq!(cursor.id, SnapshotId(42));
    let expected = DateTime::parse_from_rfc3339("2026-02-12T14:32:07+00:00")
        .unwrap()
        .with_timezone(&Utc);
    assert_eq!(cursor.timestamp, nanos(expected));
}

fn check_parse_cursor_valid_z() {
    let cursor = parse_cursor("2026-02-12T14:32:07Z:100").unwrap();
    assert_eq!(cursor.id, SnapshotId(100));
}

fn check_parse_cursor_valid_offset() {
    let cursor = parse_cursor("2026-02-12T14:32:07+05:30:7").unwrap();
    assert_eq!(cursor.id, SnapshotId(7));
}

fn check_parse_cursor_invalid_no_colon() {
    assert!(parse_cursor("invalid").is_err());
}

fn check_parse_cursor_invalid_bad_timestamp() {
    assert!(parse_cursor("not-a-date:42").is_err());
}

fn check_parse_cursor_invalid_bad_id() {
    assert!(parse_cursor("2026-02-12T14:32:07Z:abc").is_err());
}

fn check_format_cursor_roundtrip() {
    let cursor = HistoryCursor {
        timestamp: nanos(Utc.with_ymd_and_hms(2026, 2, 12, 14, 32, 7).unwrap()),
        id: SnapshotId(42),
    };
    let formatted = format_cursor(&cursor);
    let parsed = parse_cursor(&formatted).unwrap();
    assert_eq!(parsed.timestamp, cursor.timestamp);
    assert_eq!(parsed.id, cursor.id);
}

#[test]
fn tests_cursor_from_page_empty() {
    check_cursor_from_page_empty();
}

#[test]
fn log_cursor_from_page_empty() {
    check_cursor_from_page_empty();
}

#[test]
fn tests_cursor_from_page_single() {
    check_cursor_from_page_single();
}

#[test]
fn log_cursor_from_page_single() {
    check_cursor_from_page_single();
}

#[test]
fn tests_cursor_from_page_multiple() {
    check_cursor_from_page_multiple();
}

#[test]
fn log_cursor_from_page_multiple() {
    check_cursor_from_page_multiple();
}

#[test]
fn tests_format_snapshot_line_created_no_color() {
    check_format_snapshot_line_created_no_color();
}

#[test]
fn log_format_snapshot_line_created_no_color() {
    check_format_snapshot_line_created_no_color();
}

#[test]
fn tests_format_snapshot_line_modified_no_color() {
    check_format_snapshot_line_modified_no_color();
}

#[test]
fn log_format_snapshot_line_modified_no_color() {
    check_format_snapshot_line_modified_no_color();
}

#[test]
fn tests_format_snapshot_line_deleted_no_color() {
    check_format_snapshot_line_deleted_no_color();
}

#[test]
fn log_format_snapshot_line_deleted_no_color() {
    check_format_snapshot_line_deleted_no_color();
}

#[test]
fn tests_format_snapshot_line_pre_migration_no_stats() {
    check_format_snapshot_line_pre_migration_no_stats();
}

#[test]
fn log_format_snapshot_line_pre_migration_no_stats() {
    check_format_snapshot_line_pre_migration_no_stats();
}

#[test]
fn tests_group_by_file_empty() {
    check_group_by_file_empty();
}

#[test]
fn log_group_by_file_empty() {
    check_group_by_file_empty();
}

#[test]
fn tests_group_by_file_single_file_single_entry() {
    check_group_by_file_single_file_single_entry();
}

#[test]
fn log_group_by_file_single_file_single_entry() {
    check_group_by_file_single_file_single_entry();
}

#[test]
fn tests_group_by_file_single_file_multiple_entries_chronological() {
    check_group_by_file_single_file_multiple_entries_chronological();
}

#[test]
fn log_group_by_file_single_file_multiple_entries_chronological() {
    check_group_by_file_single_file_multiple_entries_chronological();
}

#[test]
fn tests_group_by_file_multiple_files_newest_first() {
    check_group_by_file_multiple_files_newest_first();
}

#[test]
fn log_group_by_file_multiple_files_newest_first() {
    check_group_by_file_multiple_files_newest_first();
}

#[test]
fn tests_group_by_file_mixed_files_and_entries() {
    check_group_by_file_mixed_files_and_entries();
}

#[test]
fn log_group_by_file_mixed_files_and_entries() {
    check_group_by_file_mixed_files_and_entries();
}

#[test]
fn tests_density_empty_timestamps() {
    check_density_empty_timestamps();
}

#[test]
fn log_density_empty_timestamps() {
    check_density_empty_timestamps();
}

#[test]
fn tests_density_zero_buckets() {
    check_density_zero_buckets();
}

#[test]
fn log_density_zero_buckets() {
    check_density_zero_buckets();
}

#[test]
fn tests_density_single_timestamp_single_bucket() {
    check_density_single_timestamp_single_bucket();
}

#[test]
fn log_density_single_timestamp_single_bucket() {
    check_density_single_timestamp_single_bucket();
}

#[test]
fn tests_density_even_distribution() {
    check_density_even_distribution();
}

#[test]
fn log_density_even_distribution() {
    check_density_even_distribution();
}

#[test]
fn tests_density_all_in_one_bucket() {
    check_density_all_in_one_bucket();
}

#[test]
fn log_density_all_in_one_bucket() {
    check_density_all_in_one_bucket();
}

#[test]
fn tests_parse_cursor_valid_utc() {
    check_parse_cursor_valid_utc();
}

#[test]
fn log_parse_cursor_valid_utc() {
    check_parse_cursor_valid_utc();
}

#[test]
fn tests_parse_cursor_valid_z() {
    check_parse_cursor_valid_z();
}

#[test]
fn log_parse_cursor_valid_z() {
    check_parse_cursor_valid_z();
}

#[test]
fn tests_parse_cursor_valid_offset() {
    check_parse_cursor_valid_offset();
}

#[test]
fn log_parse_cursor_valid_offset() {
    check_parse_cursor_valid_offset();
}

#[test]
fn tests_parse_cursor_invalid_no_colon() {
    check_parse_cursor_invalid_no_colon();
}

#[test]
fn log_parse_cursor_invalid_no_colon() {
    check_parse_cursor_invalid_no_colon();
}

#[test]
fn tests_parse_cursor_invalid_bad_timestamp() {
    check_parse_cursor_invalid_bad_timestamp();
}

#[test]
fn log_parse_cursor_invalid_bad_timestamp() {
    check_parse_cursor_invalid_bad_timestamp();
}

#[test]
fn tests_parse_cursor_invalid_bad_id() {
    check_parse_cursor_invalid_bad_id();
}

#[test]
fn log_parse_cursor_invalid_bad_id() {
    check_parse_cursor_invalid_bad_id();
}

#[test]
fn tests_format_cursor_roundtrip() {
    check_format_cursor_roundtrip();
}

#[test]
fn log_format_cursor_roundtrip() {
    check_format_cursor_roundtrip();
}

#[test]
fn log_params_struct_literal() {
    let params = LogParams {
        target: Some("test.txt".to_string()),
        since: Some("5m".to_string()),
        until: None,
        limit: 100,
        include_globs: vec!["*.rs".to_string()],
        exclude: vec!["*.bak".to_string()],
        ignore_case: true,
        grouped: false,
        format: OutputFormat::Json,
        density: false,
        num_buckets: 50,
        cursor_str: None,
    };
    assert_eq!(params.target, Some("test.txt".to_string()));
    assert_eq!(params.since, Some("5m".to_string()));
    assert_eq!(params.limit, 100);
    assert_eq!(params.include_globs, vec!["*.rs".to_string()]);
    assert_eq!(params.exclude, vec!["*.bak".to_string()]);
    assert!(params.ignore_case);
    assert!(!params.grouped);
    assert_eq!(params.format, OutputFormat::Json);
    assert!(!params.density);
    assert_eq!(params.num_buckets, 50);
    assert_eq!(params.cursor_str, None);
}

#[test]
fn log_params_default() {
    let params = LogParams::default();
    assert_eq!(params.target, None);
    assert_eq!(params.since, None);
    assert_eq!(params.limit, 1000);
    assert!(params.include_globs.is_empty());
    assert!(params.exclude.is_empty());
    assert!(!params.ignore_case);
    assert!(!params.grouped);
    assert_eq!(params.format, OutputFormat::Human);
    assert!(!params.density);
    assert_eq!(params.num_buckets, 100);
    assert_eq!(params.cursor_str, None);
}

#[test]
fn global_log_params_struct_literal() {
    let params = GlobalLogParams {
        include_project: vec!["/path/to/proj1".to_string()],
        exclude_project: vec!["/path/to/excluded".to_string()],
        since: Some("1h".to_string()),
        until: None,
        limit: 500,
        include_globs: vec!["*.py".to_string()],
        exclude: vec!["*.pyc".to_string()],
        ignore_case: false,
        grouped: true,
        format: OutputFormat::Human,
    };
    assert_eq!(params.include_project, vec!["/path/to/proj1".to_string()]);
    assert_eq!(params.exclude_project, vec!["/path/to/excluded".to_string()]);
    assert_eq!(params.since, Some("1h".to_string()));
    assert_eq!(params.limit, 500);
    assert_eq!(params.include_globs, vec!["*.py".to_string()]);
    assert_eq!(params.exclude, vec!["*.pyc".to_string()]);
    assert!(!params.ignore_case);
    assert!(params.grouped);
    assert_eq!(params.format, OutputFormat::Human);
}

#[test]
fn global_log_params_default() {
    let params = GlobalLogParams::default();
    assert!(params.include_project.is_empty());
    assert!(params.exclude_project.is_empty());
    assert_eq!(params.since, None);
    assert_eq!(params.limit, 1000);
    assert!(params.include_globs.is_empty());
    assert!(params.exclude.is_empty());
    assert!(!params.ignore_case);
    assert!(!params.grouped);
    assert_eq!(params.format, OutputFormat::Human);
}

#[test]
fn density_params_new() {
    let params = DensityParams::new(
        Some("2d".to_string()),
        vec!["*.txt".to_string()],
        vec!["*.tmp".to_string()],
        true,
        75,
    );
    assert_eq!(params.since, Some("2d".to_string()));
    assert_eq!(params.include_globs, vec!["*.txt".to_string()]);
    assert_eq!(params.exclude, vec!["*.tmp".to_string()]);
    assert!(params.ignore_case);
    assert_eq!(params.num_buckets, 75);
}

#[test]
fn density_params_default() {
    let params = DensityParams::default();
    assert_eq!(params.since, None);
    assert!(params.include_globs.is_empty());
    assert!(params.exclude.is_empty());
    assert!(!params.ignore_case);
    assert_eq!(params.num_buckets, 100);
}

#[test]
fn global_density_params_new() {
    let params = GlobalDensityParams::new(
        vec!["/proj1".to_string(), "/proj2".to_string()],
        vec!["/excluded".to_string()],
        Some("7d".to_string()),
        vec!["*.md".to_string()],
        vec!["*.swp".to_string()],
        false,
        200,
    );
    assert_eq!(params.include_project, vec!["/proj1".to_string(), "/proj2".to_string()]);
    assert_eq!(params.exclude_project, vec!["/excluded".to_string()]);
    assert_eq!(params.since, Some("7d".to_string()));
    assert_eq!(params.include_globs, vec!["*.md".to_string()]);
    assert_eq!(params.exclude, vec!["*.swp".to_string()]);
    assert!(!params.ignore_case);
    assert_eq!(params.num_buckets, 200);
}

#[test]
fn global_density_params_default() {
    let params = GlobalDensityParams::default();
    assert!(params.include_project.is_empty());
    assert!(params.exclude_project.is_empty());
    assert_eq!(params.since, None);
    assert!(params.include_globs.is_empty());
    assert!(params.exclude.is_empty());
    assert!(!params.ignore_case);
    assert_eq!(params.num_buckets, 100);
}

#[test]
fn log_params_clone() {
    let params = LogParams {
        target: Some("file.txt".to_string()),
        since: Some("1h".to_string()),
        until: None,
        limit: 123,
        include_globs: vec!["*.rs".to_string()],
        exclude: vec!["*.bak".to_string()],
        ignore_case: true,
        grouped: true,
        format: OutputFormat::Json,
        density: true,
        num_buckets: 42,
        cursor_str: Some("cursor:123".to_string()),
    };
    let cloned = params.clone();
    assert_eq!(params.target, cloned.target);
    assert_eq!(params.since, cloned.since);
    assert_eq!(params.limit, cloned.limit);
    assert_eq!(params.include_globs, cloned.include_globs);
    assert_eq!(params.exclude, cloned.exclude);
    assert_eq!(params.ignore_case, cloned.ignore_case);
    assert_eq!(params.grouped, cloned.grouped);
    assert_eq!(params.format, cloned.format);
    assert_eq!(params.density, cloned.density);
    assert_eq!(params.num_buckets, cloned.num_buckets);
    assert_eq!(params.cursor_str, cloned.cursor_str);
}

#[test]
fn json_only_flags_are_refused_in_human_output() {
    let mut params = LogParams::default();
    assert!(check_json_only_flags(&params).is_ok());
    params.cursor_str = Some("c".to_string());
    assert_eq!(check_json_only_flags(&params).unwrap_err().message(), "--cursor requires --json");
    params.density = true;
    assert_eq!(check_json_only_flags(&params).unwrap_err().message(), "--density requires --json");
    params.format = OutputFormat::Json;
    assert!(check_json_only_flags(&params).is_ok());
}
