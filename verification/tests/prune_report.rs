use chrono::{DateTime, Utc};
use unfudged::prune::{
    human_output, human_output_with_registry, preview, retained_range, ProjectPrune, PruneStats,
};

fn at(rfc3339: &str) -> i64 {
    let t: DateTime<Utc> = rfc3339.parse().expect("valid RFC3339 timestamp");
    t.timestamp_nanos_opt().unwrap()
}

/// The cutoff as the command prints it, in local time.
const CUTOFF_LOCAL: &str = "2020-06-15 12:00:00";

fn cutoff_line(output: &str) -> &str {
    output
        .lines()
        .find(|l| l.starts_with("Pruning snapshots older than "))
        .unwrap_or_else(|| panic!("no cutoff line found in output: {:?}", output))
}

fn sample(path: &str, removed: u64, kept: u64, retained: bool) -> ProjectPrune {
    ProjectPrune {
        path: path.to_string(),
        stats: PruneStats {
            snapshots_removed: removed,
            objects_removed: removed / 2,
            bytes_freed: removed * 1024,
        },
        snapshots_kept: kept,
        retained: if retained {
            Some(("2026-08-23 12:00:00".to_string(), "2026-08-30 12:00:00".to_string()))
        } else {
            None
        },
    }
}

fn check_dry_run_and_real_run_report_same_cutoff() {
    let stats = PruneStats { snapshots_removed: 0, objects_removed: 0, bytes_freed: 0 };
    let dry = human_output(true, CUTOFF_LOCAL, &stats);
    let real = human_output(false, CUTOFF_LOCAL, &stats);
    assert_eq!(cutoff_line(&dry), cutoff_line(&real), "dry-run cutoff must match the real-run cutoff exactly");
    assert!(cutoff_line(&dry).ends_with(CUTOFF_LOCAL));
}

fn check_dry_run_and_real_run_report_same_cutoff_all_projects() {
    let dry = human_output_with_registry(true, CUTOFF_LOCAL, 0, 0, 0, 0);
    let real = human_output_with_registry(false, CUTOFF_LOCAL, 0, 0, 0, 0);
    assert_eq!(cutoff_line(&dry), cutoff_line(&real), "dry-run cutoff must match the real-run cutoff exactly");
}

fn check_cutoff_line_present_when_snapshots_pruned() {
    let stats = PruneStats { snapshots_removed: 3, objects_removed: 1, bytes_freed: 42 };
    let output = human_output(false, CUTOFF_LOCAL, &stats);
    assert_eq!(cutoff_line(&output), format!("Pruning snapshots older than {}", CUTOFF_LOCAL));
    assert!(output.contains("Pruned 3 snapshots."));
}

#[test]
fn prune_dry_run_and_real_run_report_same_cutoff() {
    check_dry_run_and_real_run_report_same_cutoff();
}

#[test]
fn render_dry_run_and_real_run_report_same_cutoff() {
    check_dry_run_and_real_run_report_same_cutoff();
}

#[test]
fn prune_dry_run_and_real_run_report_same_cutoff_all_projects() {
    check_dry_run_and_real_run_report_same_cutoff_all_projects();
}

#[test]
fn render_dry_run_and_real_run_report_same_cutoff_all_projects() {
    check_dry_run_and_real_run_report_same_cutoff_all_projects();
}

#[test]
fn prune_cutoff_line_present_when_snapshots_pruned() {
    check_cutoff_line_present_when_snapshots_pruned();
}

#[test]
fn render_cutoff_line_present_when_snapshots_pruned() {
    check_cutoff_line_present_when_snapshots_pruned();
}

#[test]
fn preview_reports_same_cutoff_as_real_run() {
    let projects = vec![sample("/p/one", 10, 5, true)];
    assert_eq!(
        cutoff_line(&preview(&projects, CUTOFF_LOCAL)),
        cutoff_line(&human_output_with_registry(false, CUTOFF_LOCAL, 10, 5, 0, 0))
    );
}

#[test]
fn preview_lists_every_project_and_totals_them() {
    let projects = vec![sample("/p/one", 1000, 40, true), sample("/p/two", 24, 6, true)];
    let out = preview(&projects, "2026-08-23 12:00:00");
    assert!(out.contains("/p/one"), "{}", out);
    assert!(out.contains("/p/two"), "{}", out);
    assert!(out.contains("delete  1,000 snapshots, 500 objects"), "{}", out);
    assert!(out.contains("keep    40 snapshots,"), "{}", out);
    assert!(out.contains("Total: 1,024 snapshots, 512 objects, 1.0 MB across 2 projects."), "{}", out);
}

#[test]
fn preview_names_a_project_it_would_empty() {
    let projects = vec![sample("/p/stale", 900, 0, false)];
    let out = preview(&projects, "2026-08-23 12:00:00");
    assert!(out.contains("keep    nothing: this removes the project's entire history"), "{}", out);
}

#[test]
fn retained_range_starts_at_the_cutoff_when_history_predates_it() {
    let cutoff = at("2026-08-23T12:00:00Z");
    let range = retained_range(Some(at("2026-01-01T00:00:00Z")), Some(at("2026-08-30T00:00:00Z")), cutoff);
    assert_eq!(range, Some((cutoff, at("2026-08-30T00:00:00Z"))));
}

#[test]
fn retained_range_starts_at_the_oldest_snapshot_when_nothing_is_pruned() {
    let oldest = at("2026-08-28T00:00:00Z");
    let range = retained_range(Some(oldest), Some(at("2026-08-30T00:00:00Z")), at("2026-08-23T12:00:00Z"));
    assert_eq!(range, Some((oldest, at("2026-08-30T00:00:00Z"))));
}

#[test]
fn retained_range_is_none_when_everything_is_older_than_the_cutoff() {
    assert_eq!(
        retained_range(Some(at("2026-01-01T00:00:00Z")), Some(at("2026-02-01T00:00:00Z")), at("2026-08-23T12:00:00Z")),
        None
    );
}

#[test]
fn retained_range_is_none_for_an_empty_project() {
    assert_eq!(retained_range(None, None, at("2026-08-23T12:00:00Z")), None);
}

#[test]
fn full_report_texts() {
    let stats = PruneStats { snapshots_removed: 1234, objects_removed: 2, bytes_freed: 2048 };
    assert_eq!(
        human_output(true, "T", &stats),
        "Pruning snapshots older than T\n[dry run] Pruned 1,234 snapshots.\n[dry run] Removed 2 orphaned objects (2.0 KB freed).\n"
    );
    assert_eq!(
        human_output_with_registry(false, "T", 0, 0, 0, 3),
        "Pruning snapshots older than T\nCleaned 3 stale registry entries.\n"
    );
    assert_eq!(
        human_output(false, "T", &PruneStats { snapshots_removed: 0, objects_removed: 0, bytes_freed: 0 }),
        "Pruning snapshots older than T\nNothing to prune.\n"
    );
}
