use unfudged::output::{GREEN, RED, RESET, YELLOW};
use unfudged::project_list::{
    gather_project_info, gitignore_label, project_status, render_status_cell, status_marker,
    unignored_label, HistoryFigures, FORCE_GITIGNORE_MARKER,
};
use unfudged::watching::WatchSettings;

fn settings(force_watch_gitignore: bool, dirs: &[&str]) -> WatchSettings {
    let dirs: Vec<String> = dirs.iter().map(|d| (*d).to_string()).collect();
    WatchSettings::from_flags(force_watch_gitignore, &dirs)
}

fn names(dirs: &[&str]) -> Vec<String> {
    dirs.iter().map(|d| (*d).to_string()).collect()
}

/// What the list shows of a project whose storage cannot be found.
fn missing_project_info(s: &WatchSettings) -> unfudged::project_list::ProjectInfo {
    let status = project_status(false, false, false, false);
    gather_project_info("/nonexistent/path", status, s.force_watch_gitignore, &s.unignored_dirs, None, None, 0)
}

#[test]
fn gather_info_missing_directory() {
    let info = missing_project_info(&settings(false, &[]));
    assert_eq!(info.status, "error");
    assert!(info.snapshots.is_none());
    assert!(info.store_bytes.is_none());
    assert!(!info.force_watch_gitignore);
    assert!(info.unignored_dirs.is_empty());
}

#[test]
fn gather_info_early_return_keeps_the_flag() {
    let info = missing_project_info(&settings(true, &[]));
    assert_eq!(info.status, "error");
    assert!(info.force_watch_gitignore);
}

#[test]
fn gather_info_early_return_keeps_the_unignore_list() {
    let info = missing_project_info(&settings(false, &["target"]));
    assert_eq!(info.status, "error");
    assert_eq!(info.unignored_dirs, names(&["target"]));
}

#[test]
fn gather_info_with_figures() {
    let sec = 1_000_000_000i64;
    let figures = HistoryFigures {
        snapshots: Some(12),
        store_bytes: Some(2048),
        tracked_files: Some(3),
        oldest: Some(100 * sec),
        newest: Some(1000 * sec),
    };
    let info = gather_project_info(
        "/p",
        "watching",
        false,
        &names(&["dist"]),
        Some(figures),
        Some("since".to_string()),
        1000 * sec + 7200 * sec,
    );
    assert_eq!(info.snapshots, Some(12));
    assert_eq!(info.recording_since, Some("since".to_string()));
    assert_eq!(info.last_activity, Some("2 hours ago".to_string()));
    assert_eq!(info.newest_snapshot_time, Some(1000 * sec));
}

#[test]
fn marker_does_not_change_status_color() {
    let plain = render_status_cell("watching", "", 10, true);
    let marked = render_status_cell("watching", FORCE_GITIGNORE_MARKER, 10, true);
    assert!(plain.starts_with(GREEN), "plain: {:?}", plain);
    assert!(marked.starts_with(GREEN), "marked: {:?}", marked);
    assert!(marked.ends_with(RESET));
    assert!(marked.contains("watching*"));
}

#[test]
fn marked_and_unmarked_cells_share_a_width() {
    let plain = render_status_cell("watching", "", 10, false);
    let marked = render_status_cell("watching", FORCE_GITIGNORE_MARKER, 10, false);
    assert_eq!(plain.len(), 10);
    assert_eq!(marked.len(), 10);
    assert_eq!(marked.trim_end(), "watching*");
}

#[test]
fn every_colored_status_survives_the_marker() {
    for (status, color) in [
        ("watching", GREEN),
        ("stopped", YELLOW),
        ("crashed", RED),
        ("orphaned", RED),
        ("error", RED),
    ] {
        let marked = render_status_cell(status, FORCE_GITIGNORE_MARKER, 12, true);
        assert!(marked.starts_with(color), "{} lost its color", status);
    }
}

#[test]
fn unknown_status_stays_uncolored() {
    let cell = render_status_cell("weird", FORCE_GITIGNORE_MARKER, 8, true);
    assert_eq!(cell, "weird*  ");
}

#[test]
fn no_color_mode_emits_no_escape_codes() {
    let cell = render_status_cell("watching", FORCE_GITIGNORE_MARKER, 12, false);
    assert!(!cell.contains('\x1b'));
}

#[test]
fn marker_and_label_track_the_flag() {
    assert_eq!(status_marker(true), "*");
    assert_eq!(status_marker(false), "");
    assert_eq!(gitignore_label(true), "forced");
    assert_eq!(gitignore_label(false), "respected");
}

#[test]
fn unignore_list_adds_no_marker_to_the_default_table() {
    assert_eq!(status_marker(false), "");
}

#[test]
fn unignored_label_is_a_dash_when_empty() {
    assert_eq!(unignored_label(&[]), "-");
}

#[test]
fn unignored_label_spells_out_short_lists() {
    assert_eq!(unignored_label(&names(&["target"])), "target");
    assert_eq!(unignored_label(&names(&["dist", "target"])), "dist,target");
}

#[test]
fn unignored_label_renders_git_paths_within_the_existing_width() {
    assert_eq!(unignored_label(&names(&[".git/hooks", "target"])), ".git/hooks,target");
    let widest = unignored_label(&names(&[".git/config", ".git/hooks", ".git/info/exclude", "target"]));
    assert_eq!(widest, ".git/config,.git/hooks+2");
    assert!(!widest.contains(' '), "the cell stays a single word");
    let widest_names = unignored_label(&names(&["node_modules", "__pycache__", "target", "build"]));
    assert!(
        widest.len() <= widest_names.len(),
        "{widest} ({}) must not exceed {widest_names} ({})",
        widest.len(),
        widest_names.len()
    );
}

#[test]
fn unignored_label_truncates_long_lists_with_a_remainder() {
    assert_eq!(unignored_label(&names(&["target", "dist", "build", "venv"])), "target,dist+2");
}

#[test]
fn unignored_label_remainder_counts_every_hidden_name() {
    let dirs = names(&["a", "b", "c", "d", "e", "f", "g"]);
    assert_eq!(unignored_label(&dirs), "a,b+5");
}

#[test]
fn statuses_in_order_of_precedence() {
    assert_eq!(project_status(false, true, true, true), "error");
    assert_eq!(project_status(true, false, true, true), "orphaned");
    assert_eq!(project_status(true, true, true, true), "watching");
    assert_eq!(project_status(true, true, false, true), "stopped");
    assert_eq!(project_status(true, true, false, false), "crashed");
}
