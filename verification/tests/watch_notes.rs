use unfudged::watching::{
    gitignore_shadow_warning_lines, is_git_path_entry, not_recorded_dirs, not_recorded_note_lines,
    parse_unignore_dir, recording_note_line, shadow_candidates, watch_status, WatchSettings,
};

fn settings_from_flags(force: bool, dirs: &[&str]) -> WatchSettings {
    let dirs: Vec<String> = dirs.iter().map(|d| (*d).to_string()).collect();
    WatchSettings::from_flags(force, &dirs)
}

#[test]
fn settings_from_flags_sorts_and_dedupes_repeated_values() {
    let settings = settings_from_flags(false, &["target", "dist", "target"]);
    let names: Vec<&str> = settings.unignored_dirs.iter().map(String::as_str).collect();
    assert_eq!(names, vec!["dist", "target"]);
}

#[test]
fn settings_from_flags_without_flag_is_empty() {
    let settings = settings_from_flags(false, &[]);
    assert!(settings.unignored_dirs.is_empty());
    assert!(!settings.force_watch_gitignore);
}

#[test]
fn not_recorded_dirs_omits_unignored_ones() {
    let unignored = vec!["target".to_string()];
    let present = ["node_modules", "target", "dist"];
    assert_eq!(not_recorded_dirs(&present, &unignored), vec!["node_modules", "dist"]);
}

#[test]
fn not_recorded_dirs_empty_when_everything_is_unignored() {
    let unignored = vec!["dist".to_string(), "target".to_string()];
    assert!(not_recorded_dirs(&["target", "dist"], &unignored).is_empty());
}

#[test]
fn not_recorded_note_lines_hint_names_a_real_directory() {
    let lines = not_recorded_note_lines(&["node_modules", "dist"]);
    assert_eq!(lines[0], "not recorded in this project: node_modules, dist");
    assert_eq!(
        lines[1],
        "Record one with `unf watch --unignore-dir node_modules`. See `unf watch --help`."
    );
    assert_eq!(lines.len(), 2);
}

#[test]
fn not_recorded_note_lines_empty_when_nothing_to_report() {
    assert!(not_recorded_note_lines(&[]).is_empty());
}

#[test]
fn recording_note_line_is_none_when_nothing_unignored() {
    assert!(recording_note_line(&Vec::new()).is_none());
}

#[test]
fn recording_note_line_joins_names_and_git_paths_readably() {
    let settings = settings_from_flags(false, &["target", ".git/hooks", ".git/info/exclude"]);
    assert_eq!(
        recording_note_line(&settings.unignored_dirs),
        Some("recording normally-excluded: .git/hooks, .git/info/exclude, target".to_string())
    );
}

#[test]
fn validated_git_paths_round_trip_through_watch_settings() {
    let typed = [".git/hooks", "target"];
    let validated: Vec<String> = typed
        .iter()
        .map(|value| parse_unignore_dir(value).expect("accepted by the value parser"))
        .collect();
    let settings = WatchSettings::from_flags(false, &validated);
    let restored = WatchSettings::from_flags(settings.force_watch_gitignore, &settings.unignored_dirs);
    assert_eq!(restored.unignored_dirs, settings.unignored_dirs);
    assert!(restored.unignored_dirs.contains(&".git/hooks".to_string()));
    assert!(restored.unignored_dirs.contains(&"target".to_string()));
}

#[test]
fn refused_git_paths_never_reach_the_settings_write() {
    for value in [".git", ".git/objects", ".git/refs", ".git/hooks/../objects"] {
        assert!(parse_unignore_dir(value).is_err(), "'{value}' must never produce a value to persist");
    }
}

#[test]
fn gitignore_shadow_warning_lines_name_the_second_flag() {
    let lines = gitignore_shadow_warning_lines(&["target"]);
    assert_eq!(lines[0], ".gitignore also excludes target, so it is still not recorded");
    assert_eq!(lines[1], "--unignore-dir lifts UNF's built-in exclusion only.");
    assert_eq!(lines[2], "Add --force-watch-gitignore as well, or remove target from .gitignore.");
}

#[test]
fn gitignore_shadow_warning_lines_empty_when_nothing_shadowed() {
    assert!(gitignore_shadow_warning_lines(&[]).is_empty());
}

#[test]
fn is_git_path_entry_matches_only_git_rooted_paths() {
    assert!(is_git_path_entry(".git/hooks"));
    assert!(is_git_path_entry(".git/info/exclude"));
    assert!(!is_git_path_entry("target"));
    assert!(!is_git_path_entry(".github"));
    assert!(!is_git_path_entry(".gitignore"));
    assert!(!is_git_path_entry(".gitmodules"));
}

#[test]
fn parse_unignore_dir_normalises_and_explains() {
    assert_eq!(parse_unignore_dir("target/"), Ok("target".to_string()));
    assert_eq!(parse_unignore_dir(".git\\hooks"), Ok(".git/hooks".to_string()));
    assert!(parse_unignore_dir("src").unwrap_err().contains("not an excluded directory"));
    assert!(parse_unignore_dir(".git").unwrap_err().contains(".git"));
}

#[test]
fn shadow_candidates_leave_out_git_paths() {
    let dirs = vec![".git/hooks".to_string(), "target".to_string()];
    assert_eq!(shadow_candidates(&dirs), vec!["target".to_string()]);
}

#[test]
fn watch_status_reports_kept_history() {
    assert_eq!(watch_status(0), ("started", None));
    assert_eq!(watch_status(7), ("resumed", Some(7)));
}
