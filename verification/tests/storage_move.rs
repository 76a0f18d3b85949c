use unfudged::migration::{
    check_disk_space, compute_migrated_path, file_extension, interrupted_lines, preflight_checks,
    resolve_destination, resolve_destination_in, should_skip_by_extension, should_skip_entry,
    started_message, verify_destination, DestinationFacts, MigrationState,
};
use unfudged::settings::{config_file_in, config_lines, home_relative, home_relative_with, lock_file_in, swap_config, Config};

#[test]
fn migration_state_display() {
    assert_eq!(MigrationState::Preflight.to_string(), "preflight");
    assert_eq!(MigrationState::DaemonStopped.to_string(), "daemon_stopped");
    assert_eq!(MigrationState::Copying.to_string(), "copying");
    assert_eq!(MigrationState::Swapped.to_string(), "swapped");
}

#[test]
fn migration_state_next_transitions() {
    assert_eq!(MigrationState::Preflight.next(), Some(MigrationState::DaemonStopped));
    assert_eq!(MigrationState::DaemonStopped.next(), Some(MigrationState::Copying));
    assert_eq!(MigrationState::Copying.next(), Some(MigrationState::Swapped));
    assert_eq!(MigrationState::Swapped.next(), None);
}

#[test]
fn migration_state_equality_and_copy() {
    let state1 = MigrationState::Copying;
    let state2 = state1;
    assert_eq!(state1, state2);
    assert_eq!(state1, MigrationState::Copying);
    assert_ne!(state1, MigrationState::Swapped);
}

#[test]
fn resolve_destination_default() {
    let result = resolve_destination("default");
    if let Ok((path, is_default)) = result {
        assert!(is_default, "should be default");
        assert!(path.ends_with(".unfudged"), "expected path ending in .unfudged, got: {}", path);
    }
}

#[test]
fn resolve_destination_absolute_path() {
    let (path, is_default) = resolve_destination("/some/absolute/path").expect("absolute path should resolve");
    assert_eq!(path, "/some/absolute/path");
    assert!(!is_default, "custom path should not be default");
}

#[test]
fn resolve_destination_relative_path_rejected() {
    let result = resolve_destination("relative/path");
    assert!(result.is_err(), "relative paths must be rejected");
    let msg = result.unwrap_err().message();
    assert!(msg.contains("No changes made"), "error must mention No changes made: {}", msg);
}

#[test]
fn resolve_destination_explicit_default_path_is_treated_as_default() {
    let (path, is_default) = resolve_destination_in("/home/u/.unfudged", Some("/home/u")).expect("resolves");
    assert_eq!(path, "/home/u/.unfudged");
    assert!(is_default);
    let (path, is_default) = resolve_destination_in("default", Some("/home/u/")).expect("resolves");
    assert_eq!(path, "/home/u/.unfudged");
    assert!(is_default);
}

#[test]
fn resolve_destination_non_home_unfudged_is_not_default() {
    let (_, is_default) = resolve_destination_in("/home/u/some/other/.unfudged", Some("/home/u")).expect("resolves");
    assert!(!is_default);
}

#[test]
fn resolve_destination_without_home_fails() {
    let err = resolve_destination_in("/x", None).unwrap_err();
    assert_eq!(err.message(), "Cannot determine home directory. No changes made.");
}

fn facts(present: bool, empty: bool) -> DestinationFacts {
    DestinationFacts { canonical_dest: None, canonical_source: None, present, empty }
}

#[test]
fn preflight_dest_inside_source_rejected() {
    let result = preflight_checks("/data/store", "/data/store/subdir", false, &facts(false, false));
    assert!(result.is_err(), "dest inside source must be rejected");
    let msg = result.unwrap_err().message();
    assert!(msg.contains("No changes made"), "must mention No changes made: {}", msg);
    assert_eq!(msg, "/data/store/subdir is inside the current storage directory. No changes made.");
}

#[test]
fn preflight_same_path_rejected() {
    let result = preflight_checks("/data/store", "/data/store", false, &facts(true, false));
    assert!(result.is_err());
    let msg = result.unwrap_err().message();
    assert!(msg.contains("No changes made"), "{}", msg);
}

#[test]
fn preflight_dest_has_data_rejected_unless_forced() {
    let err = preflight_checks("/a", "/b", false, &facts(true, false)).unwrap_err();
    assert_eq!(err.message(), "/b already contains data. Use --force to overwrite. No changes made.");
    assert_eq!(preflight_checks("/a", "/b", true, &facts(true, false)).unwrap(), true);
    assert_eq!(preflight_checks("/a", "/b", false, &facts(true, true)).unwrap(), false);
    assert_eq!(preflight_checks("/a", "/b", false, &facts(false, false)).unwrap(), false);
}

#[test]
fn preflight_uses_canonical_paths_when_known() {
    let f = DestinationFacts {
        canonical_dest: Some("/real/store/x".to_string()),
        canonical_source: Some("/real/store".to_string()),
        present: false,
        empty: false,
    };
    assert!(preflight_checks("/link/store", "/elsewhere/x", false, &f).is_err());
}

#[test]
fn disk_space_check() {
    assert!(check_disk_space("/d", 0, Some(0)).is_ok());
    assert!(check_disk_space("/d", 10, None).is_ok());
    assert!(check_disk_space("/d", 10, Some(10)).is_ok());
    let err = check_disk_space("/d", 2048, Some(1024)).unwrap_err();
    assert_eq!(err.message(), "Not enough space at /d. Need 2.0 KB, have 1.0 KB available. No changes made.");
}

#[test]
fn runtime_files_are_skipped() {
    for name in ["daemon.pid", "sentinel.pid", "stopped", "db.sqlite3-wal", "db.sqlite3-shm"] {
        assert!(should_skip_entry(name), "{} must be skipped", name);
    }
    for name in ["projects.json", "db.sqlite3", ".sqlite3-wal", "stopped.txt"] {
        assert!(!should_skip_entry(name), "{} must be copied", name);
    }
    assert!(should_skip_by_extension("a.tmp", &["tmp"]));
    assert!(!should_skip_by_extension("tmp", &["tmp"]));
}

#[test]
fn file_extensions() {
    assert_eq!(file_extension("db.sqlite3-wal"), Some("sqlite3-wal".to_string()));
    assert_eq!(file_extension("archive.tar.gz"), Some("gz".to_string()));
    assert_eq!(file_extension(".hidden"), None);
    assert_eq!(file_extension("trailing."), Some(String::new()));
    assert_eq!(file_extension(".."), None);
    assert_eq!(file_extension("plain"), None);
}

#[test]
fn migrated_path_gets_a_timestamp_when_taken() {
    assert_eq!(compute_migrated_path("/x/storage", false, 5), "/x/storage.migrated");
    assert_eq!(compute_migrated_path("/x/storage", true, 1234567890), "/x/storage.migrated.1234567890");
}

#[test]
fn progress_and_recovery_lines() {
    assert_eq!(started_message(2048, 1), "Stopping daemon... (moving 2.0 KB across 1 project)");
    assert_eq!(started_message(0, 3), "Stopping daemon... (moving 0 B across 3 projects)");
    let lines = interrupted_lines(None, "/cfg/unfudged/migration.lock");
    assert_eq!(lines[1], "Your data is safe at the original location: ~/.unfudged");
    assert_eq!(lines[3], "delete /cfg/unfudged/migration.lock to clear the lock and proceed.");
    assert!(verify_destination("/d", true, None).is_ok());
    assert_eq!(
        verify_destination("/d", false, None).unwrap_err().message(),
        "Verification failed: projects.json not found at /d. Your data is safe at /d"
    );
    assert_eq!(
        verify_destination("/d", true, Some("denied")).unwrap_err().message(),
        "Verification failed: cannot read projects.json at /d: denied. Your data is safe at /d"
    );
}

#[test]
fn config_paths_and_swap() {
    assert_eq!(config_file_in("/home/u/.config"), "/home/u/.config/unfudged/config.json");
    assert_eq!(lock_file_in("/home/u/.config/"), "/home/u/.config/unfudged/migration.lock");
    let c = Config::default();
    assert_eq!(swap_config(&c, "/new", false).storage_dir, Some("/new".to_string()));
    assert_eq!(swap_config(&c, "/new", true).storage_dir, None);
    let lines = config_lines("~/.unfudged", true, 1, 2048);
    assert_eq!(lines[0], "Storage directory: ~/.unfudged (default)");
    assert_eq!(lines[1], "  1 project, 2.0 KB used");
}

#[test]
fn home_relative_non_home_path_unchanged() {
    assert_eq!(home_relative("/tmp/nonhome/path"), "/tmp/nonhome/path");
}

#[test]
fn home_relative_replaces_home_prefix() {
    if let Some(home) = dirs::home_dir() {
        let path = home.join("some").join("path");
        let result = home_relative(&path.display().to_string());
        assert!(result.starts_with("~/"), "Expected ~/…, got: {}", result);
        assert!(result.contains("some/path"), "Got: {}", result);
    }
}

#[test]
fn home_relative_with_given_home() {
    assert_eq!(home_relative_with("/home/u/a/b", Some("/home/u")), "~/a/b");
    assert_eq!(home_relative_with("/home/uu/a", Some("/home/u")), "/home/uu/a");
    assert_eq!(home_relative_with("/x", None), "/x");
}
