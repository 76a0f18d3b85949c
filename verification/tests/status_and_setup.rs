use unfudged::app_state::{AppError, AppState};
use unfudged::autostart::{
    format_sentinel_plist, format_sentinel_service, resolve_stable_binary_path,
    sentinel_service_path,
};
use unfudged::restart::{audit_backup_path, audit_line, audit_path, needs_rotation, no_projects_output, restarted_lines, restarted_output};
use unfudged::status::{
    determine_status_mode, format_duration, is_daemon_watching_project, lookup_registry_facts,
    plural, unwatched_lines, watching_lines, RegistryEntry, RegistryFacts, StatusMode,
    WatchingFigures,
};

#[test]
fn format_duration_seconds() {
    assert_eq!(format_duration(0), "0 seconds ago");
    assert_eq!(format_duration(1), "1 seconds ago");
    assert_eq!(format_duration(30), "30 seconds ago");
    assert_eq!(format_duration(59), "59 seconds ago");
}

#[test]
fn format_duration_minutes() {
    assert_eq!(format_duration(60), "1 minute ago");
    assert_eq!(format_duration(120), "2 minutes ago");
    assert_eq!(format_duration(300), "5 minutes ago");
}

#[test]
fn format_duration_hours() {
    assert_eq!(format_duration(3600), "1 hour ago");
    assert_eq!(format_duration(7200), "2 hours ago");
    assert_eq!(format_duration(18000), "5 hours ago");
}

#[test]
fn format_duration_days() {
    assert_eq!(format_duration(86400), "1 day ago");
    assert_eq!(format_duration(172800), "2 days ago");
    assert_eq!(format_duration(259200), "3 days ago");
}

#[test]
fn plural_singular() {
    assert_eq!(plural(1, "minute"), "minute");
    assert_eq!(plural(1, "hour"), "hour");
    assert_eq!(plural(1, "day"), "day");
}

#[test]
fn plural_multiple() {
    assert_eq!(plural(0, "minute"), "minutes");
    assert_eq!(plural(2, "hour"), "hours");
    assert_eq!(plural(5, "day"), "days");
}

#[test]
fn is_daemon_watching_project_unregistered() {
    assert!(!is_daemon_watching_project(RegistryFacts::default(), true));
    assert!(!is_daemon_watching_project(RegistryFacts::default(), false));
}

#[test]
fn is_daemon_watching_project_no_global_daemon() {
    let facts = RegistryFacts { registered: true, force_watch_gitignore: false };
    assert!(!is_daemon_watching_project(facts, false));
    assert!(is_daemon_watching_project(facts, true));
}

#[test]
fn status_modes() {
    let registered = RegistryFacts { registered: true, force_watch_gitignore: false };
    assert_eq!(determine_status_mode(RegistryFacts::default(), true), StatusMode::NeverWatched);
    assert_eq!(determine_status_mode(registered, false), StatusMode::PreviouslyWatched);
    assert_eq!(determine_status_mode(registered, true), StatusMode::ActivelyWatching);
}

#[test]
fn lookup_registry_facts_reads_force_watch_gitignore() {
    let entries = vec![
        RegistryEntry { path: "/other".to_string(), force_watch_gitignore: false },
        RegistryEntry { path: "/home/u/project".to_string(), force_watch_gitignore: true },
    ];
    let facts = lookup_registry_facts(Some(&entries), "/home/u/project");
    assert!(facts.registered);
    assert!(facts.force_watch_gitignore);
    let facts = lookup_registry_facts(Some(&entries), "/home/u/elsewhere");
    assert!(!facts.registered);
    assert_eq!(lookup_registry_facts(None, "/home/u/project"), RegistryFacts::default());
}

#[test]
fn status_lines() {
    assert_eq!(unwatched_lines(StatusMode::NeverWatched)[0], "This directory is not being watched.");
    let figures = WatchingFigures {
        since: "3 hours ago".to_string(),
        snapshots: 1234,
        files_tracked: 5,
        store_bytes: 2048,
        force_watch_gitignore: true,
        auto_restart: false,
    };
    let lines = watching_lines(&figures);
    assert_eq!(
        lines,
        vec![
            "Watching since 3 hours ago",
            "  Snapshots:  1,234",
            "  Files tracked:  5",
            "  Store size:  2.0 KB",
            "  Gitignore:  not applied (--force-watch-gitignore)",
            "  Auto-restart: disabled",
        ]
    );
}

#[test]
fn format_sentinel_plist_contains_label() {
    let plist = format_sentinel_plist("/usr/local/bin/unf");
    assert!(plist.contains("com.unfudged.sentinel"));
}

#[test]
fn format_sentinel_plist_contains_sentinel_command() {
    let plist = format_sentinel_plist("/usr/local/bin/unf");
    assert!(plist.contains("__sentinel"));
}

#[test]
fn format_sentinel_plist_has_keep_alive() {
    let plist = format_sentinel_plist("/usr/local/bin/unf");
    assert!(plist.contains("<key>KeepAlive</key>"));
    assert!(plist.contains("<true/>"));
}

#[test]
fn format_sentinel_plist_no_run_at_load() {
    let plist = format_sentinel_plist("/usr/local/bin/unf");
    assert!(!plist.contains("RunAtLoad"));
}

#[test]
fn format_sentinel_service_contains_sentinel_command() {
    let service = format_sentinel_service("/usr/local/bin/unf");
    assert!(service.contains("/usr/local/bin/unf __sentinel"));
}

#[test]
fn format_sentinel_service_is_simple() {
    let service = format_sentinel_service("/usr/local/bin/unf");
    assert!(service.contains("Type=simple"));
}

#[test]
fn format_sentinel_service_has_restart_always() {
    let service = format_sentinel_service("/usr/local/bin/unf");
    assert!(service.contains("Restart=always"));
    assert!(service.contains("RestartSec=10"));
}

#[test]
fn sentinel_service_full_text() {
    assert_eq!(
        format_sentinel_service("/bin/unf"),
        "[Unit]\nDescription=UNFUDGED sentinel - daemon watchdog and intent reconciliation\n\n[Service]\nType=simple\nExecStart=/bin/unf __sentinel\nRestart=always\nRestartSec=10\n\n[Install]\nWantedBy=default.target\n"
    );
    assert_eq!(
        sentinel_service_path("/home/u/.config"),
        "/home/u/.config/systemd/user/unfudged-sentinel.service"
    );
}

#[test]
fn stable_path_passthrough() {
    let path = "/opt/homebrew/bin/unf";
    assert_eq!(resolve_stable_binary_path(path, None, None), path);
}

#[test]
fn stable_path_passthrough_usr_local() {
    let path = "/usr/local/bin/unf";
    assert_eq!(resolve_stable_binary_path(path, Some("/opt/homebrew/bin/unf"), None), path);
}

#[test]
fn dev_path_detected() {
    let dev_path = "/Users/dev/code/unfudged/target/debug/unf";
    for (installed, which) in [(None, None), (Some("/usr/local/bin/unf"), None), (None, Some("/home/u/bin/unf"))] {
        let resolved = resolve_stable_binary_path(dev_path, installed, which);
        assert!(
            !resolved.contains("/target/debug/") || resolved == dev_path,
            "Dev path should resolve to stable install or fall back to itself"
        );
    }
    assert_eq!(resolve_stable_binary_path(dev_path, Some("/usr/local/bin/unf"), None), "/usr/local/bin/unf");
    assert_eq!(resolve_stable_binary_path(dev_path, None, Some("/home/u/bin/unf")), "/home/u/bin/unf");
    assert_eq!(resolve_stable_binary_path(dev_path, None, Some("")), dev_path);
}

#[test]
fn release_path_detected() {
    let release_path = "/Users/dev/code/unfudged/target/release/unf";
    let resolved = resolve_stable_binary_path(release_path, None, Some("/x/target/release/unf"));
    assert!(
        !resolved.contains("/target/release/") || resolved == release_path,
        "Release path should resolve to stable install or fall back to itself"
    );
    assert_eq!(resolved, release_path);
}

#[test]
fn restart_no_projects() {
    let output = no_projects_output();
    assert_eq!(output.status, "no_projects");
    assert_eq!(output.auto_restart, None);
    assert_eq!(output.auto_restart_enabled, None);
}

#[test]
fn restarted_report() {
    let output = restarted_output(true, true);
    assert_eq!(output.status, "restarted");
    assert_eq!(output.auto_restart, Some(true));
    assert_eq!(restarted_lines(true, true, false).len(), 2);
    assert_eq!(restarted_lines(false, true, false).len(), 1);
    assert!(restarted_lines(false, true, false)[0].contains("Restarted"));
}

#[test]
fn audit_lines_and_rotation() {
    assert_eq!(audit_line("2026-01-01T00:00:00+00:00", "WATCH", "/p"), "2026-01-01T00:00:00+00:00\tWATCH\t/p");
    assert!(!needs_rotation(1_048_575));
    assert!(needs_rotation(1_048_576));
}

#[test]
fn app_state_selection() {
    let mut state = AppState::new();
    assert!(matches!(state.selected_project(), Err(AppError::NoProject)));
    state.set_selected_project("/p".to_string());
    assert_eq!(state.selected_project().unwrap(), "/p");
    assert_eq!(AppError::NoProject.message(), "No project selected");
    assert_eq!(AppError::UnfError("x".to_string()).message(), "unf error: x");
}

#[test]
fn audit_log_lives_in_the_storage_directory() {
    assert_eq!(audit_path("/home/u/.unfudged"), "/home/u/.unfudged/audit.log");
    assert_eq!(audit_path("/data/"), "/data/audit.log");
    assert_eq!(audit_backup_path("/home/u/.unfudged"), "/home/u/.unfudged/audit.log.1");
}
