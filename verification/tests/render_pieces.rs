use unfudged::desktop::{
    choose_unf, content_args, diff_args, last_content_line, move_storage_args, unwatch_args,
};
use unfudged::diff::{state_diff_text, FileChange};
use unfudged::listing::{page_break_before, page_prompt, page_stop_line, quits};
use unfudged::settings::{config_path, lock_path};

#[test]
fn grouped_listing_pauses_every_page_on_a_terminal() {
    assert!(!page_break_before(0, true));
    assert!(!page_break_before(19, true));
    assert!(page_break_before(20, true));
    assert!(!page_break_before(20, false));
    assert!(page_break_before(40, true));
    assert_eq!(page_prompt(20), "-- more (20 groups displayed, Enter to continue, q to quit) --");
    assert_eq!(page_stop_line(40), "-- 40 groups shown --");
}

#[test]
fn quit_answers() {
    assert!(quits("q"));
    assert!(quits(" Q\n"));
    assert!(!quits(""));
    assert!(!quits("qq"));
    assert!(!quits("\n"));
    assert!(!quits("quit"));
}

#[test]
fn state_diff_report_text() {
    assert_eq!(state_diff_text("A", "B", &[], &[]), "No changes between the specified times.\n");
    let changes = vec![
        ("a.txt".to_string(), FileChange::Created),
        ("b.txt".to_string(), FileChange::Modified),
    ];
    let diffs = vec!["DIFF-B\n".to_string()];
    assert_eq!(
        state_diff_text("A", "B", &changes, &diffs),
        "Changes between A and B:\n\n  created   a.txt\n  modified  b.txt\n\nDIFF-B\n"
    );
    let only_created = vec![("a.txt".to_string(), FileChange::Deleted)];
    assert_eq!(state_diff_text("A", "B", &only_created, &diffs), "Changes between A and B:\n\n  deleted   a.txt\n");
}

#[test]
fn lock_path_returns_path_in_config_dir() {
    if let (Ok(lp), Ok(cp)) = (lock_path(), config_path()) {
        let lp = std::path::PathBuf::from(lp);
        let cp = std::path::PathBuf::from(cp);
        assert_eq!(lp.parent().expect("lock parent"), cp.parent().expect("config parent"));
        assert_eq!(lp.file_name().unwrap().to_string_lossy(), "migration.lock");
    }
}

#[test]
fn desktop_command_arguments() {
    assert_eq!(
        diff_args(Some("5m".to_string()), None, None, Some("a.rs".to_string()), None, Some(3)),
        vec!["diff", "--at", "5m", "a.rs", "--context", "3"]
    );
    assert_eq!(
        diff_args(Some("5m".to_string()), Some("1h".to_string()), None, None, Some(-4), None),
        vec!["diff", "--snapshot", "-4"]
    );
    assert_eq!(content_args("f.txt".to_string(), None, Some(9)), vec!["cat", "f.txt", "--snapshot", "9"]);
    assert_eq!(move_storage_args("/n".to_string()), vec!["config", "--move-storage", "/n", "--force"]);
    assert_eq!(unwatch_args("/p".to_string()), vec!["unwatch", "--project", "/p"]);
    assert_eq!(choose_unf(false, true), "/usr/local/bin/unf");
    assert_eq!(choose_unf(false, false), "unf");
    assert_eq!(last_content_line("{\"a\":1}\n{\"b\":2}\n  \n"), Some("{\"b\":2}".to_string()));
    assert_eq!(last_content_line(" \n\t\n"), None);
}
