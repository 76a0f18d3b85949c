use unfudged::git_output::{
    git_branch_text, git_info_from_output, git_info_from_texts, parse_git_log, parse_git_status,
    status_text_cuttable,
};

#[test]
fn branch_text_is_trimmed() {
    assert_eq!(git_branch_text("  main\n"), "main");
    assert_eq!(git_branch_text("feature/x"), "feature/x");
    assert_eq!(git_branch_text("\t\n"), "");
}

#[test]
fn status_lines_give_paths() {
    let files = parse_git_status(" M src/a.rs\n?? new file.txt\nA\n");
    assert_eq!(files, vec!["src/a.rs".to_string(), "new file.txt".to_string()]);
}

#[test]
fn status_line_of_exactly_three_bytes_is_skipped() {
    assert!(parse_git_status(" M \n").is_empty());
    assert_eq!(parse_git_status("?? x"), vec!["x".to_string()]);
}

#[test]
fn status_with_cut_inside_a_character_is_refused() {
    assert!(status_text_cuttable(" M ok\n"));
    assert!(!status_text_cuttable("ab\u{20ac}x\n"));
    assert!(git_info_from_output(b"main", Some("ab\u{20ac}x\n".as_bytes()), None).is_none());
}

#[test]
fn status_cut_after_multibyte_prefix() {
    // one byte, then a two-byte character: the fourth byte starts the path
    assert_eq!(parse_git_status("a\u{e9}path"), vec!["path".to_string()]);
}

#[test]
fn log_lines_split_at_first_space() {
    let commits = parse_git_log("abc1234 Fix bug\ndef5678 Add feature x\nnospace\n");
    assert_eq!(commits.len(), 2);
    assert_eq!(commits[0].hash, "abc1234");
    assert_eq!(commits[0].message, "Fix bug");
    assert_eq!(commits[1].hash, "def5678");
    assert_eq!(commits[1].message, "Add feature x");
}

#[test]
fn log_line_with_trailing_space_has_empty_message() {
    let commits = parse_git_log("abc ");
    assert_eq!(commits.len(), 1);
    assert_eq!(commits[0].hash, "abc");
    assert_eq!(commits[0].message, "");
}

#[test]
fn failed_commands_leave_lists_empty() {
    let info = git_info_from_texts("dev\n", None, None);
    assert_eq!(info.branch, "dev");
    assert!(info.uncommitted_files.is_empty());
    assert!(info.recent_commits.is_empty());
}

#[test]
fn raw_output_is_decoded_lossily() {
    let info = git_info_from_output(&[0x66, 0xFF, 0x0A], Some(b" M a.rs\n"), Some(b"1a2b Init\n"))
        .unwrap();
    assert_eq!(info.branch, "f\u{fffd}");
    assert_eq!(info.uncommitted_files, vec!["a.rs".to_string()]);
    assert_eq!(info.recent_commits.len(), 1);
    assert_eq!(info.recent_commits[0].hash, "1a2b");
    assert_eq!(info.recent_commits[0].message, "Init");
}
