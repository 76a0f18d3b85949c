use unfudged::glob_filter::{retain_matching, GlobFilter};
use unfudged::types::{ContentHash, EventType, Snapshot, SnapshotId};

fn patterns(p: &[&str]) -> Vec<String> {
    p.iter().map(|s| s.to_string()).collect()
}

#[test]
fn empty_filter_matches_all() {
    let filter = GlobFilter::new(&[], &[], false).unwrap();
    assert!(filter.matches("src/main.rs"));
    assert!(filter.matches("README.md"));
    assert!(filter.matches("path/to/any/file.txt"));
}

#[test]
fn include_only_single_pattern() {
    let filter = GlobFilter::new(&patterns(&["**/*.rs"]), &[], false).unwrap();
    assert!(filter.matches("src/main.rs"));
    assert!(filter.matches("tests/unit.rs"));
    assert!(!filter.matches("README.md"));
    assert!(!filter.matches("Cargo.toml"));
}

#[test]
fn include_multiple_patterns_are_ored() {
    let filter = GlobFilter::new(&patterns(&["**/*.rs", "**/*.toml"]), &[], false).unwrap();
    assert!(filter.matches("src/main.rs"));
    assert!(filter.matches("Cargo.toml"));
    assert!(!filter.matches("README.md"));
}

#[test]
fn exclude_only_single_pattern() {
    let filter = GlobFilter::new(&[], &patterns(&["**/*.tmp"]), false).unwrap();
    assert!(filter.matches("src/main.rs"));
    assert!(filter.matches("README.md"));
    assert!(!filter.matches("data/cache.tmp"));
}

#[test]
fn exclude_multiple_patterns_are_ored() {
    let filter = GlobFilter::new(&[], &patterns(&["**/*.tmp", "**/*.bak"]), false).unwrap();
    assert!(filter.matches("src/main.rs"));
    assert!(!filter.matches("file.tmp"));
    assert!(!filter.matches("file.bak"));
}

#[test]
fn exclude_wins_over_include() {
    let filter = GlobFilter::new(&patterns(&["**/*.rs"]), &patterns(&["**/*test*.rs"]), false).unwrap();
    assert!(filter.matches("src/main.rs"));
    assert!(!filter.matches("src/test_utils.rs"));
    assert!(!filter.matches("tests/integration_test.rs"));
}

#[test]
fn both_include_and_exclude() {
    let filter = GlobFilter::new(&patterns(&["src/**", "tests/**"]), &patterns(&["**/*.tmp"]), false).unwrap();
    assert!(filter.matches("src/main.rs"));
    assert!(filter.matches("tests/unit.rs"));
    assert!(!filter.matches("README.md"));
    assert!(!filter.matches("src/cache.tmp"));
    assert!(!filter.matches("data/file.tmp"));
}

#[test]
fn case_insensitive_matching() {
    let filter = GlobFilter::new(&patterns(&["**/*.RS"]), &[], true).unwrap();
    assert!(filter.matches("src/main.rs"));
    assert!(filter.matches("src/main.RS"));
    assert!(filter.matches("src/main.Rs"));
}

#[test]
fn case_sensitive_matching() {
    let filter = GlobFilter::new(&patterns(&["**/*.RS"]), &[], false).unwrap();
    assert!(!filter.matches("src/main.rs"));
    assert!(filter.matches("src/main.RS"));
}

#[test]
fn glob_wildcard_single_star() {
    let filter = GlobFilter::new(&patterns(&["src/*.rs"]), &[], false).unwrap();
    assert!(filter.matches("src/main.rs"));
    assert!(filter.matches("src/subdir/other.rs"));
}

#[test]
fn glob_wildcard_double_star() {
    let filter = GlobFilter::new(&patterns(&["src/**/*.rs"]), &[], false).unwrap();
    assert!(filter.matches("src/main.rs"));
    assert!(filter.matches("src/subdir/other.rs"));
    assert!(filter.matches("src/a/b/c/deep.rs"));
}

#[test]
fn invalid_include_pattern() {
    let result = GlobFilter::new(&patterns(&["[invalid"]), &[], false);
    assert!(result.is_err());
}

#[test]
fn invalid_exclude_pattern() {
    let result = GlobFilter::new(&[], &patterns(&["[invalid"]), false);
    assert!(result.is_err());
}

#[test]
fn complex_pattern_combination() {
    let filter = GlobFilter::new(
        &patterns(&["src/**/*.rs", "tests/**"]),
        &patterns(&["**/.*", "**/__pycache__/**"]),
        false,
    )
    .unwrap();
    assert!(filter.matches("src/main.rs"));
    assert!(filter.matches("tests/unit/test.rs"));
    assert!(!filter.matches("README.md"));
    assert!(!filter.matches("src/.hidden.rs"));
    assert!(!filter.matches("tests/__pycache__/module.pyc"));
}

#[test]
fn refused_pattern_is_named_in_the_error() {
    let err = GlobFilter::new(&patterns(&["ok/*", "[bad"]), &[], false).unwrap_err();
    let msg = err.message();
    assert!(msg.starts_with("Invalid include pattern '[bad': "), "{}", msg);
    let err = GlobFilter::new(&[], &patterns(&["[bad"]), false).unwrap_err();
    assert!(err.message().starts_with("Invalid exclude pattern '[bad': "));
}

#[test]
fn retain_matching_keeps_order_of_admitted_snapshots() {
    let snap = |id: i64, path: &str| Snapshot {
        id: SnapshotId(id),
        file_path: path.to_string(),
        content_hash: ContentHash("h".to_string()),
        size_bytes: 1,
        timestamp: id,
        event_type: EventType::Modify,
        line_count: 1,
        lines_added: 0,
        lines_removed: 0,
    };
    let filter = GlobFilter::new(&patterns(&["**/*.rs"]), &patterns(&["**/gen_*"]), false).unwrap();
    let kept = retain_matching(&filter, vec![snap(1, "a.rs"), snap(2, "b.txt"), snap(3, "src/gen_x.rs"), snap(4, "c.rs")]);
    let ids: Vec<i64> = kept.iter().map(|s| s.id.0).collect();
    assert_eq!(ids, vec![1, 4]);
}

fn deeply_nested(depth: usize) -> String {
    format!("{}x{}", "{a,".repeat(depth), "}".repeat(depth))
}

#[test]
fn set_that_cannot_compile_is_refused() {
    let deep = vec![deeply_nested(130)];
    match GlobFilter::new(&deep, &[], false) {
        Err(e) => assert!(
            e.message().starts_with("Failed to compile include patterns: "),
            "{}",
            e.message()
        ),
        Ok(_) => panic!("a set too deeply nested to compile must be refused"),
    }
    match GlobFilter::new(&[], &deep, false) {
        Err(e) => assert!(e.message().starts_with("Failed to compile exclude patterns: ")),
        Ok(_) => panic!("a set too deeply nested to compile must be refused"),
    }
}

#[test]
fn nested_alternates_that_compile_still_match() {
    let f = GlobFilter::new(&[deeply_nested(3)], &[], false).unwrap();
    assert!(f.matches("a"));
    assert!(f.matches("x"));
    assert!(!f.matches("b"));
}
