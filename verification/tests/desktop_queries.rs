use unfudged::desktop::{density_args, global_log_args, log_args};

fn strings(v: &[&str]) -> Vec<String> {
    v.iter().map(|s| s.to_string()).collect()
}

#[test]
fn log_args_in_order() {
    let args = log_args(
        Some("src/".to_string()),
        Some("1h".to_string()),
        None,
        Some(50),
        Some("c1".to_string()),
        Some(strings(&["*.rs", "*.toml"])),
        Some(strings(&["target/**"])),
        Some(true),
    );
    assert_eq!(
        args,
        strings(&[
            "log", "src/", "--since", "1h", "--limit", "50", "--cursor", "c1", "--include", "*.rs",
            "--include", "*.toml", "--exclude", "target/**", "--group-by-file",
        ])
    );
    assert_eq!(log_args(None, None, None, None, None, None, None, Some(false)), strings(&["log"]));
}

#[test]
fn global_log_args_in_order() {
    let args = global_log_args(
        None,
        Some("now".to_string()),
        Some(10),
        None,
        Some(strings(&["*.md"])),
        None,
        Some(strings(&["/a"])),
        Some(strings(&["/b", "/c"])),
    );
    assert_eq!(
        args,
        strings(&[
            "log", "--global", "--until", "now", "--limit", "10", "--exclude", "*.md",
            "--include-project", "/a", "--exclude-project", "/b", "--exclude-project", "/c",
        ])
    );
}

#[test]
fn density_args_default_to_a_hundred_buckets() {
    assert_eq!(
        density_args(false, None, Some("1d".to_string()), Some(strings(&["*.rs"])), None),
        strings(&["log", "--density", "--buckets", "100", "--since", "1d", "--include", "*.rs"])
    );
    assert_eq!(
        density_args(true, Some(7), None, None, Some(strings(&["x"]))),
        strings(&["log", "--global", "--density", "--buckets", "7", "--exclude", "x"])
    );
}
