use unfudged::command_scan::{scan, split_lines};

#[test]
fn fixture_doc_comment_between_attr_and_fn() {
    let src = "#[tauri::command]\n/// Doc\npub async fn f() {}\n";
    assert!(scan(src, "fixture").is_empty());
}

#[test]
fn fixture_stacked_allow_attr() {
    let src = "#[allow(clippy::too_many_arguments)]\n#[tauri::command]\npub async fn f() {}\n";
    assert!(scan(src, "fixture").is_empty());
}

#[test]
fn fixture_renamed_command() {
    let src = "#[tauri::command(rename = \"foo\")]\npub async fn f() {}\n";
    assert!(scan(src, "fixture").is_empty());
}

#[test]
fn fixture_pub_crate_async() {
    let src = "#[tauri::command]\npub(crate) async fn f() {}\n";
    assert!(scan(src, "fixture").is_empty());
}

#[test]
fn fixture_bare_async() {
    let src = "#[tauri::command]\nasync fn f() {}\n";
    assert!(scan(src, "fixture").is_empty());
}

#[test]
fn fixture_sync_pub_fn() {
    let src = "#[tauri::command]\npub fn f() {}\n";
    let errs = scan(src, "fixture");
    assert_eq!(errs.len(), 1, "expected one scan error, got {errs:?}");
    assert_eq!(errs[0].attr_line, 1);
    assert!(errs[0].offending.contains("pub fn f()"));
}

#[test]
fn scan_reports_every_site_with_its_line() {
    let src = "fn a() {}\n#[tauri::command]\nfn b() {}\n\n#[ tauri::command ]\n  // not a doc comment\nasync fn c() {}\n#[tauri::command]\n";
    let errs = scan(src, "file.rs");
    assert_eq!(errs.len(), 3);
    assert_eq!(errs[0].attr_line, 2);
    assert_eq!(errs[0].offending, "fn b() {}");
    assert_eq!(errs[1].attr_line, 5);
    assert_eq!(errs[1].offending, "  // not a doc comment");
    assert_eq!(errs[2].attr_line, 8);
    assert_eq!(errs[2].offending, "");
    assert_eq!(errs[2].source, "file.rs");
}

#[test]
fn attribute_shapes() {
    assert!(scan("#[tauri::commandx]\nfn f() {}\n", "x").is_empty());
    assert_eq!(scan("  #[tauri::command()]  \npub(super) fn f() {}\n", "x").len(), 1);
    assert!(scan("#[tauri::command]\npub(super) async  fn  f() {}\n", "x").is_empty());
    assert_eq!(scan("#[tauri::command]\npub(Crate) async fn f() {}\n", "x").len(), 1);
    assert_eq!(scan("#[tauri::command]\nasync fn (\n", "x").len(), 1);
}

#[test]
fn lines_split_like_str_lines() {
    for text in ["", "a", "a\n", "a\r\nb", "a\n\nb\n", "a\r", "\n", "x\r\n"] {
        let expected: Vec<&str> = text.lines().collect();
        assert_eq!(split_lines(text), expected, "text {:?}", text);
    }
}
