use pal::glob::{choose_entry, glob_match, within_depth, ScanOptions};
use pal::text::{
    ends_with, find_char, join, join_path, lines, replace, rfind_char, split_char, starts_with,
    strip_prefix, trim,
};

#[test]
fn join_puts_separator_between_parts() {
    let parts = vec!["x".to_string(), "y".to_string(), "z".to_string()];
    assert_eq!(join(&parts, "\n"), "x\ny\nz");
    assert_eq!(join(&Vec::new(), ","), "");
}

#[test]
fn prefixes_suffixes_and_positions() {
    assert!(starts_with("builtin/x", "builtin/"));
    assert!(!starts_with("b", "builtin/"));
    assert!(ends_with("data.toml", ".toml"));
    assert_eq!(strip_prefix("github:a/b", "github:"), Some("a/b"));
    assert_eq!(find_char("a/b/c", '/'), Some(1));
    assert_eq!(rfind_char("a@b@c", '@'), Some(3));
    assert_eq!(rfind_char("abc", '@'), None);
}

#[test]
fn path_join_follows_unix_paths() {
    assert_eq!(join_path("/a", "b"), "/a/b");
    assert_eq!(join_path("/a/", "b"), "/a/b");
    assert_eq!(join_path("", "b"), "b");
    assert_eq!(join_path("/a", "/b"), "/b");
}

#[test]
fn glob_patterns() {
    assert!(glob_match("anything", "*"));
    assert!(glob_match("Notes.TXT", "*.txt"));
    assert!(glob_match("abc", "a?c"));
    assert!(!glob_match("abcd", "a?c"));
    assert!(glob_match("", "*"));
    assert!(!glob_match("x", ""));
    assert!(glob_match("a-b-c", "a*b*c"));
}

#[test]
fn scan_options_and_entry_choice() {
    let d = ScanOptions::default();
    assert_eq!(d.max_depth, 3);
    assert!(!d.hidden && !d.dirs_only && !d.files_only);
    assert!(d.pattern.is_none() && d.extension.is_none());
    let opts = ScanOptions { extension: Some("desktop"), max_depth: 0, ..ScanOptions::default() };
    let c = choose_entry(&opts, "firefox.desktop", Some("desktop"), false);
    assert!(c.keep && !c.descend);
    let c = choose_entry(&opts, "notes.txt", Some("txt"), false);
    assert!(!c.keep);
    let c = choose_entry(&opts, ".hidden.desktop", Some("desktop"), false);
    assert!(!c.keep && !c.descend);
    let dirs = ScanOptions { dirs_only: true, pattern: Some("pro*"), ..ScanOptions::default() };
    assert!(choose_entry(&dirs, "projects", None, true).keep);
    assert!(!choose_entry(&dirs, "projects", None, false).keep);
    assert!(within_depth(&opts, 0));
    assert!(!within_depth(&opts, 1));
}

#[test]
fn lines_split_at_newlines_and_drop_carriage_returns() {
    assert_eq!(lines("a\r\nb\n\nc\n"), vec!["a", "b", "", "c"]);
    assert_eq!(lines("one\rtwo\r"), vec!["one\rtwo\r"]);
    assert!(lines("").is_empty());
    assert_eq!(lines("\n"), vec![""]);
}

#[test]
fn split_keeps_empty_pieces() {
    assert_eq!(split_char("palettes/pals", '/'), vec!["palettes", "pals"]);
    assert_eq!(split_char("", '/'), vec![""]);
    assert_eq!(split_char("/a/", '/'), vec!["", "a", ""]);
}

#[test]
fn replace_is_left_to_right_and_not_overlapping() {
    assert_eq!(replace("aaa", "aa", "b"), "ba");
    assert_eq!(replace("{{q}} and {{q}}", "{{q}}", "x"), "x and x");
    assert_eq!(replace("é{{q}}ü", "{{q}}", ""), "éü");
}

#[test]
fn trim_removes_unicode_white_space() {
    assert_eq!(trim("\u{a0} hi \n"), "hi");
    assert_eq!(trim("   "), "");
    assert_eq!(trim("x"), "x");
}
