use pc::comments::{leaders_for_ext, line_is_dropped, strip_lines};
use pc::strip_comments_for_ext;

#[test]
fn strip_comments_py_removes_full_line_hash_comments_and_blanks() {
    let src = r#"
# top comment
print("hello")  # inline

    # indented comment

print("world")
"#;

    let out = strip_comments_for_ext(src, "py");
    let expected = "print(\"hello\")  # inline\nprint(\"world\")\n";
    assert_eq!(out, expected);
}

#[test]
fn strip_comments_unknown_only_removes_blank_lines() {
    let src = "  # not a comment for unknown\n\nx\n";
    let out = strip_comments_for_ext(src, "foo");
    let expected = "  # not a comment for unknown\nx\n";
    assert_eq!(out, expected);
}

#[test]
fn strip_keeps_code_with_inline_comment() {
    let out = strip_comments_for_ext("# comment\ncode()  # inline\n\n", "py");
    assert_eq!(out, "code()  # inline\n");
}

#[test]
fn strip_extension_is_case_insensitive() {
    let out = strip_comments_for_ext("// c\nfn main() {}\n", "RS");
    assert_eq!(out, "fn main() {}\n");
}

#[test]
fn strip_sql_dash_comments() {
    let out = strip_comments_for_ext("-- note\nSELECT 1;\n  -- more\n", "sql");
    assert_eq!(out, "SELECT 1;\n");
}

#[test]
fn strip_crlf_and_missing_final_newline() {
    let out = strip_comments_for_ext("a\r\n\r\n  b", "txt");
    assert_eq!(out, "a\n  b\n");
}

#[test]
fn strip_empty_text_gives_empty() {
    assert_eq!(strip_comments_for_ext("", "py"), "");
    assert_eq!(strip_comments_for_ext("\n\n   \n", "py"), "");
}

#[test]
fn hash_leader_not_dropped_for_slash_language() {
    let out = strip_comments_for_ext("# not a comment\n", "rs");
    assert_eq!(out, "# not a comment\n");
}

#[test]
fn line_drop_decisions() {
    assert!(line_is_dropped("", "py"));
    assert!(line_is_dropped("# x", "PY"));
    assert!(!line_is_dropped("x = 1 # y", "py"));
    assert!(line_is_dropped("// x", "kt"));
    assert!(!line_is_dropped("# x", "foo"));
    assert!(!line_is_dropped("/ x", "c"));
}

#[test]
fn leader_table() {
    assert_eq!(leaders_for_ext("toml"), vec!["#"]);
    assert_eq!(leaders_for_ext("swift"), vec!["//"]);
    assert_eq!(leaders_for_ext("sql"), vec!["--"]);
    assert!(leaders_for_ext("md").is_empty());
    assert!(leaders_for_ext("PY").is_empty());
}

#[test]
fn strip_given_lines() {
    let lines = vec!["  // c".to_string(), "\u{3000}".to_string(), "let x = 1; // y".to_string()];
    assert_eq!(strip_lines(&lines, "Rs"), "let x = 1; // y\n");
}

#[test]
fn strip_unicode_whitespace_line_is_blank() {
    assert_eq!(strip_comments_for_ext("\u{a0}\u{2003}\nx\n", "foo"), "x\n");
}

#[test]
fn strip_bare_carriage_return_stays() {
    assert_eq!(strip_comments_for_ext("a\rb\n", "foo"), "a\rb\n");
}
