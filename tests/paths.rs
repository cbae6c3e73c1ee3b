use pc::paths::{display_from_parts, ext_in_set};
use pc::text::normalize_for_matching;
use pc::{make_display_path, matches_ext};

#[test]
fn matches_ext_is_case_insensitive_and_requires_extension() {
    let exts = vec!["py".to_string()];

    assert!(matches_ext("foo.PY", &exts));
    assert!(matches_ext("dir/bar.py", &exts));
    assert!(!matches_ext("README", &exts));
    assert!(!matches_ext("script.sh", &exts));
}

#[test]
fn matches_ext_edge_cases() {
    let exts = vec!["py".to_string(), "rs".to_string()];
    assert!(!matches_ext(".py", &exts));
    assert!(matches_ext("a/b.c.RS", &exts));
    assert!(!matches_ext("src/", &exts));
    assert!(!matches_ext("a.pyc", &exts));
}

#[test]
fn ext_in_set_lowercases() {
    let exts = vec!["json".to_string()];
    assert!(ext_in_set("JSON", &exts));
    assert!(ext_in_set("Json", &exts));
    assert!(!ext_in_set("jso", &exts));
    assert!(!ext_in_set("JSÖN", &vec!["jsön".to_string()]));
}

#[test]
fn display_path_is_relative_and_slashed() {
    assert_eq!(make_display_path("/repo", "/repo/src/main.py"), "src/main.py");
    assert_eq!(make_display_path("/repo/", "/repo/tests/test_example.py"), "tests/test_example.py");
}

#[test]
fn display_path_of_file_root_is_file_name() {
    assert_eq!(make_display_path("/repo/src/main.rs", "/repo/src/main.rs"), "main.rs");
}

#[test]
fn display_path_outside_root_is_path() {
    assert_eq!(make_display_path("/other", "/repo/a.py"), "/repo/a.py");
}

#[test]
fn display_path_same_for_same_root() {
    let a = make_display_path("/work/repo", "/work/repo/node_modules/package.json");
    let b = make_display_path("/work/repo", "/work/repo/node_modules/package.json");
    assert_eq!(a, "node_modules/package.json");
    assert_eq!(a, b);
}

#[test]
fn display_from_parts_cases() {
    assert_eq!(display_from_parts("/r/x", Some("a\\b"), Some("x")), "a/b");
    assert_eq!(display_from_parts("/r/x", Some(""), Some("x")), "x");
    assert_eq!(display_from_parts("/", Some(""), None), "/");
    assert_eq!(display_from_parts("p\\q", None, Some("q")), "p/q");
}

#[test]
fn normalize_replaces_backslashes() {
    assert_eq!(normalize_for_matching("a\\b\\c.py"), "a/b/c.py");
    assert_eq!(normalize_for_matching(""), "");
}
