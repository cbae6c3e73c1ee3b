use pc::config::{
    file_content, normalize_exts, plan_file, strip_leading_dots, FileAction, RunEvent, RunStatus,
};
use pc::Config;

fn cfg(exts: &[&str], max_bytes: Option<u64>) -> Config {
    Config {
        exts: exts.iter().map(|s| s.to_string()).collect(),
        paths: vec![".".to_string()],
        follow_symlinks: false,
        no_gitignore: false,
        json: false,
        excludes: Vec::new(),
        max_bytes,
        strip_comments: false,
        end_marker: false,
    }
}

#[test]
fn normalize_extensions() {
    let raw = vec![" .PY".to_string(), "py".to_string(), "..rs".to_string(), " ".to_string()];
    let v = normalize_exts(&raw).unwrap();
    assert_eq!(v, vec!["py".to_string(), "rs".to_string()]);
}

#[test]
fn normalize_rejects_all_empty() {
    let raw = vec![" ".to_string(), ".".to_string()];
    assert_eq!(
        normalize_exts(&raw),
        Err("No valid extensions provided (after normalisation).".to_string())
    );
}

#[test]
fn leading_dots() {
    assert_eq!(strip_leading_dots("..a.b"), "a.b");
    assert_eq!(strip_leading_dots("..."), "");
}

#[test]
fn unlisted_extension_skipped() {
    let c = cfg(&["py"], None);
    assert!(matches!(plan_file(&c, true, "/r/src/ignored.txt", "src/ignored.txt", Some(3)), FileAction::Skip));
    assert!(matches!(plan_file(&c, true, "/r/src/main.py", "src/main.py", Some(3)), FileAction::Emit));
    assert!(matches!(plan_file(&c, false, "/r/dir.py", "dir.py", None), FileAction::Skip));
}

#[test]
fn large_file_is_skipped_with_message() {
    let c = cfg(&["py"], Some(50));
    match plan_file(&c, true, "/r/big.py", "big.py", Some(110)) {
        FileAction::TooLarge(m) => {
            assert!(m.contains("big.py"));
            assert!(m.contains("110"));
            assert!(m.contains("50"));
        }
        _ => panic!("expected a size skip"),
    }
    assert!(matches!(plan_file(&c, true, "/r/ok.py", "ok.py", Some(50)), FileAction::Emit));
    assert!(matches!(plan_file(&c, true, "/r/u.py", "u.py", None), FileAction::Emit));
}

#[test]
fn content_transform() {
    let t = "# c\nx = 1\n".to_string();
    assert_eq!(file_content(t.clone(), "/r/a.py", true), "x = 1\n");
    assert_eq!(file_content(t.clone(), "/r/a.py", false), t);
    assert_eq!(file_content("# c\n\nx\n".to_string(), "/r/Makefile", true), "# c\nx\n");
}

#[test]
fn size_skip_is_not_a_failure() {
    let mut s = RunStatus::new();
    s.record(RunEvent::SkippedForSize);
    assert!(!s.had_error);
    s.record(RunEvent::ReadFailed);
    assert!(s.had_error);
    s.record(RunEvent::SkippedForSize);
    assert!(s.had_error);
}
