use pc::exclude::{build_exclude_globset, is_excluded, keep_entry, ExcludeError};

fn rules(pats: &[&str]) -> pc::exclude::ExcludeRules {
    let v: Vec<String> = pats.iter().map(|s| s.to_string()).collect();
    build_exclude_globset(&v).ok().unwrap().unwrap()
}

#[test]
fn no_patterns_gives_no_rules() {
    assert!(matches!(build_exclude_globset(&Vec::new()), Ok(None)));
}

#[test]
fn blank_patterns_give_empty_rules() {
    let r = rules(&["  ", ""]);
    assert!(!is_excluded(&r, "src/main.py", false));
}

#[test]
fn invalid_pattern_is_rejected() {
    let v = vec!["ok/**".to_string(), " a[ ".to_string(), "b[".to_string()];
    match build_exclude_globset(&v) {
        Err(e) => {
            assert_eq!(e.message(), "Invalid --exclude glob pattern: a[");
            match e {
                ExcludeError::InvalidPattern(p) => assert_eq!(p, "a["),
                ExcludeError::BuildFailed => panic!("expected a parse error"),
            }
        }
        Ok(_) => panic!("pattern should be rejected"),
    }
}

#[test]
fn exclude_glob_skips_matching_paths() {
    let r = Some(rules(&["tests/**"]));
    assert!(!keep_entry(&r, "/t", "/t/tests/test_example.py", 2, false));
    assert!(keep_entry(&r, "/t", "/t/src/main.py", 2, false));
}

#[test]
fn directory_is_pruned_with_trailing_slash() {
    let r = rules(&["tests/**"]);
    assert!(is_excluded(&r, "tests", true));
    assert!(!is_excluded(&r, "tests", false));
    assert!(!is_excluded(&r, "src", true));
}

#[test]
fn patterns_are_trimmed() {
    let r = rules(&["  *.gen.py "]);
    assert!(is_excluded(&r, "a.gen.py", false));
    assert!(!is_excluded(&r, "a.py", false));
}

#[test]
fn root_is_always_kept() {
    let r = Some(rules(&["**"]));
    assert!(keep_entry(&r, "/t", "/t", 0, true));
    assert!(!keep_entry(&r, "/t", "/t/a", 1, true));
    assert!(keep_entry(&None, "/t", "/t/a", 1, true));
}

#[test]
fn deeply_nested_alternates_fail_to_build() {
    let pat = format!("{}{}", "{a".repeat(300), "}".repeat(300));
    match build_exclude_globset(&vec![pat]) {
        Err(e) => assert_eq!(e.message(), "Failed to build exclude glob set"),
        Ok(_) => panic!("the set should not build"),
    }
}

#[test]
fn several_patterns_in_one_set() {
    let r = rules(&["tests/**", "*.gen.py"]);
    assert!(is_excluded(&r, "tests/a.py", false));
    assert!(is_excluded(&r, "x.gen.py", false));
    assert!(!is_excluded(&r, "src/a.py", false));
}
