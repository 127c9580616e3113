use typst_pack::error::ConfigError;
use typst_pack::exclude::{has_glob_metacharacters, ExclusionMatcher};

fn matcher(patterns: &[&str], dirs: &[bool]) -> ExclusionMatcher {
    let ps: Vec<String> = patterns.iter().map(|p| p.to_string()).collect();
    match ExclusionMatcher::new(&ps, &dirs.to_vec()) {
        Ok(m) => m,
        Err(e) => panic!("unexpected error: {:?}", e),
    }
}

#[test]
fn glob_metacharacters_are_detected() {
    assert!(has_glob_metacharacters("*.png"));
    assert!(has_glob_metacharacters("file?.typ"));
    assert!(has_glob_metacharacters("[ab].typ"));
    assert!(has_glob_metacharacters("x]"));
    assert!(!has_glob_metacharacters("drafts/"));
    assert!(!has_glob_metacharacters("a{b,c}"));
    assert!(!has_glob_metacharacters(""));
}

#[test]
fn star_glob_stays_at_one_level() {
    let m = matcher(&["*.png"], &[false]);
    assert!(m.is_excluded("image.png"));
    assert!(!m.is_excluded("sub/image.png"));
    assert!(!m.is_excluded("image.jpg"));
}

#[test]
fn nested_glob_matches_only_its_level() {
    let m = matcher(&["sub/*.png"], &[false]);
    assert!(m.is_excluded("sub/image.png"));
    assert!(!m.is_excluded("image.png"));
    assert!(!m.is_excluded("sub/deeper/image.png"));
}

#[test]
fn question_mark_and_class_globs() {
    let m = matcher(&["note?.txt", "[ab].typ"], &[false, false]);
    assert!(m.is_excluded("note1.txt"));
    assert!(!m.is_excluded("note12.txt"));
    assert!(m.is_excluded("a.typ"));
    assert!(!m.is_excluded("c.typ"));
}

#[test]
fn existing_directory_rule_excludes_subtree_only() {
    let m = matcher(&["foo"], &[true]);
    assert!(m.is_excluded("foo"));
    assert!(m.is_excluded("foo/bar.typ"));
    assert!(m.is_excluded("foo/deep/er.typ"));
    assert!(!m.is_excluded("foobar"));
    assert!(!m.is_excluded("foobar/x.typ"));
    assert!(!m.is_excluded("other/foo"));
}

#[test]
fn trailing_slash_makes_a_directory_rule() {
    let m = matcher(&["drafts/"], &[false]);
    assert!(m.is_excluded("drafts"));
    assert!(m.is_excluded("drafts/old.typ"));
    assert!(!m.is_excluded("drafts2"));
}

#[test]
fn literal_file_rule_is_exact() {
    let m = matcher(&["notes.md"], &[false]);
    assert!(m.is_excluded("notes.md"));
    assert!(!m.is_excluded("notes.md/inner"));
    assert!(!m.is_excluded("sub/notes.md"));
}

#[test]
fn no_patterns_exclude_nothing() {
    let m = matcher(&[], &[]);
    assert!(!m.is_excluded("main.typ"));
    assert!(!m.is_excluded(""));
}

#[test]
fn exclusion_is_repeatable() {
    let m = matcher(&["*.tmp", "drafts/"], &[false, false]);
    for p in ["a.tmp", "drafts/x", "main.typ", "drafts"] {
        assert_eq!(m.is_excluded(p), m.is_excluded(p));
    }
    assert!(m.is_excluded("a.tmp"));
    assert!(!m.is_excluded("main.typ"));
}

#[test]
fn invalid_glob_is_rejected() {
    let ps = vec!["ok.typ".to_string(), "[unclosed".to_string()];
    match ExclusionMatcher::new(&ps, &vec![false, false]) {
        Err(ConfigError::InvalidPattern { pattern, reason }) => {
            assert_eq!(pattern, "[unclosed");
            assert!(!reason.is_empty());
        }
        Err(e) => panic!("wrong error: {:?}", e),
        Ok(_) => panic!("an unclosed class must be refused"),
    }
}
