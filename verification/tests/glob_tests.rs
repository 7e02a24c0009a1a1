use fixture_fs::error::FixtureError;
use fixture_fs::glob::{compile_patterns, matches_any, Pattern};

fn segs(parts: &[&str]) -> Vec<String> {
    parts.iter().map(|s| s.to_string()).collect()
}

fn pat(text: &str) -> Pattern {
    match Pattern::compile(text) {
        Some(p) => p,
        None => panic!("pattern should compile"),
    }
}

#[test]
fn star_stays_within_a_segment() {
    let p = pat("*.txt");
    assert!(p.matches(&segs(&["a.txt"])));
    assert!(p.matches(&segs(&[".txt"])));
    assert!(!p.matches(&segs(&["a.rs"])));
    assert!(!p.matches(&segs(&["sub", "a.txt"])));
}

#[test]
fn question_mark_matches_one_character() {
    let p = pat("a?.rs");
    assert!(p.matches(&segs(&["ab.rs"])));
    assert!(!p.matches(&segs(&["a.rs"])));
    assert!(!p.matches(&segs(&["abc.rs"])));
}

#[test]
fn globstar_crosses_segment_boundaries() {
    let p = pat("**/*.txt");
    assert!(p.matches(&segs(&["a.txt"])));
    assert!(p.matches(&segs(&["x", "a.txt"])));
    assert!(p.matches(&segs(&["x", "y", "a.txt"])));
    assert!(!p.matches(&segs(&["x", "y", "a.rs"])));
}

#[test]
fn globstar_spans_zero_or_more_whole_segments() {
    let p = pat("sub/**");
    assert!(p.matches(&segs(&["sub"])));
    assert!(p.matches(&segs(&["sub", "x"])));
    assert!(p.matches(&segs(&["sub", "x", "y"])));
    assert!(!p.matches(&segs(&["other"])));
}

#[test]
fn doubled_star_inside_a_segment_is_plain_stars() {
    let p = pat("a**b");
    assert!(p.matches(&segs(&["ab"])));
    assert!(p.matches(&segs(&["axxb"])));
    assert!(!p.matches(&segs(&["a", "b"])));
}

#[test]
fn class_lists_members() {
    let p = pat("[abc]x");
    assert!(p.matches(&segs(&["ax"])));
    assert!(p.matches(&segs(&["cx"])));
    assert!(!p.matches(&segs(&["dx"])));
}

#[test]
fn class_range_is_inclusive() {
    let p = pat("[a-c]x");
    assert!(p.matches(&segs(&["ax"])));
    assert!(p.matches(&segs(&["bx"])));
    assert!(p.matches(&segs(&["cx"])));
    assert!(!p.matches(&segs(&["dx"])));
}

#[test]
fn negated_class_excludes_members() {
    let p = pat("[!a-c]x");
    assert!(p.matches(&segs(&["dx"])));
    assert!(!p.matches(&segs(&["bx"])));
}

#[test]
fn bracket_right_after_open_is_a_member() {
    let p = pat("[]]x");
    assert!(p.matches(&segs(&["]x"])));
    assert!(!p.matches(&segs(&["ax"])));
}

#[test]
fn trailing_dash_is_a_member() {
    let p = pat("[a-]x");
    assert!(p.matches(&segs(&["ax"])));
    assert!(p.matches(&segs(&["-x"])));
    assert!(!p.matches(&segs(&["bx"])));
}

#[test]
fn unclosed_class_does_not_compile() {
    assert!(Pattern::compile("[abc").is_none());
    assert!(Pattern::compile("x[").is_none());
}

#[test]
fn reversed_range_does_not_compile() {
    assert!(Pattern::compile("[z-a]").is_none());
}

#[test]
fn empty_pattern_matches_only_the_empty_path() {
    let p = pat("");
    assert!(p.matches(&segs(&[])));
    assert!(!p.matches(&segs(&["a"])));
}

#[test]
fn pattern_set_is_a_logical_or() {
    let pats = match compile_patterns(&segs(&["*.txt", "*.md"])) {
        Ok(ps) => ps,
        Err(_) => panic!("patterns should compile"),
    };
    assert!(matches_any(&pats, &segs(&["a.txt"])));
    assert!(matches_any(&pats, &segs(&["b.md"])));
    assert!(!matches_any(&pats, &segs(&["c.rs"])));
    assert!(!matches_any(&Vec::new(), &segs(&["c.rs"])));
}

#[test]
fn compile_patterns_names_the_first_offender() {
    let r = compile_patterns(&segs(&["*.txt", "[oops", "*.md"]));
    assert_eq!(r, Err(FixtureError::Pattern { index: 1 }));
}
