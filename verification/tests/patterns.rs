use contact_book::pattern::{run_compiled, search};

#[test]
fn search_finds_a_match_anywhere() {
    assert!(search("b+", "aabba"));
    assert!(!search("b+", "aaa"));
    assert!(search("", "anything"));
}

#[test]
fn search_with_anchors_matches_the_whole_text() {
    assert!(search("^ab$", "ab"));
    assert!(!search("^ab$", "abc"));
    assert!(!search("^ab$", "cab"));
}

#[test]
fn search_with_a_broken_pattern_finds_nothing() {
    assert!(!search("foo(bar", "foo(bar"));
    assert!(!search("[", "["));
}

#[test]
fn search_depends_on_the_pattern_and_on_the_text() {
    assert!(search("a", "a"));
    assert!(!search("a", "b"));
    assert!(!search("b", "a"));
}

#[test]
fn run_compiled_reports_no_match_for_a_refused_pattern() {
    assert!(!run_compiled(regex::Regex::new("("), "("));
    assert!(run_compiled(regex::Regex::new("^x+$"), "xxx"));
    assert!(!run_compiled(regex::Regex::new("^x+$"), "xxy"));
}

#[test]
fn run_compiled_goes_by_the_expression_it_is_given() {
    let folded = regex::RegexBuilder::new("^a$").case_insensitive(true).build();
    assert!(run_compiled(folded, "A"));
    assert!(!run_compiled(regex::Regex::new("^a$"), "A"));
    assert!(!search("^a$", "A"));
    assert!(search("^a$", "a"));
}
