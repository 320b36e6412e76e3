use fuzzy_matcher::skim::SkimMatcherV2;
use fuzzy_matcher::FuzzyMatcher;

use wt::fuzzy::{combine_scores, fuzzy_scorer};

fn score(input: &str, line: &str) -> Option<i64> {
    fuzzy_scorer(input, &String::new(), line, 0)
}

#[test]
fn blank_query_matches_every_line() {
    assert_eq!(score("", "anything"), Some(0));
    assert_eq!(score(" \t", "anything"), Some(0));
    assert_eq!(score("", ""), Some(0));
}

#[test]
fn single_term_scores_what_the_matcher_says() {
    let matcher = SkimMatcherV2::default();
    for line in ["main", "feature/foo", "repo: fix-bar", "Makefile", ""] {
        for term in ["m", "fo", "fb", "MF", "mf", "zz", "feature"] {
            assert_eq!(score(term, line), matcher.fuzzy_match(line, term), "{} {}", term, line);
        }
    }
}

#[test]
fn scores_have_exact_values() {
    let line = "feature/foo";
    let scores = [score("foo", line), score("feat", line), score("feat foo", line)];
    assert_eq!(scores, [Some(63), Some(91), Some(154)]);
}

#[test]
fn terms_match_in_order_and_in_any_case() {
    assert!(score("ffoo", "feature/foo").is_some());
    assert!(score("oof", "feature/foo").is_none());
    assert!(score("foo", "FOO").is_some());
}

#[test]
fn capital_in_a_term_asks_for_capitals() {
    assert!(score("Foo", "foo").is_none());
    assert!(score("Foo", "Foo").is_some());
    assert!(score("fOO", "foo").is_none());
}

#[test]
fn all_terms_must_match() {
    assert!(score("foo zzz", "feature/foo").is_none());
    assert!(score("zzz foo", "feature/foo").is_none());
    assert!(score("foo feat", "feature/foo").is_some());
}

#[test]
fn scores_of_the_terms_add_up() {
    let line = "repo: feature/foo-bar";
    let together = score("foo bar re", line).unwrap();
    let apart = score("foo", line).unwrap() + score("bar", line).unwrap()
        + score("re", line).unwrap();
    assert_eq!(together, apart);
}

#[test]
fn order_of_the_terms_does_not_matter() {
    let line = "repo: feature/foo-bar";
    assert_eq!(score("foo bar", line), score("bar foo", line));
    assert_eq!(score("foo nope", line), score("nope foo", line));
}

#[test]
fn line_is_scored_whatever_its_option_and_place() {
    let option = "other".to_string();
    assert_eq!(fuzzy_scorer("foo", &option, "foo", 7), score("foo", "foo"));
}

#[test]
fn scores_are_combined_to_their_sum() {
    assert_eq!(combine_scores(&vec![]), Some(0));
    assert_eq!(combine_scores(&vec![Some(40), Some(-3), Some(5)]), Some(42));
    assert_eq!(combine_scores(&vec![Some(40), None, Some(5)]), None);
}
