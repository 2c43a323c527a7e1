use harper_core::lint::{case_pattern_of, CasePattern};
use harper_core::{Lint, LintKind, Span, Suggestion};

fn chars(text: &str) -> Vec<char> {
    text.chars().collect()
}

fn match_case(value: &str, template: &str) -> String {
    let suggestion = Suggestion::replace_with_match_case(chars(value), &chars(template));
    suggestion.chars().iter().collect()
}

#[test]
fn case_patterns() {
    assert_eq!(case_pattern_of(&chars("TO")), CasePattern::AllCaps);
    assert_eq!(case_pattern_of(&chars("HTML")), CasePattern::AllCaps);
    assert_eq!(case_pattern_of(&chars("To")), CasePattern::Capitalized);
    assert_eq!(case_pattern_of(&chars("A")), CasePattern::Capitalized);
    assert_eq!(case_pattern_of(&chars("An")), CasePattern::Capitalized);
    assert_eq!(case_pattern_of(&chars("TOo")), CasePattern::Capitalized);
    assert_eq!(case_pattern_of(&chars("T2")), CasePattern::Capitalized);
    assert_eq!(case_pattern_of(&chars("to")), CasePattern::Lower);
    assert_eq!(case_pattern_of(&chars("tO")), CasePattern::Lower);
    assert_eq!(case_pattern_of(&chars("")), CasePattern::Lower);
    assert_eq!(case_pattern_of(&chars("1A")), CasePattern::Lower);
    assert_eq!(case_pattern_of(&chars("Éa")), CasePattern::Lower);
}

#[test]
fn all_caps_in_all_caps_out() {
    assert_eq!(match_case("too", "TO"), "TOO");
    assert_eq!(match_case("an", "AN"), "AN");
    assert_eq!(match_case("a", "AN"), "A");
}

#[test]
fn capitalized_in_capitalized_out() {
    assert_eq!(match_case("too", "To"), "Too");
    assert_eq!(match_case("an", "A"), "An");
    assert_eq!(match_case("a", "An"), "A");
}

#[test]
fn lowercase_in_lowercase_out() {
    assert_eq!(match_case("too", "to"), "too");
    assert_eq!(match_case("an", "a"), "an");
    assert_eq!(match_case("a", "an"), "a");
    assert_eq!(match_case("too", "tO"), "too");
    assert_eq!(match_case("too", ""), "too");
}

#[test]
fn only_ascii_letters_change() {
    assert_eq!(match_case("a b-c", "XY"), "A B-C");
    assert_eq!(match_case("1st", "Go"), "1st");
    assert_eq!(match_case("", "GO"), "");
    assert_eq!(match_case("", "Go"), "");
}

#[test]
fn suggestion_from_a_string() {
    let suggestion = Suggestion::replace_with_str("the feather");
    assert_eq!(suggestion, Suggestion::ReplaceWith(chars("the feather")));
    assert_eq!(suggestion.chars(), &chars("the feather")[..]);
}

#[test]
fn a_lint_may_carry_no_suggestion() {
    let lint = Lint {
        span: Span::new(2, 4),
        lint_kind: LintKind::Punctuation,
        suggestions: Vec::new(),
        message: "Look here.".to_owned(),
        priority: 0,
    };
    assert!(lint.suggestions.is_empty());
    assert_eq!(lint.clone(), lint);
}
