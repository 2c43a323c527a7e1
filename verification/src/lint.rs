//! What a rule reports: a range of text, what is wrong there, and how to
//! mend it.
use vstd::prelude::*;
use crate::char_string::{ascii_upper, chars_of, is_ascii_lower, is_ascii_upper, to_ascii_uppercase};
use crate::span::Span;

verus! {

/// The category of a finding.
#[derive(Clone, Copy, Debug, PartialEq, Eq, Hash, Structural)]
pub enum LintKind {
    Agreement,
    BoundaryError,
    Capitalization,
    Eggcorn,
    Enhancement,
    Formatting,
    Grammar,
    Malapropism,
    Miscellaneous,
    Nonstandard,
    Punctuation,
    Readability,
    Redundancy,
    Regionalism,
    Repetition,
    Spelling,
    Style,
    Typo,
    Usage,
    WordChoice,
}

/// How the capitals of a text are laid out.
#[derive(Clone, Copy, Debug, PartialEq, Eq, Hash, Structural)]
pub enum CasePattern {
    /// Two or more characters, each an ASCII capital.
    AllCaps,
    /// The first character is an ASCII capital, and the text is not
    /// [`CasePattern::AllCaps`]. A single capital letter falls here.
    Capitalized,
    /// Anything else.
    Lower,
}

/// Whether `text` has two or more characters, each an ASCII capital.
pub open spec fn is_all_caps(text: Seq<char>) -> bool {
    &&& text.len() >= 2
    &&& forall|i: int| 0 <= i < text.len() ==> is_ascii_upper(#[trigger] text[i])
}

/// The layout of the capitals of `text`.
pub open spec fn case_pattern(text: Seq<char>) -> CasePattern {
    if is_all_caps(text) {
        CasePattern::AllCaps
    } else if text.len() >= 1 && is_ascii_upper(text[0]) {
        CasePattern::Capitalized
    } else {
        CasePattern::Lower
    }
}

/// `text` with every ASCII lowercase letter replaced by its capital.
pub open spec fn upper_of(text: Seq<char>) -> Seq<char> {
    Seq::new(text.len(), |i: int| ascii_upper(text[i]))
}

/// `text` with its first character replaced by its capital.
pub open spec fn capitalized(text: Seq<char>) -> Seq<char> {
    if text.len() == 0 {
        text
    } else {
        text.update(0, ascii_upper(text[0]))
    }
}

/// The replacement `value`, written with the capitals of `template`: all in
/// capitals where the template is, with a leading capital where the template
/// has one, and unchanged otherwise.
pub open spec fn match_case(value: Seq<char>, template: Seq<char>) -> Seq<char> {
    match case_pattern(template) {
        CasePattern::AllCaps => upper_of(value),
        CasePattern::Capitalized => capitalized(value),
        CasePattern::Lower => value,
    }
}

/// Case preservation: a lowercase replacement of two or more letters, written
/// with the capitals of the text that it replaces, has that text's case
/// pattern. Of any length, it is all capitals where the text is all capitals,
/// it begins with a capital where the text does, and it is left alone
/// otherwise.
pub proof fn lemma_match_case_keeps_pattern(value: Seq<char>, template: Seq<char>)
    requires
        forall|i: int| 0 <= i < value.len() ==> is_ascii_lower(#[trigger] value[i]),
    ensures
        match_case(value, template).len() == value.len(),
        value.len() >= 2 ==> case_pattern(match_case(value, template)) == case_pattern(template),
        case_pattern(template) == CasePattern::AllCaps ==> forall|i: int|
            0 <= i < value.len() ==> is_ascii_upper(#[trigger] match_case(value, template)[i]),
        case_pattern(template) == CasePattern::Capitalized && value.len() >= 1 ==> is_ascii_upper(
            match_case(value, template)[0],
        ),
        case_pattern(template) == CasePattern::Lower ==> match_case(value, template) == value,
{
    let out = match_case(value, template);
    if case_pattern(template) == CasePattern::AllCaps {
        assert forall|i: int| 0 <= i < value.len() implies is_ascii_upper(#[trigger] out[i]) by {
            assert(is_ascii_lower(value[i]));
        }
    } else if case_pattern(template) == CasePattern::Capitalized {
        if value.len() >= 1 {
            assert(is_ascii_lower(value[0]));
            assert(is_ascii_upper(out[0]));
            if value.len() >= 2 {
                assert(out[1] == value[1]);
                assert(is_ascii_lower(value[1]));
                assert(!is_ascii_upper(out[1]));
            }
        }
    } else {
        if value.len() >= 1 {
            assert(is_ascii_lower(value[0]));
        }
    }
}

/// Classifies the capitals of `text`.
pub fn case_pattern_of(text: &[char]) -> (r: CasePattern)
    ensures
        r == case_pattern(text@),
{
    if text.len() == 0 || !(text[0] >= 'A' && text[0] <= 'Z') {
        return CasePattern::Lower;
    }
    if text.len() < 2 {
        return CasePattern::Capitalized;
    }
    let mut i: usize = 1;
    while i < text.len()
        invariant
            1 <= i <= text.len(),
            forall|j: int| 0 <= j < i ==> is_ascii_upper(#[trigger] text@[j]),
        decreases text.len() - i,
    {
        if !(text[i] >= 'A' && text[i] <= 'Z') {
            assert(!is_ascii_upper(text@[i as int]));
            return CasePattern::Capitalized;
        }
        i += 1;
    }
    CasePattern::AllCaps
}

/// A proposed mend for the text that a lint covers.
///
/// A suggestion carries no range of its own: it is read against the range of
/// the lint that owns it.
#[derive(Clone, Debug, PartialEq, Eq, Hash)]
pub enum Suggestion {
    /// Put these characters in place of the text.
    ReplaceWith(Vec<char>),
}

impl View for Suggestion {
    type V = Seq<char>;

    /// The characters to put in place of the text.
    open spec fn view(&self) -> Seq<char> {
        match *self {
            Suggestion::ReplaceWith(chars) => chars@,
        }
    }
}

impl Suggestion {
    /// Suggests the characters of `text`.
    pub fn replace_with_str(text: &str) -> (r: Suggestion)
        ensures
            r@ == text@,
    {
        Suggestion::ReplaceWith(chars_of(text))
    }

    /// Suggests `value`, written with the capitals of `template`, the text to
    /// be replaced.
    pub fn replace_with_match_case(value: Vec<char>, template: &[char]) -> (r: Suggestion)
        ensures
            r@ == match_case(value@, template@),
    {
        let mut value = value;
        match case_pattern_of(template) {
            CasePattern::AllCaps => {
                let ghost original = value@;
                let mut i: usize = 0;
                while i < value.len()
                    invariant
                        i <= value.len(),
                        value@.len() == original.len(),
                        forall|j: int| 0 <= j < i ==> value@[j] == ascii_upper(original[j]),
                        forall|j: int| i <= j < value.len() ==> value@[j] == original[j],
                    decreases value.len() - i,
                {
                    let upper = to_ascii_uppercase(value[i]);
                    value.set(i, upper);
                    i += 1;
                }
                proof {
                    assert(value@ =~= upper_of(original));
                }
            },
            CasePattern::Capitalized => {
                if value.len() > 0 {
                    let upper = to_ascii_uppercase(value[0]);
                    value.set(0, upper);
                }
            },
            CasePattern::Lower => {},
        }
        Suggestion::ReplaceWith(value)
    }

    /// The characters to put in place of the text.
    pub fn chars(&self) -> (r: &[char])
        ensures
            r@ == self@,
    {
        match self {
            Suggestion::ReplaceWith(chars) => chars.as_slice(),
        }
    }
}

/// The views of a sequence of suggestions.
pub open spec fn suggestion_views(suggestions: Seq<Suggestion>) -> Seq<Seq<char>> {
    Seq::new(suggestions.len(), |i: int| suggestions[i]@)
}

/// A finding of a rule.
#[derive(Clone, Debug, PartialEq, Eq, Hash)]
pub struct Lint {
    /// The text at fault.
    pub span: Span,
    /// The category of the finding.
    pub lint_kind: LintKind,
    /// Mends, the preferred one first. May be empty.
    pub suggestions: Vec<Suggestion>,
    /// What is wrong, for people.
    pub message: String,
    /// The finding's rank among findings of other rules. A lower number
    /// claims precedence more strongly.
    pub priority: u8,
}

/// A [`Lint`] as a mathematical value.
pub struct LintView {
    pub span: Span,
    /// The category of the finding.
    pub lint_kind: LintKind,
    pub suggestions: Seq<Seq<char>>,
    pub message: Seq<char>,
    pub priority: u8,
}

impl View for Lint {
    type V = LintView;

    open spec fn view(&self) -> LintView {
        LintView {
            span: self.span,
            lint_kind: self.lint_kind,
            suggestions: suggestion_views(self.suggestions@),
            message: self.message@,
            priority: self.priority,
        }
    }
}

/// The views of a sequence of lints.
pub open spec fn lint_views(lints: Seq<Lint>) -> Seq<LintView> {
    Seq::new(lints.len(), |i: int| lints[i]@)
}

/// Whether the lints come in text order without sharing any text: each ends
/// no later than the next one starts.
pub open spec fn lints_disjoint(lints: Seq<LintView>) -> bool {
    forall|i: int, j: int|
        0 <= i < j < lints.len() ==> (#[trigger] lints[i]).span.end <= (#[trigger] lints[j]).span.start
}

/// Lints that come in text order share no text: no two of them overlap.
pub proof fn lemma_disjoint_lints_do_not_overlap(lints: Seq<LintView>, i: int, j: int)
    requires
        lints_disjoint(lints),
        0 <= i < lints.len(),
        0 <= j < lints.len(),
        i != j,
    ensures
        !lints[i].span.spec_overlaps_with(lints[j].span),
{
    if i < j {
        assert(lints[i].span.end <= lints[j].span.start);
    } else {
        assert(lints[j].span.end <= lints[i].span.start);
    }
}

} // verus!
