//! Matching one literal word.
use vstd::prelude::*;
use crate::char_string::{chars_of, eq_ignore_ascii_case, texts_eq, texts_eq_ignore_ascii_case};
use crate::patterns::Pattern;
use crate::token::Token;

verus! {

/// How the letters of a literal are compared with the text.
#[derive(Clone, Copy, Debug, PartialEq, Eq, Hash, Structural)]
pub enum CasePolicy {
    /// Character for character.
    Exact,
    /// Without regard to the case of ASCII letters.
    AnyCase,
}

/// Whether `text` is the literal `word` under `policy`.
pub open spec fn text_matches(policy: CasePolicy, text: Seq<char>, word: Seq<char>) -> bool {
    match policy {
        CasePolicy::Exact => text == word,
        CasePolicy::AnyCase => eq_ignore_ascii_case(text, word),
    }
}

/// Whether `token` is the word `word`, in any capitalization.
pub open spec fn is_word(token: Token, source: Seq<char>, word: Seq<char>) -> bool {
    token.kind is Word && eq_ignore_ascii_case(token.span.content(source), word)
}

/// Compares `text` with the literal `word` under `policy`.
pub fn compare_text(policy: CasePolicy, text: &[char], word: &[char]) -> (r: bool)
    ensures
        r == text_matches(policy, text@, word@),
{
    match policy {
        CasePolicy::Exact => texts_eq(text, word),
        CasePolicy::AnyCase => texts_eq_ignore_ascii_case(text, word),
    }
}

/// Matches one word token whose text is a given literal.
#[derive(Clone, Debug)]
pub struct Word {
    word: Vec<char>,
    policy: CasePolicy,
}

impl Word {
    /// The literal.
    pub closed spec fn text(&self) -> Seq<char> {
        self.word@
    }

    /// How the literal is compared.
    pub closed spec fn policy(&self) -> CasePolicy {
        self.policy
    }

    /// Matches `word` in any capitalization.
    pub fn new(word: &str) -> (r: Word)
        ensures
            r.text() == word@,
            r.policy() == CasePolicy::AnyCase,
    {
        Word { word: chars_of(word), policy: CasePolicy::AnyCase }
    }

    /// Matches `word` as it is written.
    pub fn new_exact(word: &str) -> (r: Word)
        ensures
            r.text() == word@,
            r.policy() == CasePolicy::Exact,
    {
        Word { word: chars_of(word), policy: CasePolicy::Exact }
    }
}

impl Pattern for Word {
    open spec fn spec_matches(&self, tokens: Seq<Token>, source: Seq<char>) -> Option<nat> {
        if tokens.len() > 0 && tokens[0].kind is Word && text_matches(
            self.policy(),
            tokens[0].span.content(source),
            self.text(),
        ) {
            Some(1)
        } else {
            None
        }
    }

    fn matches(&self, tokens: &[Token], source: &[char]) -> (r: Option<usize>) {
        if tokens.len() == 0 || !tokens[0].kind.is_word() {
            return None;
        }
        assert(tokens@[0].span.fits(source@.len()));
        let text = tokens[0].span.get_content(source);
        if compare_text(self.policy, text, self.word.as_slice()) {
            Some(1)
        } else {
            None
        }
    }
}

} // verus!
