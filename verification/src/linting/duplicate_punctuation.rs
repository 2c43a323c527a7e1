//! Repeated punctuation that should be a single mark.
use vstd::prelude::*;
use crate::document::Document;
use crate::lint::{lint_views, lints_disjoint, Lint, LintView};
use crate::linting::punctuation_clusters::{cluster_lints, glyph_of, is_cluster_mark, lint_clusters};
use crate::linting::Linter;
use crate::punctuation::Punctuation;
use crate::token::TokenKind;

verus! {

/// Flags clusters of punctuation that should be collapsed to a single mark
/// (e.g. `!!`, `?!?`, `//`, `.,`, `; :`, etc.).
#[derive(Debug, Default)]
pub struct DuplicatePunctuation;

impl DuplicatePunctuation {
    /// Punctuation kinds we're willing to condense.
    pub fn is_candidate(kind: &TokenKind) -> (r: bool)
        ensures
            r == is_cluster_mark(*kind),
    {
        matches!(
            kind,
            TokenKind::Punctuation(
                Punctuation::Comma
                    | Punctuation::Semicolon
                    | Punctuation::Colon
                    | Punctuation::ForwardSlash
                    | Punctuation::Bang
                    | Punctuation::Question
                    | Punctuation::Period
                    | Punctuation::Ampersand
            )
        )
    }

    /// Map a candidate punctuation token to its canonical char.
    pub fn char_of(kind: &TokenKind) -> (r: char)
        requires
            is_cluster_mark(*kind),
        ensures
            r == glyph_of(*kind),
    {
        match kind {
            TokenKind::Punctuation(Punctuation::Comma) => ',',
            TokenKind::Punctuation(Punctuation::Semicolon) => ';',
            TokenKind::Punctuation(Punctuation::Colon) => ':',
            TokenKind::Punctuation(Punctuation::ForwardSlash) => '/',
            TokenKind::Punctuation(Punctuation::Bang) => '!',
            TokenKind::Punctuation(Punctuation::Question) => '?',
            TokenKind::Punctuation(Punctuation::Period) => '.',
            _ => '&',
        }
    }
}

impl Linter for DuplicatePunctuation {
    open spec fn spec_lint(&self, document: &Document) -> Seq<LintView> {
        cluster_lints(document.tokens(), 0)
    }

    fn lint(&mut self, document: &Document) -> (r: Vec<Lint>)
        ensures
            lints_disjoint(lint_views(r@)),
    {
        lint_clusters(document)
    }

    open spec fn summary(&self) -> Seq<char> {
        "Detects consecutive or mixed punctuation marks that should be reduced \
         to a single comma, semicolon, colon, slash, question mark, \
         exclamation mark, period, or ampersand."@
    }

    fn description(&self) -> (r: &str) {
        "Detects consecutive or mixed punctuation marks that should be reduced \
         to a single comma, semicolon, colon, slash, question mark, \
         exclamation mark, period, or ampersand."
    }
}

} // verus!
