//! Matching whitespace.
use vstd::prelude::*;
use crate::patterns::Pattern;
use crate::token::Token;

verus! {

/// Matches one whitespace token: a run of spaces or of line breaks.
#[derive(Clone, Copy, Debug, Default)]
pub struct WhitespacePattern;

impl Pattern for WhitespacePattern {
    open spec fn spec_matches(&self, tokens: Seq<Token>, source: Seq<char>) -> Option<nat> {
        if tokens.len() > 0 && tokens[0].kind.whitespace() {
            Some(1)
        } else {
            None
        }
    }

    fn matches(&self, tokens: &[Token], source: &[char]) -> (r: Option<usize>) {
        if tokens.len() > 0 && tokens[0].kind.is_whitespace() {
            Some(1)
        } else {
            None
        }
    }
}

} // verus!
