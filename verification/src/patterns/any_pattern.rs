//! The wildcard.
use vstd::prelude::*;
use crate::patterns::Pattern;
use crate::token::Token;

verus! {

/// Matches any single token.
#[derive(Clone, Copy, Debug, Default)]
pub struct AnyPattern;

impl Pattern for AnyPattern {
    open spec fn spec_matches(&self, tokens: Seq<Token>, source: Seq<char>) -> Option<nat> {
        if tokens.len() > 0 {
            Some(1)
        } else {
            None
        }
    }

    fn matches(&self, tokens: &[Token], source: &[char]) -> (r: Option<usize>) {
        if tokens.len() > 0 {
            Some(1)
        } else {
            None
        }
    }
}

} // verus!
