//! Matchers over a prefix of a token slice.
use vstd::prelude::*;
use crate::token::{tokens_fit, Token};

pub mod any_pattern;
pub mod upos_set;
pub mod whitespace_pattern;
pub mod word;
pub mod word_set;

pub use any_pattern::AnyPattern;
pub use upos_set::UPOSSet;
pub use whitespace_pattern::WhitespacePattern;
pub use word::{CasePolicy, Word};
pub use word_set::WordSet;

verus! {

/// A match length as a mathematical value.
pub open spec fn as_nat(length: Option<usize>) -> Option<nat> {
    match length {
        Some(n) => Some(n as nat),
        None => None,
    }
}

/// A matcher that looks at the front of a token slice.
///
/// A pattern either fails or matches a prefix of the slice and tells its
/// length. What it answers depends on the tokens and the source alone.
pub trait Pattern {
    /// The length of the prefix of `tokens` that the pattern matches, if it
    /// matches.
    spec fn spec_matches(&self, tokens: Seq<Token>, source: Seq<char>) -> Option<nat>;

    /// Tries the pattern on the front of `tokens`, whose text is in
    /// `source`. A match tells how many tokens it takes.
    fn matches(&self, tokens: &[Token], source: &[char]) -> (r: Option<usize>)
        requires
            tokens_fit(tokens@, source@.len()),
        ensures
            as_nat(r) == self.spec_matches(tokens@, source@),
            r matches Some(n) ==> n <= tokens.len(),
    ;
}

/// A boxed pattern is a pattern, so that a sequence can hold patterns of
/// different kinds as the caller's own steps.
impl Pattern for Box<dyn Pattern> {
    open spec fn spec_matches(&self, tokens: Seq<Token>, source: Seq<char>) -> Option<nat> {
        (**self).spec_matches(tokens, source)
    }

    fn matches(&self, tokens: &[Token], source: &[char]) -> (r: Option<usize>) {
        (**self).matches(tokens, source)
    }
}

} // verus!
