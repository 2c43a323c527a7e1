//! Expressions over a token slice: patterns chained into sequences.
use vstd::prelude::*;
use vstd::slice::slice_subrange;
use crate::patterns::{as_nat, Pattern};
use crate::token::{tokens_fit, Token};

pub mod sequence_expr;
pub mod step;

pub use sequence_expr::SequenceExpr;
pub use step::Step;

verus! {

/// A matcher that is tried at a cursor inside a token slice.
///
/// Unlike a [`Pattern`], an expression sees the whole slice, so that it can
/// tell where the slice ends. Every pattern is an expression: it is tried on
/// the tokens from the cursor on.
pub trait Expr {
    /// The number of tokens that the expression matches from `cursor` on, if
    /// it matches there.
    spec fn spec_run(&self, cursor: int, tokens: Seq<Token>, source: Seq<char>) -> Option<nat>;

    /// Tries the expression at `cursor` in `tokens`, whose text is in
    /// `source`. A match tells how many tokens it takes from the cursor on.
    fn run(&self, cursor: usize, tokens: &[Token], source: &[char]) -> (r: Option<usize>)
        requires
            cursor <= tokens.len(),
            tokens_fit(tokens@, source@.len()),
        ensures
            as_nat(r) == self.spec_run(cursor as int, tokens@, source@),
            r matches Some(n) ==> cursor + n <= tokens.len(),
    ;
}

impl<P: Pattern> Expr for P {
    open spec fn spec_run(&self, cursor: int, tokens: Seq<Token>, source: Seq<char>) -> Option<nat> {
        self.spec_matches(tokens.subrange(cursor, tokens.len() as int), source)
    }

    fn run(&self, cursor: usize, tokens: &[Token], source: &[char]) -> (r: Option<usize>) {
        let rest = slice_subrange(tokens, cursor, tokens.len());
        proof {
            lemma_rest_fits(tokens@, cursor as int, source@.len());
        }
        self.matches(rest, source)
    }
}

/// The tokens from `cursor` on lie in the source where all tokens do.
pub proof fn lemma_rest_fits(tokens: Seq<Token>, cursor: int, len: nat)
    requires
        0 <= cursor <= tokens.len(),
        tokens_fit(tokens, len),
    ensures
        tokens_fit(tokens.subrange(cursor, tokens.len() as int), len),
{
    let rest = tokens.subrange(cursor, tokens.len() as int);
    assert forall|i: int| 0 <= i < rest.len() implies (#[trigger] rest[i]).span.fits(len) by {
        assert(rest[i] == tokens[cursor + i]);
    }
}

} // verus!
