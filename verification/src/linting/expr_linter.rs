//! Rules that are an expression to find and a function to judge what was
//! found.
use vstd::prelude::*;
use vstd::slice::slice_subrange;
use crate::document::{chunk_start, Document};
use crate::expr::step::within;
use crate::expr::Expr;
use crate::lint::{lint_views, lints_disjoint, Lint, LintView};
use crate::linting::{
    lemma_append_chunk_lints, lemma_chunk_is_valid, lemma_lint_views_concat,
    lemma_lint_views_push, lemma_push_lint_within, lemma_subrange_is_valid, lints_end_before,
    lints_within, within_match, Linter,
};
use crate::token::{tokens_fit, tokens_ordered, Token};

verus! {

/// The view of a lint that may be there.
pub open spec fn lint_option_view(lint: Option<Lint>) -> Option<LintView> {
    match lint {
        Some(lint) => Some(lint@),
        None => None,
    }
}

/// Whether the expression `e` matches exactly where the trigger of `linter`
/// does, with the same lengths.
pub open spec fn runs_as<L: ExprLinter>(e: &Box<dyn Expr>, linter: &L) -> bool {
    forall|cursor: int, tokens: Seq<Token>, source: Seq<char>|
        #[trigger] e.spec_run(cursor, tokens, source) == linter.trigger(cursor, tokens, source)
}

/// A rule given by a trigger expression and a judge of its matches.
///
/// The rule is scanned over each chunk of a document. Every match of the
/// expression goes to [`ExprLinter::match_to_lint`], which turns it into a
/// lint or turns it down.
pub trait ExprLinter {
    /// The number of tokens that the trigger expression matches at `cursor`,
    /// if it matches there.
    spec fn trigger(&self, cursor: int, tokens: Seq<Token>, source: Seq<char>) -> Option<nat>;

    /// The trigger expression.
    fn expr(&self) -> (e: &Box<dyn Expr>)
        ensures
            forall|cursor: int, tokens: Seq<Token>, source: Seq<char>|
                #[trigger] e.spec_run(cursor, tokens, source) == self.trigger(
                    cursor,
                    tokens,
                    source,
                ),
    ;

    /// The lint for a match, where the rule reports one.
    spec fn spec_match_to_lint(&self, matched: Seq<Token>, source: Seq<char>) -> Option<LintView>;

    /// Judges a match. A lint that is reported lies inside the matched text.
    fn match_to_lint(&self, matched_tokens: &[Token], source: &[char]) -> (r: Option<Lint>)
        requires
            tokens_fit(matched_tokens@, source@.len()),
            tokens_ordered(matched_tokens@),
        ensures
            lint_option_view(r) == self.spec_match_to_lint(matched_tokens@, source@),
            r matches Some(lint) ==> within_match(lint.span, matched_tokens@),
    ;

    /// The text of the rule's description.
    spec fn summary(&self) -> Seq<char>;

    /// A summary of the rule for people.
    fn description(&self) -> (r: &str)
        ensures
            r@ == self.summary(),
    ;
}

/// A lint that may be there, as a sequence of none or one.
pub open spec fn lint_seq(lint: Option<LintView>) -> Seq<LintView> {
    match lint {
        Some(lint) => seq![lint],
        None => Seq::empty(),
    }
}

/// The lints that a rule reports on one chunk, from token `from` on.
///
/// The trigger is tried at `from`. A match is judged, and the scan goes on
/// behind it; where nothing matches, or no token was matched, the scan goes
/// on at the next token. So no token lies in two matches.
pub open spec fn scan_chunk<L: ExprLinter>(
    linter: &L,
    chunk: Seq<Token>,
    source: Seq<char>,
    from: int,
) -> Seq<LintView>
    decreases chunk.len() - from,
{
    if !(0 <= from < chunk.len()) {
        Seq::empty()
    } else {
        match within(linter.trigger(from, chunk, source), chunk.len() - from) {
            Some(n) => lint_seq(
                linter.spec_match_to_lint(chunk.subrange(from, from + n), source),
            ) + scan_chunk(
                linter,
                chunk,
                source,
                if n == 0 {
                    from + 1
                } else {
                    from + n
                },
            ),
            None => scan_chunk(linter, chunk, source, from + 1),
        }
    }
}

/// The lints that a rule reports on the chunks of a document from chunk
/// `from` on, chunk after chunk.
pub open spec fn scan_chunks<L: ExprLinter>(linter: &L, document: &Document, from: int) -> Seq<
    LintView,
>
    decreases document.chunk_ends().len() - from,
{
    if !(0 <= from < document.chunk_ends().len()) {
        Seq::empty()
    } else {
        scan_chunk(linter, document.chunk(from), document.source(), 0) + scan_chunks(
            linter,
            document,
            from + 1,
        )
    }
}

/// Scans one chunk.
///
/// The lints come in text order, no two of them overlap, and each lies
/// inside the text of the chunk.
pub fn lint_chunk<L: ExprLinter>(linter: &L, chunk: &[Token], source: &[char]) -> (r: Vec<Lint>)
    requires
        tokens_fit(chunk@, source@.len()),
        tokens_ordered(chunk@),
    ensures
        lint_views(r@) == scan_chunk(linter, chunk@, source@, 0),
        lints_disjoint(lint_views(r@)),
        lints_within(lint_views(r@), chunk@),
{
    let mut lints: Vec<Lint> = Vec::new();
    let mut cursor: usize = 0;
    let expr = linter.expr();
    proof {
        assert(lint_views(lints@) =~= Seq::empty());
    }
    while cursor < chunk.len()
        invariant
            cursor <= chunk.len(),
            tokens_fit(chunk@, source@.len()),
            tokens_ordered(chunk@),
            runs_as(expr, linter),
            lint_views(lints@) + scan_chunk(linter, chunk@, source@, cursor as int) == scan_chunk(
                linter,
                chunk@,
                source@,
                0,
            ),
            lints_disjoint(lint_views(lints@)),
            lints_within(lint_views(lints@), chunk@),
            lints_end_before(lint_views(lints@), chunk@, cursor as int),
        decreases chunk.len() - cursor,
    {
        match expr.run(cursor, chunk, source) {
            Some(n) => {
                let matched = slice_subrange(chunk, cursor, cursor + n);
                proof {
                    lemma_subrange_is_valid(chunk@, cursor as int, cursor + n, source@.len());
                }
                match linter.match_to_lint(matched, source) {
                    Some(lint) => {
                        proof {
                            lemma_lint_views_push(lints@, lint);
                            lemma_push_lint_within(
                                lint_views(lints@),
                                lint@,
                                chunk@,
                                source@.len(),
                                cursor as int,
                                cursor + n,
                            );
                        }
                        lints.push(lint);
                    },
                    None => {},
                }
                proof {
                    assert(lint_views(lints@) + scan_chunk(
                        linter,
                        chunk@,
                        source@,
                        if n == 0 {
                            cursor + 1
                        } else {
                            cursor + n
                        },
                    ) =~= scan_chunk(linter, chunk@, source@, 0));
                }
                if n == 0 {
                    cursor += 1;
                } else {
                    cursor += n;
                }
            },
            None => {
                cursor += 1;
            },
        }
    }
    proof {
        assert(lint_views(lints@) + Seq::empty() =~= lint_views(lints@));
    }
    lints
}

/// Scans every chunk of a document, chunk after chunk.
///
/// The lints come in text order, and no two of them overlap.
pub fn lint_document<L: ExprLinter>(linter: &L, document: &Document) -> (r: Vec<Lint>)
    requires
        document.wf(),
    ensures
        lint_views(r@) == scan_chunks(linter, document, 0),
        lints_disjoint(lint_views(r@)),
{
    let mut lints: Vec<Lint> = Vec::new();
    let source = document.get_source();
    let count = document.chunk_count();
    let mut c: usize = 0;
    proof {
        assert(lint_views(lints@) =~= Seq::empty());
    }
    while c < count
        invariant
            c <= count,
            count == document.chunk_ends().len(),
            document.wf(),
            source@ == document.source(),
            lint_views(lints@) + scan_chunks(linter, document, c as int) == scan_chunks(
                linter,
                document,
                0,
            ),
            lints_disjoint(lint_views(lints@)),
            lints_end_before(
                lint_views(lints@),
                document.tokens(),
                chunk_start(document.chunk_ends(), c as int),
            ),
        decreases count - c,
    {
        let chunk = document.get_chunk(c);
        proof {
            lemma_chunk_is_valid(document, c as int);
        }
        let mut found = lint_chunk(linter, chunk, source);
        proof {
            lemma_append_chunk_lints(document, c as int, lint_views(lints@), lint_views(found@));
            lemma_lint_views_concat(lints@, found@);
        }
        lints.append(&mut found);
        proof {
            assert(lint_views(lints@) + scan_chunks(linter, document, c + 1) =~= scan_chunks(
                linter,
                document,
                0,
            ));
        }
        c += 1;
    }
    proof {
        assert(lint_views(lints@) + Seq::empty() =~= lint_views(lints@));
    }
    lints
}

impl<L: ExprLinter> Linter for L {
    open spec fn spec_lint(&self, document: &Document) -> Seq<LintView> {
        scan_chunks(self, document, 0)
    }

    fn lint(&mut self, document: &Document) -> (r: Vec<Lint>)
        ensures
            lints_disjoint(lint_views(r@)),
    {
        lint_document(self, document)
    }

    open spec fn summary(&self) -> Seq<char> {
        ExprLinter::summary(self)
    }

    fn description(&self) -> (r: &str) {
        ExprLinter::description(self)
    }
}

} // verus!
