//! Rules, and what they share.
use vstd::prelude::*;
use crate::document::{chunk_start, Document};
use crate::lint::{lint_views, lints_disjoint, Lint, LintView};
use crate::span::Span;
use crate::token::{tokens_fit, tokens_ordered, Token};

pub mod an_a;
pub mod duplicate_punctuation;
pub mod expr_linter;
pub mod merge_linters;
pub mod missing_article;
pub mod punctuation_clusters;
pub mod to_two_too;

pub use an_a::AnA;
pub use duplicate_punctuation::DuplicatePunctuation;
pub use expr_linter::ExprLinter;
pub use merge_linters::{merge_linters, MergedLinters};
pub use missing_article::MissingArticle;
pub use punctuation_clusters::PunctuationClusters;
pub use to_two_too::ToToo;

verus! {

/// A rule: something that reads a document and reports lints.
///
/// What a rule reports depends on the document alone, and reporting does
/// not change what the rule will report later, on this document or another.
pub trait Linter {
    /// The lints that the rule reports on `document`, in order.
    spec fn spec_lint(&self, document: &Document) -> Seq<LintView>;

    /// Reads `document` and reports what the rule finds in it.
    fn lint(&mut self, document: &Document) -> (r: Vec<Lint>)
        requires
            document.wf(),
        ensures
            lint_views(r@) == old(self).spec_lint(document),
            forall|other: &Document| #[trigger]
                final(self).spec_lint(other) == old(self).spec_lint(other),
    ;

    /// The text of the rule's description.
    spec fn summary(&self) -> Seq<char>;

    /// A summary of the rule for people.
    fn description(&self) -> (r: &str)
        ensures
            r@ == self.summary(),
    ;
}

/// Determinism: a rule run twice on one document reports the same lints
/// twice. Let `first` be a report of the rule `before` that meets the
/// contract of [`Linter::lint`], `between` the rule as that run left it, and
/// `second` a report of `between` on the same document. Then the two reports
/// are the same sequence of lints.
pub proof fn lemma_lint_is_deterministic<L: Linter>(
    before: L,
    between: L,
    document: &Document,
    first: Seq<Lint>,
    second: Seq<Lint>,
)
    requires
        lint_views(first) == before.spec_lint(document),
        forall|other: &Document| #[trigger] between.spec_lint(other) == before.spec_lint(other),
        lint_views(second) == between.spec_lint(document),
    ensures
        lint_views(first) == lint_views(second),
        first.len() == second.len(),
        forall|i: int| 0 <= i < first.len() ==> (#[trigger] first[i])@ == second[i]@,
{
    assert(between.spec_lint(document) == before.spec_lint(document));
    assert(lint_views(first).len() == first.len());
    assert(lint_views(second).len() == second.len());
    assert forall|i: int| 0 <= i < first.len() implies (#[trigger] first[i])@ == second[i]@ by {
        assert(lint_views(first)[i] == first[i]@);
        assert(lint_views(second)[i] == second[i]@);
    }
}

/// The views of two sequences of lints, one after the other, are the views
/// of the sequences joined.
pub proof fn lemma_lint_views_concat(a: Seq<Lint>, b: Seq<Lint>)
    ensures
        lint_views(a + b) == lint_views(a) + lint_views(b),
{
    assert(lint_views(a + b) =~= lint_views(a) + lint_views(b));
}

/// The views of a sequence of lints with one more lint are the views of the
/// sequence with the view of the lint.
pub proof fn lemma_lint_views_push(lints: Seq<Lint>, lint: Lint)
    ensures
        lint_views(lints.push(lint)) == lint_views(lints).push(lint@),
{
    assert(lint_views(lints.push(lint)) =~= lint_views(lints).push(lint@));
}

/// A report in text order stays in text order when a lint is added that
/// starts no earlier than any lint of the report ends.
pub proof fn lemma_disjoint_push(lints: Seq<LintView>, lint: LintView)
    requires
        lints_disjoint(lints),
        forall|i: int| 0 <= i < lints.len() ==> (#[trigger] lints[i]).span.end <= lint.span.start,
    ensures
        lints_disjoint(lints.push(lint)),
{
    let now = lints.push(lint);
    assert forall|i: int, j: int| 0 <= i < j < now.len() implies (#[trigger] now[i]).span.end <= (
    #[trigger] now[j]).span.start by {
        assert(now[i] == lints[i]);
        if j < lints.len() {
            assert(now[j] == lints[j]);
        }
    }
}

/// A lint that lies inside the tokens `lo .. hi` can be added to a report
/// whose lints all end before token `lo`: the report stays in text order,
/// and all of its lints end before token `hi`.
pub proof fn lemma_push_lint_within(
    lints: Seq<LintView>,
    lint: LintView,
    tokens: Seq<Token>,
    source_len: nat,
    lo: int,
    hi: int,
)
    requires
        tokens_fit(tokens, source_len),
        tokens_ordered(tokens),
        0 <= lo < hi <= tokens.len(),
        within_match(lint.span, tokens.subrange(lo, hi)),
        lints_disjoint(lints),
        lints_end_before(lints, tokens, lo),
    ensures
        lints_disjoint(lints.push(lint)),
        lints_end_before(lints.push(lint), tokens, hi),
        within_match(lint.span, tokens),
        lints_within(lints, tokens) ==> lints_within(lints.push(lint), tokens),
{
    let matched = tokens.subrange(lo, hi);
    let now = lints.push(lint);
    assert(matched.first() == tokens[lo]);
    assert(matched.last() == tokens[hi - 1]);
    assert(tokens[0].span.fits(source_len));
    assert(tokens[tokens.len() - 1].span.fits(source_len));
    assert(tokens[lo].span.fits(source_len));
    assert(tokens[hi - 1].span.fits(source_len));
    if 0 < lo {
        assert(tokens[0].span.end <= tokens[lo].span.start);
    }
    if hi - 1 < tokens.len() - 1 {
        assert(tokens[hi - 1].span.end <= tokens[tokens.len() - 1].span.start);
    }
    assert forall|i: int| 0 <= i < lints.len() implies (#[trigger] lints[i]).span.end
        <= lint.span.start by {
        assert(lints[i].span.end <= tokens[lo].span.start);
    }
    lemma_disjoint_push(lints, lint);
    assert forall|i: int, k: int| 0 <= i < now.len() && hi <= k < tokens.len() implies (
    #[trigger] now[i]).span.end <= (#[trigger] tokens[k]).span.start by {
        if i < lints.len() {
            assert(now[i] == lints[i]);
        } else {
            assert(tokens[hi - 1].span.end <= tokens[k].span.start);
        }
    }
    if lints_within(lints, tokens) {
        assert forall|i: int| 0 <= i < now.len() implies within_match(
            (#[trigger] now[i]).span,
            tokens,
        ) by {
            if i < lints.len() {
                assert(now[i] == lints[i]);
            }
        }
    }
}

/// Whether `later` may follow `earlier` in a report in text order: every lint
/// of `earlier` ends no later than any lint of `later` starts.
pub open spec fn lints_precede(earlier: Seq<LintView>, later: Seq<LintView>) -> bool {
    forall|i: int, j: int|
        0 <= i < earlier.len() && 0 <= j < later.len() ==> (#[trigger] earlier[i]).span.end <= (
        #[trigger] later[j]).span.start
}

/// Two reports in text order, the second wholly behind the first, join into
/// one report in text order.
pub proof fn lemma_disjoint_concat(a: Seq<LintView>, b: Seq<LintView>)
    requires
        lints_disjoint(a),
        lints_disjoint(b),
        lints_precede(a, b),
    ensures
        lints_disjoint(a + b),
{
    let joined = a + b;
    assert forall|i: int, j: int| 0 <= i < j < joined.len() implies (#[trigger] joined[i]).span.end
        <= (#[trigger] joined[j]).span.start by {
        if j < a.len() {
            assert(joined[i] == a[i] && joined[j] == a[j]);
        } else if i < a.len() {
            assert(joined[i] == a[i] && joined[j] == b[j - a.len()]);
        } else {
            assert(joined[i] == b[i - a.len()] && joined[j] == b[j - a.len()]);
        }
    }
}

/// Whether `span` lies inside the text that the tokens cover, from the start
/// of the first to the end of the last.
pub open spec fn within_match(span: Span, matched: Seq<Token>) -> bool {
    &&& matched.len() > 0
    &&& matched.first().span.start <= span.start
    &&& span.end <= matched.last().span.end
}

/// Whether every lint lies inside the text that `tokens` cover.
pub open spec fn lints_within(lints: Seq<LintView>, tokens: Seq<Token>) -> bool {
    forall|i: int| 0 <= i < lints.len() ==> within_match((#[trigger] lints[i]).span, tokens)
}

/// Whether every lint ends no later than any token from index `from` on
/// starts.
pub open spec fn lints_end_before(lints: Seq<LintView>, tokens: Seq<Token>, from: int) -> bool {
    forall|i: int, k: int|
        0 <= i < lints.len() && from <= k < tokens.len() ==> (#[trigger] lints[i]).span.end <= (
        #[trigger] tokens[k]).span.start
}

/// A run of tokens lies in the source and is in order where all the tokens
/// are.
pub proof fn lemma_subrange_is_valid(tokens: Seq<Token>, lo: int, hi: int, source_len: nat)
    requires
        tokens_fit(tokens, source_len),
        tokens_ordered(tokens),
        0 <= lo <= hi <= tokens.len(),
    ensures
        tokens_fit(tokens.subrange(lo, hi), source_len),
        tokens_ordered(tokens.subrange(lo, hi)),
{
    let run = tokens.subrange(lo, hi);
    assert forall|i: int| 0 <= i < run.len() implies (#[trigger] run[i]).span.fits(source_len) by {
        assert(run[i] == tokens[lo + i]);
    }
    assert forall|a: int, b: int| 0 <= a < b < run.len() implies (#[trigger] run[a]).span.end <= (
    #[trigger] run[b]).span.start by {
        assert(run[a] == tokens[lo + a]);
        assert(run[b] == tokens[lo + b]);
    }
}

/// The tokens of a chunk lie in the source and follow each other where the
/// document's tokens do.
pub proof fn lemma_chunk_is_valid(document: &Document, c: int)
    requires
        document.wf(),
        0 <= c < document.chunk_ends().len(),
    ensures
        0 <= chunk_start(document.chunk_ends(), c) < document.chunk_ends()[c] <= document.tokens().len(),
        tokens_fit(document.chunk(c), document.source().len()),
        tokens_ordered(document.chunk(c)),
        document.chunk(c).len() == document.chunk_ends()[c] - chunk_start(document.chunk_ends(), c),
        forall|k: int|
            0 <= k < document.chunk(c).len() ==> #[trigger] document.chunk(c)[k]
                == document.tokens()[chunk_start(document.chunk_ends(), c) + k],
{
    let ends = document.chunk_ends();
    let start = chunk_start(ends, c);
    if c > 0 {
        assert(0 < ends[c - 1]);
        assert(ends[c - 1] < ends[c]);
    }
    assert(0 < ends[c] <= document.tokens().len());
    let chunk = document.chunk(c);
    assert forall|k: int| 0 <= k < chunk.len() implies (#[trigger] chunk[k]).span.fits(
        document.source().len(),
    ) by {
        assert(chunk[k] == document.tokens()[start + k]);
    }
    assert forall|a: int, b: int| 0 <= a < b < chunk.len() implies (#[trigger] chunk[a]).span.end
        <= (#[trigger] chunk[b]).span.start by {
        assert(chunk[a] == document.tokens()[start + a]);
        assert(chunk[b] == document.tokens()[start + b]);
    }
}

/// A report in text order on the chunks before chunk `c`, joined with one on
/// chunk `c`, is a report in text order on the chunks up to `c`.
pub proof fn lemma_append_chunk_lints(
    document: &Document,
    c: int,
    before: Seq<LintView>,
    added: Seq<LintView>,
)
    requires
        document.wf(),
        0 <= c < document.chunk_ends().len(),
        lints_disjoint(before),
        lints_end_before(before, document.tokens(), chunk_start(document.chunk_ends(), c)),
        lints_disjoint(added),
        lints_within(added, document.chunk(c)),
    ensures
        lints_disjoint(before + added),
        lints_end_before(before + added, document.tokens(), chunk_start(document.chunk_ends(), c + 1)),
{
    lemma_chunk_is_valid(document, c);
    let tokens = document.tokens();
    let chunk = document.chunk(c);
    let start = chunk_start(document.chunk_ends(), c);
    let end = document.chunk_ends()[c] as int;
    assert(chunk.first() == tokens[start]);
    assert(chunk.last() == tokens[end - 1]);
    assert forall|i: int, j: int| 0 <= i < before.len() && 0 <= j < added.len() implies (
    #[trigger] before[i]).span.end <= (#[trigger] added[j]).span.start by {
        assert(within_match(added[j].span, chunk));
        assert(before[i].span.end <= tokens[start].span.start);
    }
    lemma_disjoint_concat(before, added);
    let joined = before + added;
    assert forall|i: int, k: int| 0 <= i < joined.len() && end <= k < tokens.len() implies (
    #[trigger] joined[i]).span.end <= (#[trigger] tokens[k]).span.start by {
        if i < before.len() {
            assert(joined[i] == before[i]);
        } else {
            assert(joined[i] == added[i - before.len()]);
            assert(within_match(added[i - before.len()].span, chunk));
            if end - 1 < k {
                assert(tokens[end - 1].span.end <= tokens[k].span.start);
            }
        }
    }
}

} // verus!
