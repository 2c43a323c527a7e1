//! Runs of punctuation that should be a single mark.
use vstd::prelude::*;
use crate::document::Document;
use crate::lint::{
    lint_views, lints_disjoint, suggestion_views, Lint, LintKind, LintView, Suggestion,
};
use crate::linting::{
    lemma_lint_views_push, lemma_push_lint_within, lints_end_before, within_match, Linter,
};
use crate::punctuation::Punctuation;
use crate::span::Span;
use crate::token::{tokens_fit, tokens_ordered, Token, TokenKind};

verus! {

/// Whether `kind` is a mark that clusters are made of: a comma, semicolon,
/// colon, slash, exclamation mark, question mark, period or ampersand.
pub open spec fn is_cluster_mark(kind: TokenKind) -> bool {
    match kind {
        TokenKind::Punctuation(mark) => mark == Punctuation::Comma || mark == Punctuation::Semicolon
            || mark == Punctuation::Colon || mark == Punctuation::ForwardSlash || mark
            == Punctuation::Bang || mark == Punctuation::Question || mark == Punctuation::Period
            || mark == Punctuation::Ampersand,
        _ => false,
    }
}

/// The character that a cluster mark is written as.
pub open spec fn glyph_of(kind: TokenKind) -> char {
    match kind {
        TokenKind::Punctuation(Punctuation::Comma) => ',',
        TokenKind::Punctuation(Punctuation::Semicolon) => ';',
        TokenKind::Punctuation(Punctuation::Colon) => ':',
        TokenKind::Punctuation(Punctuation::ForwardSlash) => '/',
        TokenKind::Punctuation(Punctuation::Bang) => '!',
        TokenKind::Punctuation(Punctuation::Question) => '?',
        TokenKind::Punctuation(Punctuation::Period) => '.',
        _ => '&',
    }
}

/// Whether a token may stand inside a cluster: a cluster mark, or whitespace
/// between marks.
pub open spec fn joins_cluster(kind: TokenKind) -> bool {
    is_cluster_mark(kind) || kind.whitespace()
}

/// Where the run of cluster tokens that holds token `i` stops: the index of
/// the first token from `i` on that does not join a cluster.
pub open spec fn run_end(tokens: Seq<Token>, i: int) -> int
    decreases tokens.len() - i,
{
    if 0 <= i < tokens.len() && joins_cluster(tokens[i].kind) {
        run_end(tokens, i + 1)
    } else {
        i
    }
}

/// The number of cluster marks among the tokens `start .. end`.
pub open spec fn mark_count(tokens: Seq<Token>, start: int, end: int) -> nat
    decreases end - start,
{
    if end <= start {
        0
    } else {
        mark_count(tokens, start, end - 1) + (if is_cluster_mark(tokens[end - 1].kind) {
            1nat
        } else {
            0nat
        })
    }
}

/// The glyphs of the cluster marks among the tokens `start .. end`, each
/// once, in the order in which they first occur.
pub open spec fn distinct_glyphs(tokens: Seq<Token>, start: int, end: int) -> Seq<char>
    decreases end - start,
{
    if end <= start {
        Seq::empty()
    } else {
        let before = distinct_glyphs(tokens, start, end - 1);
        let kind = tokens[end - 1].kind;
        if is_cluster_mark(kind) && !before.contains(glyph_of(kind)) {
            before.push(glyph_of(kind))
        } else {
            before
        }
    }
}

/// One suggestion for each glyph: the glyph alone.
pub open spec fn glyph_suggestions(glyphs: Seq<char>) -> Seq<Seq<char>> {
    Seq::new(glyphs.len(), |i: int| seq![glyphs[i]])
}

/// The lint for the run of cluster tokens `start .. end`.
pub open spec fn cluster_lint(tokens: Seq<Token>, start: int, end: int) -> LintView {
    LintView {
        span: Span { start: tokens[start].span.start, end: tokens[end - 1].span.end },
        lint_kind: LintKind::Formatting,
        suggestions: glyph_suggestions(distinct_glyphs(tokens, start, end)),
        message: "Condense this punctuation cluster to a single mark."@,
        priority: 63,
    }
}

/// The lints for the clusters among the tokens from `i` on.
///
/// A cluster starts at a cluster mark and runs on over marks and whitespace.
/// It is reported where it holds two marks or more, with one suggestion for
/// each distinct glyph in it.
pub open spec fn cluster_lints(tokens: Seq<Token>, i: int) -> Seq<LintView>
    decreases tokens.len() - i,
{
    if !(0 <= i < tokens.len()) {
        Seq::empty()
    } else if !is_cluster_mark(tokens[i].kind) {
        cluster_lints(tokens, i + 1)
    } else {
        let end = run_end(tokens, i);
        if !(i < end <= tokens.len()) {
            Seq::empty()
        } else if mark_count(tokens, i, end) >= 2 {
            seq![cluster_lint(tokens, i, end)] + cluster_lints(tokens, end)
        } else {
            cluster_lints(tokens, end)
        }
    }
}

/// A run stops at or behind where it is entered, and inside the tokens.
pub proof fn lemma_run_end_bounds(tokens: Seq<Token>, i: int)
    requires
        0 <= i <= tokens.len(),
    ensures
        i <= run_end(tokens, i) <= tokens.len(),
    decreases tokens.len() - i,
{
    if i < tokens.len() && joins_cluster(tokens[i].kind) {
        lemma_run_end_bounds(tokens, i + 1);
    }
}

/// The text from the start of token `start` to the end of token `end - 1`
/// is a well-formed range, and it lies inside the tokens `start .. end`.
pub proof fn lemma_cluster_span(tokens: Seq<Token>, start: int, end: int, source_len: nat)
    requires
        tokens_fit(tokens, source_len),
        tokens_ordered(tokens),
        0 <= start < end <= tokens.len(),
    ensures
        tokens[start].span.start <= tokens[end - 1].span.end,
        within_match(
            Span { start: tokens[start].span.start, end: tokens[end - 1].span.end },
            tokens.subrange(start, end),
        ),
{
    let run = tokens.subrange(start, end);
    assert(run.first() == tokens[start]);
    assert(run.last() == tokens[end - 1]);
    assert(tokens[start].span.fits(source_len));
    assert(tokens[end - 1].span.fits(source_len));
    if start != end - 1 {
        assert(tokens[start].span.end <= tokens[end - 1].span.start);
    }
}

/// Tells whether a token is a mark that clusters are made of.
pub fn is_candidate(kind: &TokenKind) -> (r: bool)
    ensures
        r == is_cluster_mark(*kind),
{
    matches!(
        kind,
        TokenKind::Punctuation(
            Punctuation::Comma
                | Punctuation::Semicolon
                | Punctuation::Colon
                | Punctuation::ForwardSlash
                | Punctuation::Bang
                | Punctuation::Question
                | Punctuation::Period
                | Punctuation::Ampersand
        )
    )
}

/// Map a candidate punctuation token to its canonical char.
pub fn char_of(kind: &TokenKind) -> (r: char)
    requires
        is_cluster_mark(*kind),
    ensures
        r == glyph_of(*kind),
{
    match kind {
        TokenKind::Punctuation(Punctuation::Comma) => ',',
        TokenKind::Punctuation(Punctuation::Semicolon) => ';',
        TokenKind::Punctuation(Punctuation::Colon) => ':',
        TokenKind::Punctuation(Punctuation::ForwardSlash) => '/',
        TokenKind::Punctuation(Punctuation::Bang) => '!',
        TokenKind::Punctuation(Punctuation::Question) => '?',
        TokenKind::Punctuation(Punctuation::Period) => '.',
        _ => '&',
    }
}

/// Tells whether a token may stand inside a cluster.
fn joins(kind: &TokenKind) -> (r: bool)
    ensures
        r == joins_cluster(*kind),
{
    is_candidate(kind) || kind.is_whitespace()
}

/// Tells whether `glyphs` holds `glyph`.
fn holds_glyph(glyphs: &Vec<char>, glyph: char) -> (r: bool)
    ensures
        r == glyphs@.contains(glyph),
{
    let mut i: usize = 0;
    while i < glyphs.len()
        invariant
            i <= glyphs.len(),
            forall|k: int| 0 <= k < i ==> glyphs@[k] != glyph,
        decreases glyphs.len() - i,
    {
        if glyphs[i] == glyph {
            return true;
        }
        i += 1;
    }
    false
}

/// Makes one suggestion for each glyph.
fn suggest_glyphs(glyphs: &Vec<char>) -> (r: Vec<Suggestion>)
    ensures
        suggestion_views(r@) == glyph_suggestions(glyphs@),
{
    let mut suggestions: Vec<Suggestion> = Vec::new();
    let mut i: usize = 0;
    while i < glyphs.len()
        invariant
            i <= glyphs.len(),
            suggestions@.len() == i,
            forall|k: int| 0 <= k < i ==> (#[trigger] suggestions@[k])@ == seq![glyphs@[k]],
        decreases glyphs.len() - i,
    {
        let mut text: Vec<char> = Vec::new();
        text.push(glyphs[i]);
        proof {
            assert(text@ =~= seq![glyphs@[i as int]]);
        }
        suggestions.push(Suggestion::ReplaceWith(text));
        i += 1;
    }
    proof {
        assert(suggestion_views(suggestions@) =~= glyph_suggestions(glyphs@));
    }
    suggestions
}

/// Finds the punctuation clusters of a document and reports each that holds
/// two marks or more. The lints come in text order and do not overlap.
pub fn lint_clusters(document: &Document) -> (r: Vec<Lint>)
    requires
        document.wf(),
    ensures
        lint_views(r@) == cluster_lints(document.tokens(), 0),
        lints_disjoint(lint_views(r@)),
{
    let toks = document.get_tokens();
    let mut lints: Vec<Lint> = Vec::new();
    let mut i: usize = 0;
    proof {
        assert(lint_views(lints@) =~= Seq::empty());
    }
    while i < toks.len()
        invariant
            i <= toks.len(),
            toks@ == document.tokens(),
            document.wf(),
            lint_views(lints@) + cluster_lints(toks@, i as int) == cluster_lints(toks@, 0),
            lints_disjoint(lint_views(lints@)),
            lints_end_before(lint_views(lints@), toks@, i as int),
        decreases toks.len() - i,
    {
        // Start of a potential cluster
        if !is_candidate(&toks[i].kind) {
            i += 1;
            continue;
        }
        let start = i;
        let mut count: usize = 0;
        let mut uniq: Vec<char> = Vec::new();

        // Consume the cluster (allowing spaces/newlines in between)
        while i < toks.len() && joins(&toks[i].kind)
            invariant
                start <= i <= toks.len(),
                run_end(toks@, start as int) == run_end(toks@, i as int),
                count == mark_count(toks@, start as int, i as int),
                count <= i - start,
                uniq@ == distinct_glyphs(toks@, start as int, i as int),
            decreases toks.len() - i,
        {
            let kind = &toks[i].kind;
            if is_candidate(kind) {
                let glyph = char_of(kind);
                if !holds_glyph(&uniq, glyph) {
                    uniq.push(glyph);
                }
                count += 1;
            }
            i += 1;
        }
        let ghost end = i as int;
        proof {
            assert(i > start);
            assert(run_end(toks@, start as int) == end);
        }
        if count >= 2 {
            proof {
                lemma_cluster_span(toks@, start as int, end, document.source().len());
            }
            let span = Span::new(toks[start].span.start, toks[i - 1].span.end);
            // One suggestion per distinct glyph in the cluster
            let suggestions = suggest_glyphs(&uniq);
            let lint = Lint {
                span,
                lint_kind: LintKind::Formatting,
                suggestions,
                message: "Condense this punctuation cluster to a single mark.".to_owned(),
                priority: 63,
            };
            proof {
                assert(lint@ == cluster_lint(toks@, start as int, end));
                lemma_lint_views_push(lints@, lint);
                lemma_push_lint_within(
                    lint_views(lints@),
                    lint@,
                    toks@,
                    document.source().len(),
                    start as int,
                    end,
                );
            }
            lints.push(lint);
            proof {
                assert(lint_views(lints@) + cluster_lints(toks@, end) =~= cluster_lints(toks@, 0));
            }
        }
    }
    proof {
        assert(lint_views(lints@) + Seq::empty() =~= lint_views(lints@));
    }
    lints
}

/// Flags clusters of punctuation that should be collapsed to a single mark
/// (e.g. `!!`, `?!?`, `//`, `.,`, `; :`, etc.).
#[derive(Debug, Default)]
pub struct PunctuationClusters;

impl PunctuationClusters {
    /// Punctuation kinds we're willing to condense.
    pub fn is_candidate(kind: &TokenKind) -> (r: bool)
        ensures
            r == is_cluster_mark(*kind),
    {
        self::is_candidate(kind)
    }

    /// Map a candidate punctuation token to its canonical char.
    pub fn char_of(kind: &TokenKind) -> (r: char)
        requires
            is_cluster_mark(*kind),
        ensures
            r == glyph_of(*kind),
    {
        self::char_of(kind)
    }
}

impl Linter for PunctuationClusters {
    open spec fn spec_lint(&self, document: &Document) -> Seq<LintView> {
        cluster_lints(document.tokens(), 0)
    }

    fn lint(&mut self, document: &Document) -> (r: Vec<Lint>)
        ensures
            lints_disjoint(lint_views(r@)),
    {
        lint_clusters(document)
    }

    open spec fn summary(&self) -> Seq<char> {
        "Detects consecutive or mixed punctuation marks that should be reduced \
         to a single comma, semicolon, colon, slash, question mark, \
         exclamation mark, period, or ampersand."@
    }

    fn description(&self) -> (r: &str) {
        "Detects consecutive or mixed punctuation marks that should be reduced \
         to a single comma, semicolon, colon, slash, question mark, \
         exclamation mark, period, or ampersand."
    }
}

} // verus!
