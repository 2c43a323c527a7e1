//! The indefinite article before a vowel sound and before a consonant sound.
use vstd::prelude::*;
use vstd::slice::slice_subrange;
use itertools::Itertools;
use crate::char_string::{alphanumeric_prefix_len, is_alphanumeric};
use crate::document::{chunk_start, Document};
use crate::lint::{
    lint_views, lints_disjoint, match_case, suggestion_views, Lint, LintKind, LintView, Suggestion,
};
use crate::linting::expr_linter::{lint_option_view, lint_seq};
use crate::linting::{
    lemma_append_chunk_lints, lemma_chunk_is_valid, lemma_lint_views_concat,
    lemma_lint_views_push, lemma_push_lint_within, lints_end_before, lints_within, Linter,
};
use crate::starts_with_vowel::{spec_starts_with_vowel, starts_with_vowel};
use crate::token::{tokens_fit, tokens_ordered, Token};

verus! {

/// The indices below `n` of the tokens that are words, in rising order.
pub open spec fn words_before(tokens: Seq<Token>, n: int) -> Seq<usize>
    decreases n,
{
    if n <= 0 {
        Seq::empty()
    } else {
        let before = words_before(tokens, n - 1);
        if tokens[n - 1].kind is Word {
            before.push((n - 1) as usize)
        } else {
            before
        }
    }
}

/// Each item of `items` paired with the one behind it.
pub open spec fn neighbours(items: Seq<usize>) -> Seq<(usize, usize)> {
    Seq::new(
        if items.len() == 0 {
            0nat
        } else {
            (items.len() - 1) as nat
        },
        |i: int| (items[i], items[i + 1]),
    )
}

/// Calls itertools' `tuple_windows` on the items and collects the pairs it
/// yields. Trusted: the pairs are the windows of two neighbours, in order;
/// fewer than two items give no pair.
#[verifier::external_body]
fn neighbour_pairs(items: &Vec<usize>) -> (r: Vec<(usize, usize)>)
    ensures
        r@ == neighbours(items@),
{
    items.iter().copied().tuple_windows().collect()
}

/// Whether some token among `from .. to` is unlintable.
pub open spec fn unlintable_between(tokens: Seq<Token>, from: int, to: int) -> bool {
    exists|k: int| from <= k < to && (#[trigger] tokens[k]).kind is Unlintable
}

/// Which article `text` is: `Some(true)` for "a", `Some(false)` for "an",
/// each in small letters or with a capital A, and `None` for anything else.
pub open spec fn article_of(text: Seq<char>) -> Option<bool> {
    if text == seq!['a'] || text == seq!['A'] {
        Some(true)
    } else if text == seq!['a', 'n'] || text == seq!['A', 'n'] {
        Some(false)
    } else {
        None
    }
}

/// The part of a word that decides its article: its characters up to the
/// first that is neither a letter nor a digit.
pub open spec fn article_head(text: Seq<char>) -> Seq<char> {
    text.take(alphanumeric_prefix_len(text) as int)
}

/// The lint for the words at `first` and `second`, where the first is an
/// article that does not fit the sound that the second begins with.
///
/// Nothing is reported where unlintable text stands between the two.
pub open spec fn article_lint(tokens: Seq<Token>, source: Seq<char>, first: int, second: int) -> Option<
    LintView,
> {
    let article = tokens[first].span.content(source);
    let head = article_head(tokens[second].span.content(source));
    if unlintable_between(tokens, first, second) {
        None
    } else {
        match article_of(article) {
            Some(is_a) => if is_a != !spec_starts_with_vowel(head) {
                Some(
                    LintView {
                        span: tokens[first].span,
                        lint_kind: LintKind::Miscellaneous,
                        suggestions: seq![
                            match_case(
                                if is_a {
                                    seq!['a', 'n']
                                } else {
                                    seq!['a']
                                },
                                article,
                            ),
                        ],
                        message: "Incorrect indefinite article."@,
                        priority: 31,
                    },
                )
            } else {
                None
            },
            None => None,
        }
    }
}

/// The lints for the pairs of words from pair `from` on.
pub open spec fn pair_lints(
    tokens: Seq<Token>,
    source: Seq<char>,
    pairs: Seq<(usize, usize)>,
    from: int,
) -> Seq<LintView>
    decreases pairs.len() - from,
{
    if !(0 <= from < pairs.len()) {
        Seq::empty()
    } else {
        lint_seq(article_lint(tokens, source, pairs[from].0 as int, pairs[from].1 as int))
            + pair_lints(tokens, source, pairs, from + 1)
    }
}

/// The lints for one chunk: one for each word that is a misfit article for
/// the word behind it.
pub open spec fn chunk_article_lints(chunk: Seq<Token>, source: Seq<char>) -> Seq<LintView> {
    pair_lints(chunk, source, neighbours(words_before(chunk, chunk.len() as int)), 0)
}

/// The lints for the chunks of a document from chunk `from` on.
pub open spec fn article_lints(document: &Document, from: int) -> Seq<LintView>
    decreases document.chunk_ends().len() - from,
{
    if !(0 <= from < document.chunk_ends().len()) {
        Seq::empty()
    } else {
        chunk_article_lints(document.chunk(from), document.source()) + article_lints(
            document,
            from + 1,
        )
    }
}

/// The word indices rise, stay below `n`, and point at words.
pub proof fn lemma_words_before(tokens: Seq<Token>, n: int)
    requires
        0 <= n <= tokens.len(),
        tokens.len() <= usize::MAX,
    ensures
        forall|i: int|
            0 <= i < words_before(tokens, n).len() ==> (#[trigger] words_before(tokens, n)[i]) < n
                && tokens[words_before(tokens, n)[i] as int].kind is Word,
        forall|i: int, j: int|
            0 <= i < j < words_before(tokens, n).len() ==> (#[trigger] words_before(tokens, n)[i])
                < (#[trigger] words_before(tokens, n)[j]),
    decreases n,
{
    if n > 0 {
        lemma_words_before(tokens, n - 1);
    }
}

/// The indices of the tokens that are words.
pub fn word_indices(tokens: &[Token]) -> (r: Vec<usize>)
    ensures
        r@ == words_before(tokens@, tokens@.len() as int),
{
    let mut indices: Vec<usize> = Vec::new();
    let mut i: usize = 0;
    while i < tokens.len()
        invariant
            i <= tokens.len(),
            indices@ == words_before(tokens@, i as int),
        decreases tokens.len() - i,
    {
        if tokens[i].kind.is_word() {
            indices.push(i);
        }
        i += 1;
    }
    indices
}

/// Tells whether some token among `from .. to` is unlintable.
fn has_unlintable(tokens: &[Token], from: usize, to: usize) -> (r: bool)
    requires
        from <= to <= tokens.len(),
    ensures
        r == unlintable_between(tokens@, from as int, to as int),
{
    let mut k: usize = from;
    while k < to
        invariant
            from <= k <= to <= tokens.len(),
            forall|j: int| from <= j < k ==> !((#[trigger] tokens@[j]).kind is Unlintable),
        decreases to - k,
    {
        if tokens[k].kind.is_unlintable() {
            return true;
        }
        k += 1;
    }
    false
}

/// The characters of `text` up to the first that is neither a letter nor a
/// digit.
pub fn alphanumeric_head(text: &[char]) -> (r: &[char])
    ensures
        r@ == article_head(text@),
{
    let mut n: usize = 0;
    proof {
        assert(text@.skip(0) =~= text@);
    }
    while n < text.len() && is_alphanumeric(text[n])
        invariant
            n <= text.len(),
            alphanumeric_prefix_len(text@) == n + alphanumeric_prefix_len(text@.skip(n as int)),
        decreases text.len() - n,
    {
        proof {
            let rest = text@.skip(n as int);
            assert(rest[0] == text@[n as int]);
            assert(rest.drop_first() =~= text@.skip(n + 1));
        }
        n += 1;
    }
    proof {
        let rest = text@.skip(n as int);
        if n < text.len() {
            assert(rest[0] == text@[n as int]);
        }
        assert(alphanumeric_prefix_len(rest) == 0);
        assert(text@.skip(0) =~= text@);
        assert(text@.subrange(0, n as int) =~= text@.take(n as int));
    }
    slice_subrange(text, 0, n)
}

/// Tells which article `text` is.
pub fn which_article(text: &[char]) -> (r: Option<bool>)
    ensures
        r == article_of(text@),
{
    if text.len() == 1 && (text[0] == 'a' || text[0] == 'A') {
        proof {
            assert(text@ =~= seq![text@[0]]);
        }
        Some(true)
    } else if text.len() == 2 && (text[0] == 'a' || text[0] == 'A') && text[1] == 'n' {
        proof {
            assert(text@ =~= seq![text@[0], text@[1]]);
        }
        Some(false)
    } else {
        proof {
            assert(seq!['a'].len() == 1 && seq!['a'][0] == 'a');
            assert(seq!['A'].len() == 1 && seq!['A'][0] == 'A');
            assert(seq!['a', 'n'].len() == 2 && seq!['a', 'n'][0] == 'a' && seq!['a', 'n'][1]
                == 'n');
            assert(seq!['A', 'n'].len() == 2 && seq!['A', 'n'][0] == 'A' && seq!['A', 'n'][1]
                == 'n');
        }
        None
    }
}

/// Judges the words at `first` and `second`.
fn lint_pair(tokens: &[Token], source: &[char], first_idx: usize, second_idx: usize) -> (r: Option<
    Lint,
>)
    requires
        first_idx < second_idx < tokens.len(),
        tokens_fit(tokens@, source@.len()),
    ensures
        lint_option_view(r) == article_lint(
            tokens@,
            source@,
            first_idx as int,
            second_idx as int,
        ),
{
    // Unlintable text might have semantic meaning.
    if has_unlintable(tokens, first_idx, second_idx) {
        return None;
    }
    let first = &tokens[first_idx];
    let second = &tokens[second_idx];
    assert(tokens@[first_idx as int].span.fits(source@.len()));
    assert(tokens@[second_idx as int].span.fits(source@.len()));

    let chars_first = first.span.get_content(source);
    // Break the second word on hyphens for this lint.
    // Example: "An ML-based" is an acceptable noun phrase.
    let chars_second = alphanumeric_head(second.span.get_content(source));

    let a_an = match which_article(chars_first) {
        Some(a_an) => a_an,
        None => {
            return None;
        },
    };
    let should_be_a_an = !starts_with_vowel(chars_second);

    if a_an != should_be_a_an {
        let mut replacement: Vec<char> = Vec::new();
        replacement.push('a');
        if a_an {
            replacement.push('n');
        }
        proof {
            assert(replacement@ =~= (if a_an {
                seq!['a', 'n']
            } else {
                seq!['a']
            }));
        }
        let mut suggestions: Vec<Suggestion> = Vec::new();
        suggestions.push(Suggestion::replace_with_match_case(replacement, chars_first));
        proof {
            assert(suggestion_views(suggestions@) =~= seq![suggestions@[0]@]);
        }
        Some(
            Lint {
                span: first.span,
                lint_kind: LintKind::Miscellaneous,
                suggestions,
                message: "Incorrect indefinite article.".to_owned(),
                priority: 31,
            },
        )
    } else {
        None
    }
}

/// Reports the misfit articles of one chunk.
///
/// The lints come in text order, no two of them overlap, and each lies
/// inside the text of the chunk.
pub fn lint_chunk_articles(chunk: &[Token], source: &[char]) -> (r: Vec<Lint>)
    requires
        tokens_fit(chunk@, source@.len()),
        tokens_ordered(chunk@),
    ensures
        lint_views(r@) == chunk_article_lints(chunk@, source@),
        lints_disjoint(lint_views(r@)),
        lints_within(lint_views(r@), chunk@),
{
    let mut lints: Vec<Lint> = Vec::new();
    let words = word_indices(chunk);
    let pairs = neighbour_pairs(&words);
    let mut p: usize = 0;
    let ghost mut done: int = 0;
    proof {
        assert(chunk@.len() == chunk.len());
        lemma_words_before(chunk@, chunk@.len() as int);
        assert(lint_views(lints@) =~= Seq::empty());
    }
    while p < pairs.len()
        invariant
            p <= pairs.len(),
            tokens_fit(chunk@, source@.len()),
            tokens_ordered(chunk@),
            pairs@ == neighbours(words@),
            forall|i: int| 0 <= i < words@.len() ==> (#[trigger] words@[i]) < chunk@.len(),
            forall|i: int, j: int| 0 <= i < j < words@.len() ==> (#[trigger] words@[i]) < (
            #[trigger] words@[j]),
            lint_views(lints@) + pair_lints(chunk@, source@, pairs@, p as int) == pair_lints(
                chunk@,
                source@,
                pairs@,
                0,
            ),
            lints_disjoint(lint_views(lints@)),
            lints_within(lint_views(lints@), chunk@),
            lints_end_before(lint_views(lints@), chunk@, done),
            p < pairs.len() ==> done <= words@[p as int],
        decreases pairs.len() - p,
    {
        let (first_idx, second_idx) = pairs[p];
        proof {
            assert(pairs@[p as int] == (words@[p as int], words@[p + 1]));
            assert(words@[p as int] < words@[p + 1]);
        }
        match lint_pair(chunk, source, first_idx, second_idx) {
            Some(lint) => {
                proof {
                    let article = chunk@.subrange(first_idx as int, first_idx + 1);
                    assert(article.first() == chunk@[first_idx as int]);
                    assert(article.last() == chunk@[first_idx as int]);
                    assert(chunk@[first_idx as int].span.fits(source@.len()));
                    lemma_lint_views_push(lints@, lint);
                    lemma_push_lint_within(
                        lint_views(lints@),
                        lint@,
                        chunk@,
                        source@.len(),
                        first_idx as int,
                        first_idx + 1,
                    );
                    done = first_idx + 1;
                }
                lints.push(lint);
            },
            None => {},
        }
        proof {
            assert(lint_views(lints@) + pair_lints(chunk@, source@, pairs@, p + 1) =~= pair_lints(
                chunk@,
                source@,
                pairs@,
                0,
            ));
            if p + 1 < pairs@.len() {
                assert(words@[p as int] < words@[p + 1]);
            }
        }
        p += 1;
    }
    proof {
        assert(lint_views(lints@) + Seq::empty() =~= lint_views(lints@));
    }
    lints
}

/// A rule that looks for incorrect indefinite articles.
#[derive(Debug, Default)]
pub struct AnA;

impl Linter for AnA {
    open spec fn spec_lint(&self, document: &Document) -> Seq<LintView> {
        article_lints(document, 0)
    }

    fn lint(&mut self, document: &Document) -> (r: Vec<Lint>)
        ensures
            lints_disjoint(lint_views(r@)),
    {
        let mut lints: Vec<Lint> = Vec::new();
        let source = document.get_source();
        let count = document.chunk_count();
        let mut c: usize = 0;
        proof {
            assert(lint_views(lints@) =~= Seq::empty());
        }
        while c < count
            invariant
                c <= count,
                count == document.chunk_ends().len(),
                document.wf(),
                source@ == document.source(),
                lint_views(lints@) + article_lints(document, c as int) == article_lints(document, 0),
                lints_disjoint(lint_views(lints@)),
                lints_end_before(
                    lint_views(lints@),
                    document.tokens(),
                    chunk_start(document.chunk_ends(), c as int),
                ),
            decreases count - c,
        {
            let chunk = document.get_chunk(c);
            proof {
                lemma_chunk_is_valid(document, c as int);
            }
            let mut found = lint_chunk_articles(chunk, source);
            proof {
                lemma_append_chunk_lints(document, c as int, lint_views(lints@), lint_views(found@));
                lemma_lint_views_concat(lints@, found@);
            }
            lints.append(&mut found);
            proof {
                assert(lint_views(lints@) + article_lints(document, c + 1) =~= article_lints(
                    document,
                    0,
                ));
            }
            c += 1;
        }
        proof {
            assert(lint_views(lints@) + Seq::empty() =~= lint_views(lints@));
        }
        lints
    }

    open spec fn summary(&self) -> Seq<char> {
        "A rule that looks for incorrect indefinite articles. For example, `this is an mule` would be flagged as incorrect."@
    }

    fn description(&self) -> (r: &str) {
        "A rule that looks for incorrect indefinite articles. For example, `this is an mule` would be flagged as incorrect."
    }
}

} // verus!
