//! "to" where "too" is meant.
use vstd::prelude::*;
use vstd::math::min;
use harper_brill::UPOS;
use crate::char_string::chars_of;
use crate::expr::sequence_expr::{lemma_optional_wildcards_never_fail, optional_wildcard};
use crate::expr::step::{
    at_end, lemma_step_len_bounded, lemma_step_or, lemma_step_tags, lemma_step_whitespace,
    lemma_step_word, step_len, steps_len, Step,
};
use crate::expr::{Expr, SequenceExpr};
use crate::lint::{match_case, suggestion_views, Lint, LintKind, LintView, Suggestion};
use crate::linting::expr_linter::ExprLinter;
use crate::patterns::upos_set::tagged_as;
use crate::patterns::word::{is_word, CasePolicy};
use crate::patterns::{Pattern, UPOSSet};
use crate::token::Token;

verus! {

/// Matches one punctuation mark that ends a sentence.
#[derive(Clone, Copy, Debug, Default)]
pub struct SentenceTerminator;

impl Pattern for SentenceTerminator {
    open spec fn spec_matches(&self, tokens: Seq<Token>, source: Seq<char>) -> Option<nat> {
        if tokens.len() > 0 && tokens[0].kind.ends_sentence() {
            Some(1)
        } else {
            None
        }
    }

    fn matches(&self, tokens: &[Token], _source: &[char]) -> (r: Option<usize>) {
        if tokens.len() > 0 && tokens[0].kind.is_sentence_terminator() {
            Some(1)
        } else {
            None
        }
    }
}

/// What the rule looks for at `cursor`.
///
/// Either "to", whitespace, and an adjective or adverb, with up to seven
/// tokens more; or else "to" and a sentence terminator behind which nothing
/// but whitespace follows.
pub open spec fn to_too_match(cursor: int, tokens: Seq<Token>, source: Seq<char>) -> Option<nat> {
    if to_before_modifier(cursor, tokens, source) {
        Some((3 + min(7, tokens.len() - (cursor + 3))) as nat)
    } else if to_at_end(cursor, tokens, source) {
        Some(2)
    } else {
        None
    }
}

/// Whether "to", whitespace, and an adjective or adverb stand at `cursor`.
pub open spec fn to_before_modifier(cursor: int, tokens: Seq<Token>, source: Seq<char>) -> bool {
    &&& 0 <= cursor
    &&& cursor + 3 <= tokens.len()
    &&& is_word(tokens[cursor], source, "to"@)
    &&& tokens[cursor + 1].kind.whitespace()
    &&& tagged_as(tokens[cursor + 2], seq![UPOS::ADJ, UPOS::ADV])
}

/// Whether "to" stands at `cursor`, right before a sentence terminator that
/// only whitespace follows.
pub open spec fn to_at_end(cursor: int, tokens: Seq<Token>, source: Seq<char>) -> bool {
    &&& 0 <= cursor
    &&& cursor + 2 <= tokens.len()
    &&& is_word(tokens[cursor], source, "to"@)
    &&& at_end(tokens, cursor + 1)
    &&& tokens[cursor + 1].kind.ends_sentence()
}

/// Whether some token from the third on belongs to a noun phrase.
pub open spec fn reaches_noun_phrase(matched: Seq<Token>) -> bool {
    exists|i: int|
        2 <= i < matched.len() && ((#[trigger] matched[i]).kind.metadata() matches Some(meta)
            && meta.np_member)
}

/// The lint for a match, where the rule reports one.
///
/// Nothing is reported where a token from the third on belongs to a noun
/// phrase, nor where the fifth token carries a nominal tag: there "to" is a
/// preposition. The lint covers the "to" and suggests "too" in its case.
pub open spec fn to_too_lint(matched: Seq<Token>, source: Seq<char>) -> Option<LintView> {
    if matched.len() == 0 || reaches_noun_phrase(matched) {
        None
    } else if matched.len() > 4 && (matched[4].kind.metadata() matches Some(meta)
        && meta.has_nominal_tag()) {
        None
    } else {
        Some(
            LintView {
                span: matched[0].span,
                lint_kind: LintKind::Typo,
                suggestions: seq![match_case("too"@, matched[0].span.content(source))],
                message: "Use `too` (with two oâ€™s) when indicating excess or addition."@,
                priority: 31,
            },
        )
    }
}

/// Handles the transition from `to` -> `too`.
pub struct ToToo {
    expr: Box<dyn Expr>,
}

impl ToToo {
    /// The number of tokens that the rule's expression matches at `cursor`,
    /// if it matches there.
    pub closed spec fn expr_match(&self, cursor: int, tokens: Seq<Token>, source: Seq<char>) -> Option<
        nat,
    > {
        self.expr.spec_run(cursor, tokens, source)
    }

    #[verifier::type_invariant]
    spec fn looks_for_to(self) -> bool {
        forall|cursor: int, tokens: Seq<Token>, source: Seq<char>|
            #[trigger] self.expr.spec_run(cursor, tokens, source) == to_too_match(
                cursor,
                tokens,
                source,
            )
    }
}

/// Whether `step` matches the word "to" in any capitalization.
pub open spec fn is_to_step(step: Step<SentenceTerminator>) -> bool {
    step matches Step::Word(held) && held.text() == "to"@ && held.policy() == CasePolicy::AnyCase
}

/// Whether `steps` are the steps of the first way to match: "to",
/// whitespace, an adjective or adverb, and seven optional wildcards.
pub open spec fn is_before_modifier_steps(steps: Seq<Step<SentenceTerminator>>) -> bool {
    &&& steps.len() == 10
    &&& is_to_step(steps[0])
    &&& steps[1] == Step::<SentenceTerminator>::Whitespace
    &&& steps[2] matches Step::Tags(tags) && tags.tags() == seq![UPOS::ADJ, UPOS::ADV]
    &&& forall|i: int| 3 <= i < 10 ==> #[trigger] steps[i] == optional_wildcard::<SentenceTerminator>()
}

/// Whether `steps` are the steps of the second way to match: "to" and a
/// sentence terminator at the end.
pub open spec fn is_at_end_steps(steps: Seq<Step<SentenceTerminator>>) -> bool {
    &&& steps.len() == 3
    &&& is_to_step(steps[0])
    &&& steps[1] == Step::<SentenceTerminator>::AnchorEnd
    &&& steps[2] == Step::Predicate(SentenceTerminator)
}

/// Whether `steps` are the steps of the rule's trigger: the one step that
/// tries the first way to match and then the second.
pub open spec fn is_to_too_steps(steps: Seq<Step<SentenceTerminator>>) -> bool {
    &&& steps.len() == 1
    &&& steps[0] matches Step::Or(first, second) && (*first matches Step::Sequence(most)
        && is_before_modifier_steps(most@)) && (*second matches Step::Sequence(last)
        && is_at_end_steps(last@))
}

/// The first way to match, tried at one cursor.
proof fn lemma_before_modifier_at(
    steps: Seq<Step<SentenceTerminator>>,
    cursor: int,
    tokens: Seq<Token>,
    source: Seq<char>,
)
    requires
        is_before_modifier_steps(steps),
    ensures
        steps_len(steps, 0, cursor, tokens, source) == (if to_before_modifier(
            cursor,
            tokens,
            source,
        ) {
            Some((3 + min(7, tokens.len() - (cursor + 3))) as nat)
        } else {
            None
        }),
{
    match (steps[0], steps[2]) {
        (Step::Word(word), Step::Tags(tags)) => {
            lemma_step_word::<SentenceTerminator>(word, cursor, tokens, source);
            lemma_step_whitespace::<SentenceTerminator>(cursor + 1, tokens, source);
            lemma_step_tags::<SentenceTerminator>(tags, cursor + 2, tokens, source);
            let at2 = steps_len(steps, 2, cursor + 2, tokens, source);
            let at1 = steps_len(steps, 1, cursor + 1, tokens, source);
            if 0 <= cursor && cursor + 3 <= tokens.len() {
                lemma_optional_wildcards_never_fail(steps, 3, 7, cursor + 3, tokens, source);
                let taken = min(7, tokens.len() - (cursor + 3)) as nat;
                assert(steps_len(steps, 10, cursor + 3 + taken, tokens, source) == Some(0nat));
                assert(steps_len(steps, 3, cursor + 3, tokens, source) == Some(taken));
                assert(at2 == (if tagged_as(tokens[cursor + 2], seq![UPOS::ADJ, UPOS::ADV]) {
                    Some(1 + taken)
                } else {
                    None
                }));
                assert(at1 == (if tokens[cursor + 1].kind.whitespace() {
                    match at2 {
                        Some(n) => Some(1 + n),
                        None => None,
                    }
                } else {
                    None
                }));
            } else if 0 <= cursor < tokens.len() {
                assert(at2 is None);
                assert(at1 is None);
            }
        },
        _ => {},
    }
}

/// The second way to match, tried at one cursor.
proof fn lemma_at_end_at(
    steps: Seq<Step<SentenceTerminator>>,
    cursor: int,
    tokens: Seq<Token>,
    source: Seq<char>,
)
    requires
        is_at_end_steps(steps),
    ensures
        steps_len(steps, 0, cursor, tokens, source) == (if to_at_end(cursor, tokens, source) {
            Some(2nat)
        } else {
            None
        }),
{
    match steps[0] {
        Step::Word(word) => {
            lemma_step_word::<SentenceTerminator>(word, cursor, tokens, source);
            let at2 = steps_len(steps, 2, cursor + 1, tokens, source);
            let at1 = steps_len(steps, 1, cursor + 1, tokens, source);
            if 0 <= cursor < tokens.len() {
                if cursor + 1 < tokens.len() {
                    assert(tokens.subrange(cursor + 1, tokens.len() as int)[0] == tokens[cursor + 1]);
                }
                assert(steps_len(steps, 3, cursor + 2, tokens, source) == (if cursor + 2
                    <= tokens.len() {
                    Some(0nat)
                } else {
                    None
                }));
                let terminator = step_len(steps[2], cursor + 1, tokens, source);
                assert(terminator == (if cursor + 1 < tokens.len() && tokens[cursor
                    + 1].kind.ends_sentence() {
                    Some(1nat)
                } else {
                    None
                }));
                let anchor = step_len(steps[1], cursor + 1, tokens, source);
                assert(anchor == (if at_end(tokens, cursor + 1) {
                    Some(0nat)
                } else {
                    None
                }));
                assert(at2 == (if cursor + 1 < tokens.len() && tokens[cursor
                    + 1].kind.ends_sentence() {
                    Some(1nat)
                } else {
                    None
                }));
                assert(at1 == (if at_end(tokens, cursor + 1) {
                    at2
                } else {
                    None
                }));
            }
        },
        _ => {},
    }
}

/// The steps of the trigger match exactly what [`to_too_match`] describes.
pub proof fn lemma_sequence_is_to_too(steps: Seq<Step<SentenceTerminator>>)
    requires
        is_to_too_steps(steps),
    ensures
        forall|cursor: int, tokens: Seq<Token>, source: Seq<char>|
            #[trigger] steps_len(steps, 0, cursor, tokens, source) == to_too_match(
                cursor,
                tokens,
                source,
            ),
{
    assert forall|cursor: int, tokens: Seq<Token>, source: Seq<char>|
        #[trigger] steps_len(steps, 0, cursor, tokens, source) == to_too_match(
            cursor,
            tokens,
            source,
        ) by {
        match steps[0] {
            Step::Or(first, second) => {
                lemma_step_or(*first, *second, cursor, tokens, source);
                match (*first, *second) {
                    (Step::Sequence(most), Step::Sequence(last)) => {
                        lemma_before_modifier_at(most@, cursor, tokens, source);
                        lemma_at_end_at(last@, cursor, tokens, source);
                        lemma_step_len_bounded(steps[0], cursor, tokens, source);
                        let whole = step_len(steps[0], cursor, tokens, source);
                        assert(whole == to_too_match(cursor, tokens, source));
                        match whole {
                            Some(n) => {
                                assert(steps_len(steps, 1, cursor + n, tokens, source) == Some(
                                    0nat,
                                ));
                            },
                            None => {},
                        }
                    },
                    _ => {},
                }
            },
            _ => {},
        }
    }
}

impl Default for ToToo {
    /// Makes the rule. Its expression matches exactly what [`to_too_match`]
    /// describes.
    fn default() -> (r: Self)
        ensures
            forall|cursor: int, tokens: Seq<Token>, source: Seq<char>|
                #[trigger] r.expr_match(cursor, tokens, source) == to_too_match(
                    cursor,
                    tokens,
                    source,
                ),
    {
        let tags = [UPOS::ADJ, UPOS::ADV];
        proof {
            assert(tags@ =~= seq![UPOS::ADJ, UPOS::ADV]);
        }
        let most: SequenceExpr<SentenceTerminator> = SequenceExpr::aco("to").t_ws().then_expr(
            Step::Tags(UPOSSet::new(&tags)),
        ).then_optional(Step::Any).then_optional(Step::Any).then_optional(Step::Any).then_optional(
            Step::Any,
        ).then_optional(Step::Any).then_optional(Step::Any).then_optional(Step::Any);
        let last: SequenceExpr<SentenceTerminator> = SequenceExpr::default().t_aco("to").then_expr(
            Step::AnchorEnd,
        ).then_predicate(SentenceTerminator);
        proof {
            assert(is_before_modifier_steps(most.steps()));
            assert(last.steps().drop_last().drop_last().push(Step::AnchorEnd).push(
                Step::Predicate(SentenceTerminator),
            ) =~= last.steps());
            assert(is_at_end_steps(last.steps()));
        }
        let expr = most.or(last);
        proof {
            lemma_sequence_is_to_too(expr.steps());
        }
        let boxed: Box<dyn Expr> = Box::new(expr);
        Self { expr: boxed }
    }
}

impl ExprLinter for ToToo {
    open spec fn trigger(&self, cursor: int, tokens: Seq<Token>, source: Seq<char>) -> Option<nat> {
        to_too_match(cursor, tokens, source)
    }

    fn expr(&self) -> (e: &Box<dyn Expr>) {
        proof {
            use_type_invariant(self);
        }
        &self.expr
    }

    open spec fn spec_match_to_lint(&self, matched: Seq<Token>, source: Seq<char>) -> Option<
        LintView,
    > {
        to_too_lint(matched, source)
    }

    fn match_to_lint(&self, matched_tokens: &[Token], source: &[char]) -> (r: Option<Lint>) {
        if matched_tokens.len() == 0 {
            return None;
        }
        let to_tok = &matched_tokens[0];
        let span = to_tok.span;
        assert(matched_tokens@[0].span.fits(source@.len()));
        let original = span.get_content(source);

        let mut i: usize = 2;
        while i < matched_tokens.len()
            invariant
                2 <= i,
                forall|k: int|
                    2 <= k < i && k < matched_tokens@.len() ==> !((
                    #[trigger] matched_tokens@[k]).kind.metadata() matches Some(meta)
                        && meta.np_member),
            decreases matched_tokens.len() - i,
        {
            if matched_tokens[i].kind.is_np_member() {
                return None;
            }
            i += 1;
        }

        if matched_tokens.len() > 4 {
            if let Some(Some(meta)) = matched_tokens[4].kind.as_word() {
                if let Some(tag) = meta.pos_tag {
                    if tag.is_nominal() {
                        return None;
                    }
                }
            }
        }
        proof {
            if matched_tokens@.len() > 1 {
                assert(matched_tokens@[0].span.end <= matched_tokens@[matched_tokens@.len()
                    - 1].span.start);
                assert(matched_tokens@[matched_tokens@.len() - 1].span.fits(source@.len()));
            }
        }
        let mut suggestions: Vec<Suggestion> = Vec::new();
        suggestions.push(Suggestion::replace_with_match_case(chars_of("too"), original));
        proof {
            assert(suggestion_views(suggestions@) =~= seq![suggestions@[0]@]);
        }
        Some(
            Lint {
                span,
                lint_kind: LintKind::Typo,
                suggestions,
                message: "Use `too` (with two oâ€™s) when indicating excess or addition.".to_owned(),
                priority: 31,
            },
        )
    }

    open spec fn summary(&self) -> Seq<char> {
        "Handles the transition from `to` -> `too`."@
    }

    fn description(&self) -> (r: &str) {
        "Handles the transition from `to` -> `too`."
    }
}

} // verus!
