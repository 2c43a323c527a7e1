//! Nouns that want an article after a verb.
use vstd::prelude::*;
use harper_brill::UPOS;
use crate::char_string::chars_of;
use crate::expr::step::{
    lemma_step_any, lemma_step_optional, lemma_step_or, lemma_step_tags,
    lemma_step_unless, lemma_step_whitespace, lemma_step_words, lemma_steps_pair, step_len,
    steps_len, Step,
};
use crate::expr::{Expr, SequenceExpr};
use crate::lint::{suggestion_views, Lint, LintKind, LintView, Suggestion};
use crate::linting::expr_linter::ExprLinter;
use crate::patterns::upos_set::tagged_as;
use crate::patterns::word::{is_word, text_matches, CasePolicy};
use crate::patterns::word_set::text_in_words;
use crate::patterns::{Pattern, UPOSSet, WordSet};
use crate::starts_with_vowel::{spec_starts_with_vowel, starts_with_vowel};
use crate::token::Token;

verus! {

/// Whether `token` is a verb in a form that takes an object: tagged as a
/// verb, and neither progressive, linking nor auxiliary.
pub open spec fn is_plain_verb(token: Token) -> bool {
    &&& token.kind.has_tag(UPOS::VERB)
    &&& !(token.kind.metadata() matches Some(meta) && meta.verb_progressive_form)
    &&& !(token.kind.metadata() matches Some(meta) && meta.linking_verb)
    &&& !(token.kind.metadata() matches Some(meta) && meta.auxiliary_verb)
}

/// Matches one verb that is neither progressive, linking nor auxiliary.
#[derive(Clone, Copy, Debug, Default)]
pub struct PlainVerb;

impl Pattern for PlainVerb {
    open spec fn spec_matches(&self, tokens: Seq<Token>, source: Seq<char>) -> Option<nat> {
        if tokens.len() > 0 && is_plain_verb(tokens[0]) {
            Some(1)
        } else {
            None
        }
    }

    fn matches(&self, tokens: &[Token], _source: &[char]) -> (r: Option<usize>) {
        if tokens.len() == 0 {
            return None;
        }
        let tok = &tokens[0];
        if tok.kind.is_upos(UPOS::VERB) && !tok.kind.is_verb_progressive_form()
            && !tok.kind.is_linking_verb() && !tok.kind.is_auxiliary_verb() {
            Some(1)
        } else {
            None
        }
    }
}

/// Whether `token` cannot stand before the verb: a determiner, adjective,
/// adverb, pronoun or auxiliary by its tag, or the word "means".
pub open spec fn is_excluded_lead(token: Token, source: Seq<char>) -> bool {
    ||| tagged_as(token, seq![UPOS::DET, UPOS::ADJ, UPOS::ADV, UPOS::PRON, UPOS::AUX])
    ||| is_word(token, source, "means"@)
}

/// Whether `token` can be the object: a noun or proper noun by its tag, and
/// not the word "forces".
pub open spec fn is_object(token: Token, source: Seq<char>) -> bool {
    tagged_as(token, seq![UPOS::NOUN, UPOS::PROPN]) && !is_word(token, source, "forces"@)
}

/// The number of tokens taken behind the object, which ends at `end`: the
/// next token, whatever it is, and the one behind that unless it carries a
/// nominal tag.
pub open spec fn tail_len(tokens: Seq<Token>, end: int) -> nat {
    let first: nat = if end < tokens.len() {
        1
    } else {
        0
    };
    let nominal = seq![UPOS::NOUN, UPOS::PROPN, UPOS::PRON];
    let second: nat = if end + first < tokens.len() && !tagged_as(tokens[end + first], nominal) {
        1
    } else {
        0
    };
    first + second
}

/// What the rule looks for at `cursor`: a token that may stand before a verb,
/// whitespace, a plain verb, whitespace, and an object; then up to two
/// tokens more.
pub open spec fn missing_article_match(
    cursor: int,
    tokens: Seq<Token>,
    source: Seq<char>,
) -> Option<nat> {
    if {
        &&& 0 <= cursor
        &&& cursor + 5 <= tokens.len()
        &&& !is_excluded_lead(tokens[cursor], source)
        &&& tokens[cursor + 1].kind.whitespace()
        &&& is_plain_verb(tokens[cursor + 2])
        &&& tokens[cursor + 3].kind.whitespace()
        &&& is_object(tokens[cursor + 4], source)
    } {
        Some(5 + tail_len(tokens, cursor + 5))
    } else {
        None
    }
}

/// The text of a suggestion: `article`, a space, and `noun`.
pub open spec fn with_article(article: Seq<char>, noun: Seq<char>) -> Seq<char> {
    article + seq![' '] + noun
}

/// The lint for a match, where the rule reports one.
///
/// The first matched token must be a word that the dictionary has; where
/// the tagger gave it no tag, it must not be a determiner, an adjective or a
/// possessive noun. The fifth is the object, which must be a singular
/// nominal. The lint covers the object and suggests it with the indefinite
/// article that fits its sound, then with the definite article.
pub open spec fn missing_article_lint(matched: Seq<Token>, source: Seq<char>) -> Option<LintView> {
    if matched.len() < 5 {
        None
    } else {
        match matched[0].kind.metadata() {
            None => None,
            Some(first) => {
                let object = matched[4];
                let noun = object.span.content(source);
                if first.pos_tag is None && (first.determiner || first.adjective
                    || first.possessive_noun) {
                    None
                } else if !(object.kind.metadata() matches Some(meta) && meta.singular_nominal) {
                    None
                } else {
                    Some(
                        LintView {
                            span: object.span,
                            lint_kind: LintKind::Miscellaneous,
                            suggestions: seq![
                                with_article(
                                    if spec_starts_with_vowel(noun) {
                                        "an"@
                                    } else {
                                        "a"@
                                    },
                                    noun,
                                ),
                                with_article("the"@, noun),
                            ],
                            message: "Consider adding an article before this noun."@,
                            priority: 0,
                        },
                    )
                }
            },
        }
    }
}

/// Flags nouns that follow a verb without an article or quantifier.
pub struct MissingArticle {
    expr: Box<dyn Expr>,
}

/// Writes `article`, a space and `noun` as one suggestion.
fn suggest_with_article(article: &str, noun: &[char]) -> (r: Suggestion)
    ensures
        r@ == with_article(article@, noun@),
{
    let mut text = chars_of(article);
    text.push(' ');
    let mut i: usize = 0;
    let ghost head = text@;
    while i < noun.len()
        invariant
            i <= noun.len(),
            text@ == head + noun@.take(i as int),
        decreases noun.len() - i,
    {
        text.push(noun[i]);
        proof {
            assert(noun@.take(i + 1) =~= noun@.take(i as int).push(noun@[i as int]));
            assert(head + noun@.take(i + 1) =~= (head + noun@.take(i as int)).push(noun@[i as int]));
        }
        i += 1;
    }
    proof {
        assert(noun@.take(noun@.len() as int) =~= noun@);
        assert(head =~= article@ + seq![' ']);
    }
    Suggestion::ReplaceWith(text)
}

impl MissingArticle {
    /// The number of tokens that the rule's expression matches at `cursor`,
    /// if it matches there.
    pub closed spec fn expr_match(&self, cursor: int, tokens: Seq<Token>, source: Seq<char>) -> Option<
        nat,
    > {
        self.expr.spec_run(cursor, tokens, source)
    }

    #[verifier::type_invariant]
    spec fn looks_for_missing_articles(self) -> bool {
        forall|cursor: int, tokens: Seq<Token>, source: Seq<char>|
            #[trigger] self.expr.spec_run(cursor, tokens, source) == missing_article_match(
                cursor,
                tokens,
                source,
            )
    }
}

impl Default for MissingArticle {
    /// Makes the rule. Its expression matches exactly what
    /// [`missing_article_match`] describes.
    fn default() -> (r: Self)
        ensures
            forall|cursor: int, tokens: Seq<Token>, source: Seq<char>|
                #[trigger] r.expr_match(cursor, tokens, source) == missing_article_match(
                    cursor,
                    tokens,
                    source,
                ),
    {
        let lead_tags = [UPOS::DET, UPOS::ADJ, UPOS::ADV, UPOS::PRON, UPOS::AUX];
        let object_tags = [UPOS::NOUN, UPOS::PROPN];
        proof {
            assert(lead_tags@ =~= seq![UPOS::DET, UPOS::ADJ, UPOS::ADV, UPOS::PRON, UPOS::AUX]);
            assert(object_tags@ =~= seq![UPOS::NOUN, UPOS::PROPN]);
        }
        let means = ["means"];
        let forces = ["forces"];
        let means_set = WordSet::new(&means);
        let forces_set = WordSet::new(&forces);
        proof {
            assert(means_set.words() =~= seq!["means"@]);
            assert(forces_set.words() =~= seq!["forces"@]);
        }
        let lead = Step::Tags(UPOSSet::new(&lead_tags)).or(Step::Words(means_set));
        let object = Step::Tags(UPOSSet::new(&object_tags)).and_not(Step::Words(forces_set));
        let trailing = Step::unless(Step::Tags(UPOSSet::new_nominal()), Step::Any);
        let ghost guard = Step::Unless(Box::new(lead));
        let ghost last = Step::Optional(Box::new(trailing));
        let ghost noun = object;

        let expr: SequenceExpr<PlainVerb> = SequenceExpr::default().then_unless(lead).t_any().t_ws().then_predicate(
            PlainVerb,
        ).t_ws().then_expr(object).then_optional(Step::Any).then_optional(trailing);
        proof {
            let steps = expr.steps();
            assert(steps =~= seq![
                guard,
                Step::Any,
                Step::Whitespace,
                Step::Predicate(PlainVerb),
                Step::Whitespace,
                noun,
                Step::Optional(Box::new(Step::Any)),
                last,
            ]);
            assert(is_missing_article_steps(steps));
            lemma_sequence_is_missing_article(steps);
        }
        let boxed: Box<dyn Expr> = Box::new(expr);
        Self { expr: boxed }
    }
}

impl ExprLinter for MissingArticle {
    open spec fn trigger(&self, cursor: int, tokens: Seq<Token>, source: Seq<char>) -> Option<nat> {
        missing_article_match(cursor, tokens, source)
    }

    fn expr(&self) -> (e: &Box<dyn Expr>) {
        proof {
            use_type_invariant(self);
        }
        &self.expr
    }

    open spec fn spec_match_to_lint(&self, matched: Seq<Token>, source: Seq<char>) -> Option<
        LintView,
    > {
        missing_article_lint(matched, source)
    }

    fn match_to_lint(&self, matched_tokens: &[Token], source: &[char]) -> (r: Option<Lint>) {
        if matched_tokens.len() == 0 {
            return None;
        }
        let first_meta = match matched_tokens[0].kind.word_metadata() {
            Some(meta) => meta,
            None => {
                return None;
            },
        };

        if first_meta.pos_tag.is_none() && (first_meta.is_determiner() || first_meta.is_adjective()
            || first_meta.is_possessive_noun()) {
            return None;
        }
        if matched_tokens.len() < 5 {
            return None;
        }
        let object = &matched_tokens[4];
        let singular = object.kind.is_singular_nominal();
        if !singular {
            return None;
        }
        proof {
            assert(matched_tokens@[4].span.fits(source@.len()));
            assert(matched_tokens@[0].span.fits(source@.len()));
            assert(matched_tokens@[0].span.end <= matched_tokens@[4].span.start);
            if 4 < matched_tokens@.len() - 1 {
                assert(matched_tokens@[4].span.end <= matched_tokens@[matched_tokens@.len()
                    - 1].span.start);
                assert(matched_tokens@[matched_tokens@.len() - 1].span.fits(source@.len()));
            }
        }
        let noun = object.span.get_content(source);
        let indef = if starts_with_vowel(noun) {
            "an"
        } else {
            "a"
        };
        let mut suggestions: Vec<Suggestion> = Vec::new();
        suggestions.push(suggest_with_article(indef, noun));
        suggestions.push(suggest_with_article("the", noun));
        proof {
            assert(suggestion_views(suggestions@) =~= seq![suggestions@[0]@, suggestions@[1]@]);
        }
        Some(
            Lint {
                span: object.span,
                lint_kind: LintKind::Miscellaneous,
                suggestions,
                message: "Consider adding an article before this noun.".to_owned(),
                priority: 0,
            },
        )
    }

    open spec fn summary(&self) -> Seq<char> {
        "Flags nouns that follow a verb without an article or quantifier."@
    }

    fn description(&self) -> (r: &str) {
        "Flags nouns that follow a verb without an article or quantifier."
    }
}

/// Whether `steps` are the steps of the rule's trigger.
pub open spec fn is_missing_article_steps(steps: Seq<Step<PlainVerb>>) -> bool {
    &&& steps.len() == 8
    &&& steps[0] matches Step::Unless(lead) && (*lead matches Step::Or(by_tag, by_word) && (
    *by_tag matches Step::Tags(tags) && tags.tags() == seq![
        UPOS::DET,
        UPOS::ADJ,
        UPOS::ADV,
        UPOS::PRON,
        UPOS::AUX,
    ]) && (*by_word matches Step::Words(words) && words.words() == seq!["means"@] && words.policy()
        == CasePolicy::AnyCase))
    &&& steps[1] == Step::<PlainVerb>::Any
    &&& steps[2] == Step::<PlainVerb>::Whitespace
    &&& steps[3] == Step::Predicate(PlainVerb)
    &&& steps[4] == Step::<PlainVerb>::Whitespace
    &&& steps[5] matches Step::Sequence(parts) && parts@.len() == 2 && (
    parts@[0] matches Step::Unless(not) && (*not matches Step::Words(words) && words.words()
        == seq!["forces"@] && words.policy() == CasePolicy::AnyCase)) && (
    parts@[1] matches Step::Tags(tags) && tags.tags() == seq![UPOS::NOUN, UPOS::PROPN])
    &&& steps[6] == Step::Optional(Box::new(Step::<PlainVerb>::Any))
    &&& steps[7] matches Step::Optional(inner) && (*inner matches Step::Sequence(parts)
        && parts@.len() == 2 && (parts@[0] matches Step::Unless(not) && (
    *not matches Step::Tags(tags) && tags.tags() == seq![UPOS::NOUN, UPOS::PROPN, UPOS::PRON]))
        && parts@[1] == Step::<PlainVerb>::Any)
}

/// The steps of the trigger match exactly what
/// [`missing_article_match`] describes.
pub proof fn lemma_sequence_is_missing_article(steps: Seq<Step<PlainVerb>>)
    requires
        is_missing_article_steps(steps),
    ensures
        forall|cursor: int, tokens: Seq<Token>, source: Seq<char>|
            #[trigger] steps_len(steps, 0, cursor, tokens, source) == missing_article_match(
                cursor,
                tokens,
                source,
            ),
{
    assert forall|cursor: int, tokens: Seq<Token>, source: Seq<char>|
        #[trigger] steps_len(steps, 0, cursor, tokens, source) == missing_article_match(
            cursor,
            tokens,
            source,
        ) by {
        lemma_missing_article_at(steps, cursor, tokens, source);
    }
}

/// The guard against an excluded lead holds where the token at the cursor
/// may stand before the verb, and where there is no token.
proof fn lemma_lead_guard(
    step: Step<PlainVerb>,
    cursor: int,
    tokens: Seq<Token>,
    source: Seq<char>,
)
    requires
        step matches Step::Unless(lead) && (*lead matches Step::Or(by_tag, by_word) && (
        *by_tag matches Step::Tags(tags) && tags.tags() == seq![
            UPOS::DET,
            UPOS::ADJ,
            UPOS::ADV,
            UPOS::PRON,
            UPOS::AUX,
        ]) && (*by_word matches Step::Words(words) && words.words() == seq!["means"@]
            && words.policy() == CasePolicy::AnyCase)),
    ensures
        step_len(step, cursor, tokens, source) == (if 0 <= cursor <= tokens.len() && !(cursor
            < tokens.len() && is_excluded_lead(tokens[cursor], source)) {
            Some(0nat)
        } else {
            None
        }),
{
    match step {
        Step::Unless(lead) => {
            lemma_step_unless(*lead, cursor, tokens, source);
            match *lead {
                Step::Or(by_tag, by_word) => {
                    lemma_step_or(*by_tag, *by_word, cursor, tokens, source);
                    match (*by_tag, *by_word) {
                        (Step::Tags(tags), Step::Words(words)) => {
                            lemma_step_tags::<PlainVerb>(tags, cursor, tokens, source);
                            lemma_step_words::<PlainVerb>(words, cursor, tokens, source);
                            lemma_one_word(
                                words.policy(),
                                tokens[cursor].span.content(source),
                                "means"@,
                            );
                        },
                        _ => {},
                    }
                },
                _ => {},
            }
        },
        _ => {},
    }
}

/// A text is in a set of one word where it is that word.
proof fn lemma_one_word(policy: CasePolicy, text: Seq<char>, word: Seq<char>)
    ensures
        text_in_words(policy, text, seq![word]) == text_matches(policy, text, word),
{
    let words = seq![word];
    if text_matches(policy, text, word) {
        assert(text_matches(policy, text, words[0]));
    }
}

/// The object step matches the token at the cursor where that can be the
/// object.
proof fn lemma_object_step(
    step: Step<PlainVerb>,
    cursor: int,
    tokens: Seq<Token>,
    source: Seq<char>,
)
    requires
        step matches Step::Sequence(parts) && parts@.len() == 2 && (
        parts@[0] matches Step::Unless(not) && (*not matches Step::Words(words) && words.words()
            == seq!["forces"@] && words.policy() == CasePolicy::AnyCase)) && (
        parts@[1] matches Step::Tags(tags) && tags.tags() == seq![UPOS::NOUN, UPOS::PROPN]),
    ensures
        step_len(step, cursor, tokens, source) == (if 0 <= cursor < tokens.len() && is_object(
            tokens[cursor],
            source,
        ) {
            Some(1nat)
        } else {
            None
        }),
{
    match step {
        Step::Sequence(parts) => {
            lemma_steps_pair(parts@, cursor, tokens, source);
            match (parts@[0], parts@[1]) {
                (Step::Unless(not), Step::Tags(tags)) => {
                    lemma_step_unless(*not, cursor, tokens, source);
                    lemma_step_tags::<PlainVerb>(tags, cursor, tokens, source);
                    match *not {
                        Step::Words(words) => {
                            lemma_step_words::<PlainVerb>(words, cursor, tokens, source);
                            lemma_one_word(
                                words.policy(),
                                tokens[cursor].span.content(source),
                                "forces"@,
                            );
                        },
                        _ => {},
                    }
                },
                _ => {},
            }
        },
        _ => {},
    }
}

/// The last step takes the token at the cursor unless that carries a
/// nominal tag, and never fails.
proof fn lemma_trailing_step(
    step: Step<PlainVerb>,
    cursor: int,
    tokens: Seq<Token>,
    source: Seq<char>,
)
    requires
        step matches Step::Optional(inner) && (*inner matches Step::Sequence(parts)
            && parts@.len() == 2 && (parts@[0] matches Step::Unless(not) && (
        *not matches Step::Tags(tags) && tags.tags() == seq![UPOS::NOUN, UPOS::PROPN, UPOS::PRON]))
            && parts@[1] == Step::<PlainVerb>::Any),
        0 <= cursor <= tokens.len(),
    ensures
        step_len(step, cursor, tokens, source) == Some(
            if cursor < tokens.len() && !tagged_as(
                tokens[cursor],
                seq![UPOS::NOUN, UPOS::PROPN, UPOS::PRON],
            ) {
                1nat
            } else {
                0nat
            },
        ),
{
    match step {
        Step::Optional(inner) => {
            lemma_step_optional(*inner, cursor, tokens, source);
            match *inner {
                Step::Sequence(parts) => {
                    lemma_steps_pair(parts@, cursor, tokens, source);
                    lemma_step_any::<PlainVerb>(cursor, tokens, source);
                    match parts@[0] {
                        Step::Unless(not) => {
                            lemma_step_unless(*not, cursor, tokens, source);
                            match *not {
                                Step::Tags(tags) => {
                                    lemma_step_tags::<PlainVerb>(tags, cursor, tokens, source);
                                },
                                _ => {},
                            }
                        },
                        _ => {},
                    }
                },
                _ => {},
            }
        },
        _ => {},
    }
}

/// The steps of the trigger, tried at one cursor, match what
/// [`missing_article_match`] describes there.
proof fn lemma_missing_article_at(
    steps: Seq<Step<PlainVerb>>,
    cursor: int,
    tokens: Seq<Token>,
    source: Seq<char>,
)
    requires
        is_missing_article_steps(steps),
    ensures
        steps_len(steps, 0, cursor, tokens, source) == missing_article_match(cursor, tokens, source),
{
    lemma_lead_guard(steps[0], cursor, tokens, source);
    lemma_step_any::<PlainVerb>(cursor, tokens, source);
    lemma_step_whitespace::<PlainVerb>(cursor + 1, tokens, source);
    lemma_step_whitespace::<PlainVerb>(cursor + 3, tokens, source);
    lemma_object_step(steps[5], cursor + 4, tokens, source);
    lemma_step_optional(Step::<PlainVerb>::Any, cursor + 5, tokens, source);
    lemma_step_any::<PlainVerb>(cursor + 5, tokens, source);
    if 0 <= cursor && cursor + 5 <= tokens.len() {
        let first: nat = if cursor + 5 < tokens.len() {
            1
        } else {
            0
        };
        lemma_trailing_step(steps[7], cursor + 5 + first, tokens, source);
        assert(tokens.subrange(cursor + 2, tokens.len() as int)[0] == tokens[cursor + 2]);
        assert(step_len(steps[3], cursor + 2, tokens, source) == (if is_plain_verb(
            tokens[cursor + 2],
        ) {
            Some(1nat)
        } else {
            None
        }));
        let at8 = steps_len(steps, 8, cursor + 5 + tail_len(tokens, cursor + 5), tokens, source);
        assert(at8 == Some(0nat));
        let at7 = steps_len(steps, 7, cursor + 5 + first, tokens, source);
        assert(at7 == Some((tail_len(tokens, cursor + 5) - first) as nat));
        let at6 = steps_len(steps, 6, cursor + 5, tokens, source);
        assert(at6 == Some(tail_len(tokens, cursor + 5)));
        let at5 = steps_len(steps, 5, cursor + 4, tokens, source);
        assert(at5 == (if is_object(tokens[cursor + 4], source) {
            Some(1 + tail_len(tokens, cursor + 5))
        } else {
            None
        }));
        let at4 = steps_len(steps, 4, cursor + 3, tokens, source);
        assert(at4 == (if tokens[cursor + 3].kind.whitespace() {
            match at5 {
                Some(n) => Some(1 + n),
                None => None,
            }
        } else {
            None
        }));
        let at3 = steps_len(steps, 3, cursor + 2, tokens, source);
        assert(at3 == (if is_plain_verb(tokens[cursor + 2]) {
            match at4 {
                Some(n) => Some(1 + n),
                None => None,
            }
        } else {
            None
        }));
        let at2 = steps_len(steps, 2, cursor + 1, tokens, source);
        assert(at2 == (if tokens[cursor + 1].kind.whitespace() {
            match at3 {
                Some(n) => Some(1 + n),
                None => None,
            }
        } else {
            None
        }));
        let at1 = steps_len(steps, 1, cursor, tokens, source);
        assert(at1 == (match at2 {
            Some(n) => Some(1 + n),
            None => None,
        }));
    } else {
        lemma_short_of_tokens(steps, cursor, tokens, source);
    }
}

/// The trigger fails where fewer than five tokens are left.
proof fn lemma_short_of_tokens(
    steps: Seq<Step<PlainVerb>>,
    cursor: int,
    tokens: Seq<Token>,
    source: Seq<char>,
)
    requires
        is_missing_article_steps(steps),
        !(0 <= cursor && cursor + 5 <= tokens.len()),
    ensures
        steps_len(steps, 0, cursor, tokens, source) is None,
{
    lemma_lead_guard(steps[0], cursor, tokens, source);
    lemma_step_any::<PlainVerb>(cursor, tokens, source);
    lemma_step_whitespace::<PlainVerb>(cursor + 1, tokens, source);
    lemma_step_whitespace::<PlainVerb>(cursor + 3, tokens, source);
    lemma_object_step(steps[5], cursor + 4, tokens, source);
    if 0 <= cursor < tokens.len() {
        let at5 = steps_len(steps, 5, cursor + 4, tokens, source);
        let at4 = steps_len(steps, 4, cursor + 3, tokens, source);
        let at3 = steps_len(steps, 3, cursor + 2, tokens, source);
        let at2 = steps_len(steps, 2, cursor + 1, tokens, source);
        let at1 = steps_len(steps, 1, cursor, tokens, source);
        assert(at5 is None);
        assert(step_len(steps[3], cursor + 2, tokens, source) is Some ==> cursor + 2
            < tokens.len());
        assert(at4 is Some ==> cursor + 3 < tokens.len() && at5 is Some);
        assert(at3 is Some ==> at4 is Some);
        assert(at2 is Some ==> at3 is Some);
        assert(at1 is Some ==> at2 is Some);
    }
}

} // verus!
