//! The steps that a sequence is made of, and how each is tried.
use vstd::prelude::*;
use crate::expr::{lemma_rest_fits, Expr};
use crate::patterns::word::text_matches;
use crate::patterns::word_set::text_in_words;
use crate::patterns::{as_nat, AnyPattern, Pattern, UPOSSet, WhitespacePattern, Word, WordSet};
use crate::token::{tokens_fit, Token};

verus! {

/// One step of a sequence.
///
/// A step is tried at a cursor. It fails, or it matches some tokens from the
/// cursor on, possibly none. Nothing is tried again once a step has matched.
pub enum Step<C> {
    /// Any single token.
    Any,
    /// One whitespace token.
    Whitespace,
    /// One word token with a given text.
    Word(Word),
    /// One word token whose text is in a set.
    Words(WordSet),
    /// One word token whose part-of-speech tag is in a set.
    Tags(UPOSSet),
    /// Whatever the caller's own pattern matches.
    Predicate(C),
    /// No token; holds where only whitespace follows the token at the
    /// cursor, so that the cursor stands on the last token of substance or
    /// beyond it.
    AnchorEnd,
    /// What the inner step matches, or no token where it fails.
    Optional(Box<Step<C>>),
    /// No token; holds where the inner step fails.
    Unless(Box<Step<C>>),
    /// What the first step matches, or else what the second matches.
    Or(Box<Step<C>>, Box<Step<C>>),
    /// The steps one after another, each from where the one before stopped.
    Sequence(Vec<Step<C>>),
}

/// Whether only whitespace follows the token at `cursor`.
pub open spec fn at_end(tokens: Seq<Token>, cursor: int) -> bool {
    forall|j: int| cursor < j < tokens.len() ==> (#[trigger] tokens[j]).kind.whitespace()
}

/// A match length, kept only where it stays within `limit` tokens.
pub open spec fn within(length: Option<nat>, limit: int) -> Option<nat> {
    match length {
        Some(n) => if n <= limit {
            Some(n)
        } else {
            None
        },
        None => None,
    }
}

/// The number of tokens that `step` matches from `cursor` on, if it matches
/// there.
pub open spec fn step_len<C: Pattern>(
    step: Step<C>,
    cursor: int,
    tokens: Seq<Token>,
    source: Seq<char>,
) -> Option<nat>
    decreases step, 0nat,
{
    let rest = tokens.subrange(cursor, tokens.len() as int);
    if !(0 <= cursor <= tokens.len()) {
        None
    } else {
        match step {
            Step::Any => AnyPattern.spec_matches(rest, source),
            Step::Whitespace => WhitespacePattern.spec_matches(rest, source),
            Step::Word(word) => word.spec_matches(rest, source),
            Step::Words(words) => words.spec_matches(rest, source),
            Step::Tags(tags) => tags.spec_matches(rest, source),
            Step::Predicate(pattern) => within(
                pattern.spec_matches(rest, source),
                tokens.len() - cursor,
            ),
            Step::AnchorEnd => if at_end(tokens, cursor) {
                Some(0)
            } else {
                None
            },
            Step::Optional(inner) => match step_len(*inner, cursor, tokens, source) {
                Some(n) => Some(n),
                None => Some(0),
            },
            Step::Unless(inner) => match step_len(*inner, cursor, tokens, source) {
                Some(_) => None,
                None => Some(0),
            },
            Step::Or(first, second) => match step_len(*first, cursor, tokens, source) {
                Some(n) => Some(n),
                None => step_len(*second, cursor, tokens, source),
            },
            Step::Sequence(steps) => steps_len(steps@, 0, cursor, tokens, source),
        }
    }
}

/// The number of tokens that the steps from index `from` on match one after
/// another, starting at `cursor`, if none of them fails.
pub open spec fn steps_len<C: Pattern>(
    steps: Seq<Step<C>>,
    from: int,
    cursor: int,
    tokens: Seq<Token>,
    source: Seq<char>,
) -> Option<nat>
    decreases steps, steps.len() - from,
{
    if !(0 <= from < steps.len()) {
        if 0 <= cursor <= tokens.len() {
            Some(0)
        } else {
            None
        }
    } else {
        match step_len(steps[from], cursor, tokens, source) {
            Some(n) => match steps_len(steps, from + 1, cursor + n, tokens, source) {
                Some(m) => Some(n + m),
                None => None,
            },
            None => None,
        }
    }
}

/// A step never matches beyond the end of the tokens.
pub proof fn lemma_step_len_bounded<C: Pattern>(
    step: Step<C>,
    cursor: int,
    tokens: Seq<Token>,
    source: Seq<char>,
)
    ensures
        step_len(step, cursor, tokens, source) matches Some(n) ==> 0 <= cursor && cursor + n
            <= tokens.len(),
    decreases step, 0nat,
{
    if 0 <= cursor <= tokens.len() {
        match step {
            Step::Optional(inner) => {
                lemma_step_len_bounded(*inner, cursor, tokens, source);
            },
            Step::Unless(inner) => {},
            Step::Or(first, second) => {
                lemma_step_len_bounded(*first, cursor, tokens, source);
                lemma_step_len_bounded(*second, cursor, tokens, source);
            },
            Step::Sequence(steps) => {
                lemma_steps_len_bounded(steps@, 0, cursor, tokens, source);
            },
            _ => {},
        }
    }
}

/// A run of steps never matches beyond the end of the tokens.
pub proof fn lemma_steps_len_bounded<C: Pattern>(
    steps: Seq<Step<C>>,
    from: int,
    cursor: int,
    tokens: Seq<Token>,
    source: Seq<char>,
)
    ensures
        steps_len(steps, from, cursor, tokens, source) matches Some(n) ==> 0 <= cursor && cursor
            + n <= tokens.len(),
    decreases steps, steps.len() - from,
{
    if 0 <= from < steps.len() {
        lemma_step_len_bounded(steps[from], cursor, tokens, source);
        match step_len(steps[from], cursor, tokens, source) {
            Some(n) => {
                lemma_steps_len_bounded(steps, from + 1, cursor + n, tokens, source);
            },
            None => {},
        }
    }
}

/// What a step that looks at one token matches: the token at the cursor
/// where there is one and `accepted` holds of it.
pub open spec fn one_token(cursor: int, tokens: Seq<Token>, accepted: bool) -> Option<nat> {
    if 0 <= cursor < tokens.len() && accepted {
        Some(1)
    } else {
        None
    }
}

/// The wildcard matches the token at the cursor, where there is one.
pub proof fn lemma_step_any<C: Pattern>(cursor: int, tokens: Seq<Token>, source: Seq<char>)
    ensures
        step_len(Step::<C>::Any, cursor, tokens, source) == one_token(cursor, tokens, true),
{
}

/// The whitespace step matches the token at the cursor where that is
/// whitespace.
pub proof fn lemma_step_whitespace<C: Pattern>(cursor: int, tokens: Seq<Token>, source: Seq<char>)
    ensures
        step_len(Step::<C>::Whitespace, cursor, tokens, source) == one_token(
            cursor,
            tokens,
            tokens[cursor].kind.whitespace(),
        ),
{
    if 0 <= cursor < tokens.len() {
        assert(tokens.subrange(cursor, tokens.len() as int)[0] == tokens[cursor]);
    }
}

/// A tag step matches the token at the cursor where that is a word with
/// one of the tags.
pub proof fn lemma_step_tags<C: Pattern>(
    tags: UPOSSet,
    cursor: int,
    tokens: Seq<Token>,
    source: Seq<char>,
)
    ensures
        step_len(Step::<C>::Tags(tags), cursor, tokens, source) == one_token(
            cursor,
            tokens,
            tags.accepts(tokens[cursor]),
        ),
{
    if 0 <= cursor < tokens.len() {
        assert(tokens.subrange(cursor, tokens.len() as int)[0] == tokens[cursor]);
    }
}

/// A word-set step matches the token at the cursor where that is a word
/// whose text is in the set.
pub proof fn lemma_step_words<C: Pattern>(
    words: WordSet,
    cursor: int,
    tokens: Seq<Token>,
    source: Seq<char>,
)
    ensures
        step_len(Step::<C>::Words(words), cursor, tokens, source) == one_token(
            cursor,
            tokens,
            tokens[cursor].kind is Word && text_in_words(
                words.policy(),
                tokens[cursor].span.content(source),
                words.words(),
            ),
        ),
{
    if 0 <= cursor < tokens.len() {
        assert(tokens.subrange(cursor, tokens.len() as int)[0] == tokens[cursor]);
    }
}

/// A word step matches the token at the cursor where that is a word with
/// the step's text.
pub proof fn lemma_step_word<C: Pattern>(
    word: Word,
    cursor: int,
    tokens: Seq<Token>,
    source: Seq<char>,
)
    ensures
        step_len(Step::<C>::Word(word), cursor, tokens, source) == one_token(
            cursor,
            tokens,
            tokens[cursor].kind is Word && text_matches(
                word.policy(),
                tokens[cursor].span.content(source),
                word.text(),
            ),
        ),
{
    if 0 <= cursor < tokens.len() {
        assert(tokens.subrange(cursor, tokens.len() as int)[0] == tokens[cursor]);
    }
}

/// A guard matches no token where its inner step fails, and fails where
/// that matches.
pub proof fn lemma_step_unless<C: Pattern>(
    inner: Step<C>,
    cursor: int,
    tokens: Seq<Token>,
    source: Seq<char>,
)
    ensures
        step_len(Step::Unless(Box::new(inner)), cursor, tokens, source) == (if 0 <= cursor
            <= tokens.len() && step_len(inner, cursor, tokens, source) is None {
            Some(0nat)
        } else {
            None
        }),
{
}

/// An optional step matches what its inner step matches, and no token where
/// that fails.
pub proof fn lemma_step_optional<C: Pattern>(
    inner: Step<C>,
    cursor: int,
    tokens: Seq<Token>,
    source: Seq<char>,
)
    ensures
        step_len(Step::Optional(Box::new(inner)), cursor, tokens, source) == (if 0 <= cursor
            <= tokens.len() {
            match step_len(inner, cursor, tokens, source) {
                Some(n) => Some(n),
                None => Some(0nat),
            }
        } else {
            None
        }),
{
}

/// An ordered choice matches what its first step matches, or else what its
/// second matches.
pub proof fn lemma_step_or<C: Pattern>(
    first: Step<C>,
    second: Step<C>,
    cursor: int,
    tokens: Seq<Token>,
    source: Seq<char>,
)
    ensures
        step_len(Step::Or(Box::new(first), Box::new(second)), cursor, tokens, source) == (
        match step_len(first, cursor, tokens, source) {
            Some(n) => Some(n),
            None => step_len(second, cursor, tokens, source),
        }),
{
    if !(0 <= cursor <= tokens.len()) {
        lemma_step_len_bounded(first, cursor, tokens, source);
        lemma_step_len_bounded(second, cursor, tokens, source);
    }
}

/// A sequence of two steps matches where the first matches and the second
/// matches behind it.
pub proof fn lemma_steps_pair<C: Pattern>(
    steps: Seq<Step<C>>,
    cursor: int,
    tokens: Seq<Token>,
    source: Seq<char>,
)
    requires
        steps.len() == 2,
    ensures
        steps_len(steps, 0, cursor, tokens, source) == (match step_len(
            steps[0],
            cursor,
            tokens,
            source,
        ) {
            Some(n) => match step_len(steps[1], cursor + n, tokens, source) {
                Some(m) => Some(n + m),
                None => None,
            },
            None => None,
        }),
{
    reveal_with_fuel(steps_len, 3);
    lemma_step_len_bounded(steps[0], cursor, tokens, source);
    match step_len(steps[0], cursor, tokens, source) {
        Some(n) => {
            lemma_step_len_bounded(steps[1], cursor + n, tokens, source);
        },
        None => {},
    }
}

/// Whether `step` is the sequence of exactly `steps`.
pub open spec fn is_sequence_of<C>(step: Step<C>, steps: Seq<Step<C>>) -> bool {
    step matches Step::Sequence(held) && held@ == steps
}

impl<C: Pattern> Step<C> {
    /// The step that matches what `self` matches, or else what `other`
    /// matches.
    pub fn or(self, other: Step<C>) -> (r: Step<C>)
        ensures
            r == Step::Or(Box::new(self), Box::new(other)),
    {
        Step::Or(Box::new(self), Box::new(other))
    }

    /// The step that fails where `other` matches and is `self` elsewhere.
    pub fn and_not(self, other: Step<C>) -> (r: Step<C>)
        ensures
            is_sequence_of(r, seq![Step::Unless(Box::new(other)), self]),
    {
        let mut steps: Vec<Step<C>> = Vec::new();
        steps.push(Step::Unless(Box::new(other)));
        steps.push(self);
        proof {
            assert(steps@ =~= seq![Step::Unless(Box::new(other)), self]);
        }
        Step::Sequence(steps)
    }

    /// The step that fails where `condition` matches and is `then` elsewhere.
    pub fn unless(condition: Step<C>, then: Step<C>) -> (r: Step<C>)
        ensures
            is_sequence_of(r, seq![Step::Unless(Box::new(condition)), then]),
    {
        then.and_not(condition)
    }

    /// The step that matches what `self` matches, or no token.
    pub fn optional(self) -> (r: Step<C>)
        ensures
            r == Step::Optional(Box::new(self)),
    {
        Step::Optional(Box::new(self))
    }
}

/// Tells whether only whitespace follows the token at `cursor`.
fn is_at_end(tokens: &[Token], cursor: usize) -> (r: bool)
    requires
        cursor <= tokens.len(),
    ensures
        r == at_end(tokens@, cursor as int),
{
    if cursor >= tokens.len() {
        return true;
    }
    let mut j: usize = cursor + 1;
    while j < tokens.len()
        invariant
            cursor < j <= tokens.len(),
            forall|k: int| cursor < k < j ==> (#[trigger] tokens@[k]).kind.whitespace(),
        decreases tokens.len() - j,
    {
        if !tokens[j].kind.is_whitespace() {
            return false;
        }
        j += 1;
    }
    true
}

/// Tries the steps from index `from` on, one after another, starting at
/// `cursor`.
pub fn run_steps<C: Pattern>(
    steps: &Vec<Step<C>>,
    from: usize,
    cursor: usize,
    tokens: &[Token],
    source: &[char],
) -> (r: Option<usize>)
    requires
        from <= steps@.len(),
        cursor <= tokens.len(),
        tokens_fit(tokens@, source@.len()),
    ensures
        as_nat(r) == steps_len(steps@, from as int, cursor as int, tokens@, source@),
        r matches Some(n) ==> cursor + n <= tokens.len(),
    decreases steps, steps@.len() - from,
{
    if from >= steps.len() {
        return Some(0);
    }
    match steps[from].run(cursor, tokens, source) {
        Some(n) => match run_steps(steps, from + 1, cursor + n, tokens, source) {
            Some(m) => Some(n + m),
            None => None,
        },
        None => None,
    }
}

impl<C: Pattern> Expr for Step<C> {
    open spec fn spec_run(&self, cursor: int, tokens: Seq<Token>, source: Seq<char>) -> Option<nat> {
        step_len(*self, cursor, tokens, source)
    }

    fn run(&self, cursor: usize, tokens: &[Token], source: &[char]) -> (r: Option<usize>)
        decreases *self, 0nat,
    {
        proof {
            lemma_rest_fits(tokens@, cursor as int, source@.len());
        }
        match self {
            Step::Any => AnyPattern.run(cursor, tokens, source),
            Step::Whitespace => WhitespacePattern.run(cursor, tokens, source),
            Step::Word(word) => word.run(cursor, tokens, source),
            Step::Words(words) => words.run(cursor, tokens, source),
            Step::Tags(tags) => tags.run(cursor, tokens, source),
            Step::Predicate(pattern) => pattern.run(cursor, tokens, source),
            Step::AnchorEnd => if is_at_end(tokens, cursor) {
                Some(0)
            } else {
                None
            },
            Step::Optional(inner) => match inner.run(cursor, tokens, source) {
                Some(n) => Some(n),
                None => Some(0),
            },
            Step::Unless(inner) => match inner.run(cursor, tokens, source) {
                Some(_) => None,
                None => Some(0),
            },
            Step::Or(first, second) => match first.run(cursor, tokens, source) {
                Some(n) => Some(n),
                None => second.run(cursor, tokens, source),
            },
            Step::Sequence(steps) => run_steps(steps, 0, cursor, tokens, source),
        }
    }
}

} // verus!
