//! Building sequences step by step.
use vstd::prelude::*;
use vstd::math::min;
use crate::expr::step::{is_sequence_of, run_steps, step_len, steps_len, Step};
use crate::expr::Expr;
use crate::patterns::{CasePolicy, Pattern, Word};
use crate::token::Token;

verus! {

/// A sequence of steps under construction.
///
/// Each builder method takes the sequence and gives back one with a step
/// more. The sequence matches where its steps match one after another, each
/// from where the one before stopped; once a step has matched, nothing that
/// fails later makes it match differently.
pub struct SequenceExpr<C> {
    steps: Vec<Step<C>>,
}

impl<C: Pattern> SequenceExpr<C> {
    /// The steps, in order.
    pub closed spec fn steps(&self) -> Seq<Step<C>> {
        self.steps@
    }

    /// The sequence without steps, which matches no token anywhere.
    pub fn new() -> (r: Self)
        ensures
            r.steps() == Seq::<Step<C>>::empty(),
    {
        SequenceExpr { steps: Vec::new() }
    }

    /// Adds a step that must match.
    pub fn then_expr(self, step: Step<C>) -> (r: Self)
        ensures
            r.steps() == self.steps().push(step),
    {
        let mut steps = self.steps;
        steps.push(step);
        SequenceExpr { steps }
    }

    /// Adds a step that is taken where it matches and passed over where it
    /// does not.
    pub fn then_optional(self, step: Step<C>) -> (r: Self)
        ensures
            r.steps() == self.steps().push(Step::Optional(Box::new(step))),
    {
        self.then_expr(Step::Optional(Box::new(step)))
    }

    /// Adds a guard: the sequence goes on only where `step` does not match.
    /// The guard matches no token itself.
    pub fn then_unless(self, step: Step<C>) -> (r: Self)
        ensures
            r.steps() == self.steps().push(Step::Unless(Box::new(step))),
    {
        self.then_expr(Step::Unless(Box::new(step)))
    }

    /// Adds the caller's own pattern as a step.
    pub fn then_predicate(self, pattern: C) -> (r: Self)
        ensures
            r.steps() == self.steps().push(Step::Predicate(pattern)),
    {
        self.then_expr(Step::Predicate(pattern))
    }

    /// Adds a step that matches one whitespace token.
    pub fn t_ws(self) -> (r: Self)
        ensures
            r.steps() == self.steps().push(Step::Whitespace),
    {
        self.then_expr(Step::Whitespace)
    }

    /// Adds a step that matches any one token.
    pub fn t_any(self) -> (r: Self)
        ensures
            r.steps() == self.steps().push(Step::Any),
    {
        self.then_expr(Step::Any)
    }

    /// Adds a step that matches the word `word` in any capitalization.
    pub fn t_aco(self, word: &str) -> (r: Self)
        ensures
            r.steps().len() == self.steps().len() + 1,
            r.steps().drop_last() == self.steps(),
            r.steps().last() matches Step::Word(held) && held.text() == word@ && held.policy()
                == CasePolicy::AnyCase,
    {
        let ghost before = self.steps();
        let r = self.then_expr(Step::Word(Word::new(word)));
        proof {
            assert(r.steps().drop_last() =~= before);
        }
        r
    }

    /// The sequence of the one word `word`, in any capitalization.
    pub fn aco(word: &str) -> (r: Self)
        ensures
            r.steps().len() == 1,
            r.steps()[0] matches Step::Word(held) && held.text() == word@ && held.policy()
                == CasePolicy::AnyCase,
    {
        Self::new().t_aco(word)
    }

    /// The sequence as one step, for use inside another sequence.
    pub fn into_step(self) -> (r: Step<C>)
        ensures
            is_sequence_of(r, self.steps()),
    {
        Step::Sequence(self.steps)
    }

    /// Ordered choice: the sequence that matches what `self` matches, or
    /// else what `other` matches.
    pub fn or(self, other: Self) -> (r: Self)
        ensures
            r.steps().len() == 1,
            r.steps()[0] matches Step::Or(first, second) && is_sequence_of(*first, self.steps())
                && is_sequence_of(*second, other.steps()),
    {
        Self::new().then_expr(Step::Or(Box::new(self.into_step()), Box::new(other.into_step())))
    }
}

impl<C: Pattern> Default for SequenceExpr<C> {
    /// The sequence without steps.
    fn default() -> (r: Self)
        ensures
            r.steps() == Seq::<Step<C>>::empty(),
    {
        Self::new()
    }
}

impl<C: Pattern> Expr for SequenceExpr<C> {
    open spec fn spec_run(&self, cursor: int, tokens: Seq<Token>, source: Seq<char>) -> Option<nat> {
        steps_len(self.steps(), 0, cursor, tokens, source)
    }

    fn run(&self, cursor: usize, tokens: &[Token], source: &[char]) -> (r: Option<usize>) {
        run_steps(&self.steps, 0, cursor, tokens, source)
    }
}

/// The step that takes any one token where there is one.
pub open spec fn optional_wildcard<C>() -> Step<C> {
    Step::Optional(Box::new(Step::Any))
}


/// A match followed by a further match.
pub open spec fn followed_by(first: Option<nat>, rest: spec_fn(nat) -> Option<nat>) -> Option<nat> {
    match first {
        Some(n) => match rest(n) {
            Some(m) => Some(n + m),
            None => None,
        },
        None => None,
    }
}

/// A run of steps matches as its first part does, followed by the rest from
/// where the first part stopped.
pub proof fn lemma_steps_len_split<C: Pattern>(
    steps: Seq<Step<C>>,
    from: int,
    mid: int,
    cursor: int,
    tokens: Seq<Token>,
    source: Seq<char>,
)
    requires
        0 <= from <= mid <= steps.len(),
    ensures
        steps_len(steps, from, cursor, tokens, source) == followed_by(
            steps_len(steps.take(mid), from, cursor, tokens, source),
            |n: nat| steps_len(steps, mid, cursor + n, tokens, source),
        ),
    decreases mid - from,
{
    let head = steps.take(mid);
    if from == mid {
        if !(0 <= cursor <= tokens.len()) {
            if mid < steps.len() {
                assert(step_len(steps[mid], cursor, tokens, source) is None);
            }
        }
    } else {
        assert(head[from] == steps[from]);
        match step_len(steps[from], cursor, tokens, source) {
            Some(n) => {
                lemma_steps_len_split(steps, from + 1, mid, cursor + n, tokens, source);
            },
            None => {},
        }
    }
}

/// Greedy optional consumption: optional wildcards in a row never fail. Where
/// the steps `from .. from + k` of a sequence are optional wildcards, they
/// match `k` tokens, or all that are left where fewer are left, and the
/// sequence goes on behind them.
pub proof fn lemma_optional_wildcards_never_fail<C: Pattern>(
    steps: Seq<Step<C>>,
    from: int,
    k: int,
    cursor: int,
    tokens: Seq<Token>,
    source: Seq<char>,
)
    requires
        0 <= from,
        0 <= k,
        from + k <= steps.len(),
        forall|i: int| from <= i < from + k ==> #[trigger] steps[i] == optional_wildcard::<C>(),
        0 <= cursor <= tokens.len(),
    ensures
        steps_len(steps.take(from + k), from, cursor, tokens, source) == Some(
            min(k, tokens.len() - cursor) as nat,
        ),
        steps_len(steps, from, cursor, tokens, source) == followed_by(
            Some(min(k, tokens.len() - cursor) as nat),
            |n: nat| steps_len(steps, from + k, cursor + n, tokens, source),
        ),
    decreases k,
{
    let head = steps.take(from + k);
    if k > 0 {
        assert(head[from] == steps[from]);
        assert(steps[from] == optional_wildcard::<C>());
        let taken = step_len(steps[from], cursor, tokens, source);
        assert(step_len(Step::<C>::Any, cursor, tokens, source) == (if cursor < tokens.len() {
            Some(1nat)
        } else {
            None
        }));
        assert(taken == Some((if cursor < tokens.len() {
            1nat
        } else {
            0nat
        })));
        lemma_optional_wildcards_never_fail(
            steps,
            from + 1,
            k - 1,
            cursor + taken->0,
            tokens,
            source,
        );
        assert(steps.take(from + 1 + (k - 1)) == head);
    }
    lemma_steps_len_split(steps, from, from + k, cursor, tokens, source);
}

} // verus!
