//! Matching one word out of a set of literals.
use vstd::prelude::*;
use crate::char_string::chars_of;
use crate::patterns::word::{compare_text, text_matches, CasePolicy};
use crate::patterns::Pattern;
use crate::token::Token;

verus! {

/// Whether `text` is one of `words` under `policy`.
pub open spec fn text_in_words(policy: CasePolicy, text: Seq<char>, words: Seq<Seq<char>>) -> bool {
    exists|i: int| 0 <= i < words.len() && text_matches(policy, text, #[trigger] words[i])
}

/// Matches one word token whose text is in a set of literals.
#[derive(Clone, Debug)]
pub struct WordSet {
    words: Vec<Vec<char>>,
    policy: CasePolicy,
}

impl WordSet {
    /// The literals.
    pub closed spec fn words(&self) -> Seq<Seq<char>> {
        Seq::new(self.words@.len(), |i: int| self.words@[i]@)
    }

    /// How the literals are compared.
    pub closed spec fn policy(&self) -> CasePolicy {
        self.policy
    }

    /// Matches any of `words`, in any capitalization.
    pub fn new(words: &[&str]) -> (r: WordSet)
        ensures
            r.words() == Seq::new(words@.len(), |i: int| words@[i]@),
            r.policy() == CasePolicy::AnyCase,
    {
        WordSet::with_policy(words, CasePolicy::AnyCase)
    }

    /// Matches any of `words`, compared under `policy`.
    pub fn with_policy(words: &[&str], policy: CasePolicy) -> (r: WordSet)
        ensures
            r.words() == Seq::new(words@.len(), |i: int| words@[i]@),
            r.policy() == policy,
    {
        let mut held: Vec<Vec<char>> = Vec::new();
        let mut i: usize = 0;
        while i < words.len()
            invariant
                i <= words.len(),
                held@.len() == i,
                forall|k: int| 0 <= k < i ==> (#[trigger] held@[k])@ == words@[k]@,
            decreases words.len() - i,
        {
            held.push(chars_of(words[i]));
            i += 1;
        }
        let set = WordSet { words: held, policy };
        proof {
            assert(set.words() =~= Seq::new(words@.len(), |i: int| words@[i]@));
        }
        set
    }

    /// Whether `text` is one of the literals.
    pub fn contains(&self, text: &[char]) -> (r: bool)
        ensures
            r == text_in_words(self.policy(), text@, self.words()),
    {
        let mut i: usize = 0;
        while i < self.words.len()
            invariant
                i <= self.words.len(),
                forall|k: int| 0 <= k < i ==> !text_matches(self.policy, text@, #[trigger] self.words()[k]),
            decreases self.words.len() - i,
        {
            if compare_text(self.policy, text, self.words[i].as_slice()) {
                assert(self.words()[i as int] == self.words@[i as int]@);
                return true;
            }
            assert(self.words()[i as int] == self.words@[i as int]@);
            i += 1;
        }
        false
    }
}

impl Pattern for WordSet {
    open spec fn spec_matches(&self, tokens: Seq<Token>, source: Seq<char>) -> Option<nat> {
        if tokens.len() > 0 && tokens[0].kind is Word && text_in_words(
            self.policy(),
            tokens[0].span.content(source),
            self.words(),
        ) {
            Some(1)
        } else {
            None
        }
    }

    fn matches(&self, tokens: &[Token], source: &[char]) -> (r: Option<usize>) {
        if tokens.len() == 0 || !tokens[0].kind.is_word() {
            return None;
        }
        assert(tokens@[0].span.fits(source@.len()));
        if self.contains(tokens[0].span.get_content(source)) {
            Some(1)
        } else {
            None
        }
    }
}

} // verus!
