//! Classified units of text.
use vstd::prelude::*;
use harper_brill::UPOS;
use crate::punctuation::Punctuation;
use crate::span::Span;
use crate::word_metadata::WordMetadata;

verus! {

/// What a token is.
#[derive(Clone, Copy, Debug, PartialEq, Eq)]
pub enum TokenKind {
    /// A word, with what is known of it. `None` where the dictionary does
    /// not have the word.
    Word(Option<WordMetadata>),
    /// A punctuation mark.
    Punctuation(Punctuation),
    /// A run of spaces, with its length.
    Space(usize),
    /// A run of line breaks, with its length.
    Newline(usize),
    /// Text that rules must leave alone and must not look through, such as a
    /// code span.
    Unlintable,
}

impl TokenKind {
    /// The metadata of a word that the dictionary has.
    pub open spec fn metadata(&self) -> Option<WordMetadata> {
        match *self {
            TokenKind::Word(meta) => meta,
            _ => None,
        }
    }

    /// Whether the token is a run of spaces or of line breaks.
    pub open spec fn whitespace(&self) -> bool {
        *self is Space || *self is Newline
    }

    /// Whether the token is a word tagged `tag`.
    pub open spec fn has_tag(&self, tag: UPOS) -> bool {
        match self.metadata() {
            Some(meta) => meta.has_tag(tag),
            None => false,
        }
    }

    /// Whether the token is a punctuation mark that ends a sentence.
    pub open spec fn ends_sentence(&self) -> bool {
        match *self {
            TokenKind::Punctuation(mark) => mark.ends_sentence(),
            _ => false,
        }
    }

    /// Whether the token is a word.
    pub fn is_word(&self) -> (r: bool)
        ensures
            r == (*self is Word),
    {
        matches!(self, TokenKind::Word(_))
    }

    /// Whether the token is a punctuation mark.
    pub fn is_punctuation(&self) -> (r: bool)
        ensures
            r == (*self is Punctuation),
    {
        matches!(self, TokenKind::Punctuation(_))
    }

    /// Whether the token is a run of spaces.
    pub fn is_space(&self) -> (r: bool)
        ensures
            r == (*self is Space),
    {
        matches!(self, TokenKind::Space(_))
    }

    /// Whether the token is a run of line breaks.
    pub fn is_newline(&self) -> (r: bool)
        ensures
            r == (*self is Newline),
    {
        matches!(self, TokenKind::Newline(_))
    }

    /// Whether the token is text that rules must leave alone.
    pub fn is_unlintable(&self) -> (r: bool)
        ensures
            r == (*self is Unlintable),
    {
        matches!(self, TokenKind::Unlintable)
    }

    /// Whether the token is a run of spaces or of line breaks.
    pub fn is_whitespace(&self) -> (r: bool)
        ensures
            r == self.whitespace(),
    {
        matches!(self, TokenKind::Space(_) | TokenKind::Newline(_))
    }

    /// The metadata slot of a word; `None` for any other token.
    pub fn as_word(&self) -> (r: Option<Option<WordMetadata>>)
        ensures
            r == (match *self {
                TokenKind::Word(meta) => Some(meta),
                _ => None,
            }),
    {
        match self {
            TokenKind::Word(meta) => Some(*meta),
            _ => None,
        }
    }

    /// The metadata of a word that the dictionary has.
    pub fn word_metadata(&self) -> (r: Option<WordMetadata>)
        ensures
            r == self.metadata(),
    {
        match self {
            TokenKind::Word(meta) => *meta,
            _ => None,
        }
    }

    /// Whether the token is a word tagged `tag`.
    pub fn is_upos(&self, tag: UPOS) -> (r: bool)
        ensures
            r == self.has_tag(tag),
    {
        match self.word_metadata() {
            Some(meta) => meta.is_upos(tag),
            None => false,
        }
    }

    /// Whether the token is a word that the dictionary has as a singular
    /// nominal.
    pub fn is_singular_nominal(&self) -> (r: bool)
        ensures
            r == (self.metadata() matches Some(meta) && meta.singular_nominal),
    {
        match self.word_metadata() {
            Some(meta) => meta.is_singular_nominal(),
            None => false,
        }
    }

    /// Whether the token is a word that the dictionary has as the progressive
    /// form of a verb.
    pub fn is_verb_progressive_form(&self) -> (r: bool)
        ensures
            r == (self.metadata() matches Some(meta) && meta.verb_progressive_form),
    {
        match self.word_metadata() {
            Some(meta) => meta.is_verb_progressive_form(),
            None => false,
        }
    }

    /// Whether the token is a word that the dictionary has as a linking verb.
    pub fn is_linking_verb(&self) -> (r: bool)
        ensures
            r == (self.metadata() matches Some(meta) && meta.linking_verb),
    {
        match self.word_metadata() {
            Some(meta) => meta.is_linking_verb(),
            None => false,
        }
    }

    /// Whether the token is a word that the dictionary has as an auxiliary
    /// verb.
    pub fn is_auxiliary_verb(&self) -> (r: bool)
        ensures
            r == (self.metadata() matches Some(meta) && meta.auxiliary_verb),
    {
        match self.word_metadata() {
            Some(meta) => meta.is_auxiliary_verb(),
            None => false,
        }
    }

    /// Whether the token is a word that belongs to a noun phrase.
    pub fn is_np_member(&self) -> (r: bool)
        ensures
            r == (self.metadata() matches Some(meta) && meta.np_member),
    {
        match self.word_metadata() {
            Some(meta) => meta.is_np_member(),
            None => false,
        }
    }

    /// Whether the token is a punctuation mark that ends a sentence.
    pub fn is_sentence_terminator(&self) -> (r: bool)
        ensures
            r == self.ends_sentence(),
    {
        match self {
            TokenKind::Punctuation(mark) => mark.is_sentence_terminator(),
            _ => false,
        }
    }
}

/// A classified unit of text and the range it covers.
#[derive(Clone, Copy, Debug, PartialEq, Eq)]
pub struct Token {
    /// The text that the token covers.
    pub span: Span,
    /// What the token is.
    pub kind: TokenKind,
}

impl Token {
    /// Makes the token of kind `kind` that covers `span`.
    pub fn new(span: Span, kind: TokenKind) -> (r: Token)
        ensures
            r == (Token { span, kind }),
    {
        Token { span, kind }
    }
}

/// Whether every token's range is well formed and lies inside a buffer of
/// `len` characters.
pub open spec fn tokens_fit(tokens: Seq<Token>, len: nat) -> bool {
    forall|i: int| 0 <= i < tokens.len() ==> (#[trigger] tokens[i]).span.fits(len)
}

/// Whether the tokens follow each other in the text: none starts before the
/// one ahead of it has ended.
pub open spec fn tokens_ordered(tokens: Seq<Token>) -> bool {
    forall|i: int, j: int|
        0 <= i < j < tokens.len() ==> (#[trigger] tokens[i]).span.end <= (#[trigger] tokens[j]).span.start
}

} // verus!
