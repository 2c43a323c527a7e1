//! The punctuation marks that the tokenizer tells apart.
use vstd::prelude::*;

verus! {

/// A punctuation mark.
#[derive(Clone, Copy, Debug, PartialEq, Eq, Hash, Structural)]
pub enum Punctuation {
    /// `.`
    Period,
    /// `!`
    Bang,
    /// `?`
    Question,
    /// `:`
    Colon,
    /// `;`
    Semicolon,
    /// `"`
    Quote,
    /// `,`
    Comma,
    /// `-`
    Hyphen,
    /// `[`
    OpenSquare,
    /// `]`
    CloseSquare,
    /// `(`
    OpenRound,
    /// `)`
    CloseRound,
    /// `{`
    OpenCurly,
    /// `}`
    CloseCurly,
    /// `#`
    Hash,
    /// `'`
    Apostrophe,
    /// `%`
    Percent,
    /// `/`
    ForwardSlash,
    /// `\`
    Backslash,
    /// `<`
    LessThan,
    /// `>`
    GreaterThan,
    /// `=`
    Equal,
    /// `…`
    Ellipsis,
    /// `*`
    Star,
    /// `~`
    Tilde,
    /// `@`
    At,
    /// `^`
    Carrot,
    /// `+`
    Plus,
    /// `$`
    Dollar,
    /// `|`
    Pipe,
    /// `_`
    Underscore,
    /// `&`
    Ampersand,
    /// `` ` ``
    Backtick,
    /// `–`
    EnDash,
    /// `—`
    EmDash,
}

impl Punctuation {
    /// Whether the mark ends a sentence.
    pub open spec fn ends_sentence(&self) -> bool {
        *self == Punctuation::Period || *self == Punctuation::Bang || *self == Punctuation::Question
    }

    /// Whether the mark ends a sentence: a period, an exclamation mark or a
    /// question mark.
    pub fn is_sentence_terminator(&self) -> (r: bool)
        ensures
            r == self.ends_sentence(),
    {
        matches!(self, Punctuation::Period | Punctuation::Bang | Punctuation::Question)
    }
}

} // verus!
