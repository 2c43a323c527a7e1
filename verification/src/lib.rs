//! A grammar and style linting engine over tokenized, part-of-speech tagged
//! text.
//!
//! The crate has three layers. The data model ([`Span`], [`Token`],
//! [`Document`], [`Lint`]) describes text and findings. The matching engine
//! ([`patterns`], [`expr`]) describes token sequences and finds them. The
//! rules in [`linting`] combine both to report mistakes.
//!
//! Tokens, tags and chunk boundaries come from outside: the crate reads them
//! and never computes them.
pub mod char_string;
pub mod document;
pub mod expr;
pub mod lint;
pub mod linting;
pub mod patterns;
pub mod punctuation;
pub mod span;
pub mod starts_with_vowel;
pub mod token;
pub mod word_metadata;

pub use document::Document;
pub use lint::{Lint, LintKind, Suggestion};
pub use punctuation::Punctuation;
pub use span::Span;
pub use starts_with_vowel::starts_with_vowel;
pub use token::{Token, TokenKind};
pub use word_metadata::WordMetadata;
