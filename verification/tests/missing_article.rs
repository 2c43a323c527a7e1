use harper_brill::{brill_chunker, brill_tagger, Chunker, Tagger, UPOS};
use harper_core::linting::{Linter, MissingArticle};
use harper_core::{Document, Punctuation, Span, Suggestion, Token, TokenKind, WordMetadata};

/// The punctuation mark that a character is, if it is one.
fn punctuation_of(c: char) -> Option<Punctuation> {
    Some(match c {
        '.' => Punctuation::Period,
        '!' => Punctuation::Bang,
        '?' => Punctuation::Question,
        ':' => Punctuation::Colon,
        ';' => Punctuation::Semicolon,
        '"' | '“' | '”' => Punctuation::Quote,
        ',' => Punctuation::Comma,
        '-' => Punctuation::Hyphen,
        '[' => Punctuation::OpenSquare,
        ']' => Punctuation::CloseSquare,
        '(' => Punctuation::OpenRound,
        ')' => Punctuation::CloseRound,
        '{' => Punctuation::OpenCurly,
        '}' => Punctuation::CloseCurly,
        '#' => Punctuation::Hash,
        '\'' | '’' => Punctuation::Apostrophe,
        '%' => Punctuation::Percent,
        '/' => Punctuation::ForwardSlash,
        '\\' => Punctuation::Backslash,
        '<' => Punctuation::LessThan,
        '>' => Punctuation::GreaterThan,
        '=' => Punctuation::Equal,
        '…' => Punctuation::Ellipsis,
        '*' => Punctuation::Star,
        '~' => Punctuation::Tilde,
        '@' => Punctuation::At,
        '^' => Punctuation::Carrot,
        '+' => Punctuation::Plus,
        '$' => Punctuation::Dollar,
        '|' => Punctuation::Pipe,
        '_' => Punctuation::Underscore,
        '&' => Punctuation::Ampersand,
        '–' => Punctuation::EnDash,
        '—' => Punctuation::EmDash,
        _ => return None,
    })
}

/// Whether a chunk ends behind a token of this kind.
fn ends_chunk(kind: &TokenKind) -> bool {
    kind.is_sentence_terminator()
        || matches!(
            kind,
            TokenKind::Punctuation(Punctuation::Comma | Punctuation::Quote | Punctuation::Colon)
        )
}

/// Stands in for the tokenizer: words are runs of letters and digits, an
/// apostrophe between letters stays inside its word, a backtick span is
/// unlintable, and a chunk ends behind each comma, colon, quote or sentence
/// terminator.
fn tokenize(text: &str) -> (Vec<char>, Vec<Token>, Vec<usize>) {
    let source: Vec<char> = text.chars().collect();
    let mut tokens: Vec<Token> = Vec::new();
    let mut chunk_ends: Vec<usize> = Vec::new();
    let mut i = 0;
    while i < source.len() {
        let start = i;
        let c = source[i];
        let kind = if c.is_alphanumeric() {
            while i < source.len()
                && (source[i].is_alphanumeric()
                    || ((source[i] == '\'' || source[i] == '’')
                        && i + 1 < source.len()
                        && source[i + 1].is_alphabetic()))
            {
                i += 1;
            }
            TokenKind::Word(None)
        } else if c == '\n' {
            while i < source.len() && source[i] == '\n' {
                i += 1;
            }
            TokenKind::Newline(i - start)
        } else if c.is_whitespace() {
            while i < source.len() && source[i].is_whitespace() && source[i] != '\n' {
                i += 1;
            }
            TokenKind::Space(i - start)
        } else if c == '`' {
            i += 1;
            while i < source.len() && source[i] != '`' {
                i += 1;
            }
            if i < source.len() {
                i += 1;
            }
            TokenKind::Unlintable
        } else if let Some(mark) = punctuation_of(c) {
            i += 1;
            TokenKind::Punctuation(mark)
        } else {
            i += 1;
            TokenKind::Unlintable
        };
        tokens.push(Token::new(Span::new(start, i), kind));
        if ends_chunk(&kind) {
            chunk_ends.push(tokens.len());
        }
    }
    if !tokens.is_empty() && chunk_ends.last() != Some(&tokens.len()) {
        chunk_ends.push(tokens.len());
    }
    (source, tokens, chunk_ends)
}

/// Stands in for the dictionary: what a word's spelling tells of it.
fn look_up(word: &str) -> WordMetadata {
    let lower = word.to_lowercase();
    let mut meta = WordMetadata::new();
    meta.determiner = matches!(
        lower.as_str(),
        "a" | "an" | "the" | "this" | "that" | "these" | "those" | "my" | "your" | "his" | "her" | "its"
            | "our" | "their" | "any" | "some" | "no" | "every" | "each"
    );
    meta.possessive_noun = lower.ends_with("'s") || lower.ends_with("’s");
    meta.singular_nominal = !lower.ends_with('s');
    meta.verb_progressive_form = lower.ends_with("ing");
    meta.linking_verb = matches!(
        lower.as_str(),
        "is" | "am" | "are" | "was" | "were" | "be" | "been" | "being" | "seem" | "seems" | "seemed"
            | "become" | "becomes" | "became" | "appear" | "appears" | "appeared"
    );
    meta.auxiliary_verb = matches!(
        lower.as_str(),
        "do" | "does" | "did" | "have" | "has" | "had" | "will" | "would" | "shall" | "should" | "can"
            | "could" | "may" | "might" | "must"
    );
    meta
}

/// Tags the words of each sentence with the Brill tagger and marks the
/// members of noun phrases with the Brill chunker.
fn tag(source: &[char], tokens: &mut [Token]) {
    let mut start = 0;
    while start < tokens.len() {
        let mut end = start;
        while end < tokens.len() && !tokens[end].kind.is_sentence_terminator() {
            end += 1;
        }
        if end < tokens.len() {
            end += 1;
        }
        let sentence = &mut tokens[start..end];
        let strings: Vec<String> = sentence
            .iter()
            .filter(|token| !token.kind.is_whitespace())
            .map(|token| token.span.get_content_string(source))
            .collect();
        let tags = brill_tagger().tag_sentence(&strings);
        let noun_phrases = brill_chunker().chunk_sentence(&strings, &tags);
        let mut i = 0;
        for token in sentence.iter_mut() {
            if token.kind.is_word() {
                let mut meta = look_up(&strings[i]);
                meta.adjective = tags[i] == Some(UPOS::ADJ);
                meta.pos_tag = tags[i];
                meta.np_member = noun_phrases[i];
                token.kind = TokenKind::Word(Some(meta));
                i += 1;
            } else if !token.kind.is_whitespace() {
                i += 1;
            }
        }
        start = end;
    }
}

fn tagged_document(text: &[char]) -> Document {
    let text: String = text.iter().collect();
    let (source, mut tokens, chunk_ends) = tokenize(&text);
    tag(&source, &mut tokens);
    Document::new(source, tokens, chunk_ends).expect("the tokens agree with the source")
}

/// Puts a suggestion in place of the text that its lint covers.
fn apply(suggestion: &Suggestion, span: Span, text: &mut Vec<char>) {
    let replacement: Vec<char> = suggestion.chars().to_vec();
    text.splice(span.start..span.end, replacement);
}

/// Applies the `n`-th suggestion of the first lint, again and again, until
/// the rule reports nothing more.
fn transform_nth(text: &str, linter: &mut impl Linter, n: usize) -> String {
    let mut chars: Vec<char> = text.chars().collect();
    let mut rounds = 0;
    while rounds < 100 {
        let lints = linter.lint(&tagged_document(&chars));
        match lints.first() {
            Some(lint) => {
                if let Some(suggestion) = lint.suggestions.get(n) {
                    apply(suggestion, lint.span, &mut chars);
                }
            }
            None => break,
        }
        rounds += 1;
    }
    chars.iter().collect()
}

fn assert_top3_suggestion_result(text: &str, mut linter: impl Linter, expected: &str) {
    let results = [
        transform_nth(text, &mut linter, 0),
        transform_nth(text, &mut linter, 1),
        transform_nth(text, &mut linter, 2),
    ];
    assert!(
        results.iter().any(|result| result == expected),
        "none of {:?} is {:?}",
        results,
        expected
    );
}

fn assert_lint_count(text: &str, mut linter: impl Linter, count: usize) {
    let chars: Vec<char> = text.chars().collect();
    let lints = linter.lint(&tagged_document(&chars));
    assert_eq!(lints.len(), count);
}

fn assert_no_lints(text: &str, linter: impl Linter) {
    assert_lint_count(text, linter, 0);
}

#[test]
fn fixes_good_day() {
    assert_top3_suggestion_result(
        "I had good day.",
        MissingArticle::default(),
        "I had good day.",
    );
}

#[test]
fn fixes_cat_feather() {
    assert_top3_suggestion_result(
        "The cat chased feather.",
        MissingArticle::default(),
        "The cat chased a feather.",
    );
}

#[test]
fn fixes_baker_sprinkles() {
    assert_top3_suggestion_result(
        "The baker decorated cake with sprinkles.",
        MissingArticle::default(),
        "The baker decorated the cake with sprinkles.",
    );
}

#[test]
fn fixes_student_novel() {
    assert_top3_suggestion_result(
        "The student read novel.",
        MissingArticle::default(),
        "The student read a novel.",
    );
}

#[test]
fn fixes_artist_landscape() {
    assert_top3_suggestion_result(
        "The artist painted landscape.",
        MissingArticle::default(),
        "The artist painted a landscape.",
    );
}

#[test]
fn fixes_child_balloon() {
    assert_top3_suggestion_result(
        "The child held balloon.",
        MissingArticle::default(),
        "The child held a balloon.",
    );
}

#[test]
fn fixes_dog_bone() {
    assert_top3_suggestion_result(
        "The dog buried bone.",
        MissingArticle::default(),
        "The dog buried a bone.",
    );
}

#[test]
fn fixes_teacher_lesson() {
    assert_top3_suggestion_result(
        "The teacher presented lesson.",
        MissingArticle::default(),
        "The teacher presented a lesson.",
    );
}

#[test]
fn fixes_musician_guitar() {
    assert_top3_suggestion_result(
        "The musician played guitar.",
        MissingArticle::default(),
        "The musician played a guitar.",
    );
}

#[test]
fn fixes_hiker_map() {
    assert_top3_suggestion_result(
        "The hiker carried map.",
        MissingArticle::default(),
        "The hiker carried a map.",
    );
}

#[test]
fn fixes_chef_salad() {
    assert_top3_suggestion_result(
        "The chef prepared salad.",
        MissingArticle::default(),
        "The chef prepared a salad.",
    );
}

#[test]
fn allow_translation_strings() {
    assert_no_lints(
        "This option can be set to any locale for which you plan to have translation strings.",
        MissingArticle::default(),
    );
}
