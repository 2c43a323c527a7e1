use harper_core::{Document, Punctuation, Span, Token, TokenKind};

fn chars(text: &str) -> Vec<char> {
    text.chars().collect()
}

/// Tokens for "Hi, you!".
fn tokens() -> Vec<Token> {
    vec![
        Token::new(Span::new(0, 2), TokenKind::Word(None)),
        Token::new(Span::new(2, 3), TokenKind::Punctuation(Punctuation::Comma)),
        Token::new(Span::new(3, 4), TokenKind::Space(1)),
        Token::new(Span::new(4, 7), TokenKind::Word(None)),
        Token::new(Span::new(7, 8), TokenKind::Punctuation(Punctuation::Bang)),
    ]
}

#[test]
fn a_document_keeps_what_it_was_made_of() {
    let doc = Document::new(chars("Hi, you!"), tokens(), vec![2, 5]).unwrap();
    assert_eq!(doc.get_source(), &chars("Hi, you!")[..]);
    assert_eq!(doc.get_tokens(), &tokens()[..]);
    assert_eq!(doc.chunk_count(), 2);
    assert_eq!(doc.get_chunk(0), &tokens()[0..2]);
    assert_eq!(doc.get_chunk(1), &tokens()[2..5]);
    assert_eq!(doc.get_span_content(&Span::new(4, 7)), &chars("you")[..]);
}

#[test]
fn the_empty_document() {
    let doc = Document::new(Vec::new(), Vec::new(), Vec::new()).unwrap();
    assert_eq!(doc.chunk_count(), 0);
    assert!(doc.get_tokens().is_empty());
    let doc = Document::new_single_chunk(chars("unread"), Vec::new()).unwrap();
    assert_eq!(doc.chunk_count(), 0);
}

#[test]
fn a_single_chunk_covers_every_token() {
    let doc = Document::new_single_chunk(chars("Hi, you!"), tokens()).unwrap();
    assert_eq!(doc.chunk_count(), 1);
    assert_eq!(doc.get_chunk(0), &tokens()[..]);
}

#[test]
fn tokens_may_leave_gaps() {
    let tokens = vec![
        Token::new(Span::new(1, 2), TokenKind::Word(None)),
        Token::new(Span::new(5, 5), TokenKind::Unlintable),
        Token::new(Span::new(5, 8), TokenKind::Word(None)),
    ];
    assert!(Document::new(chars("Hi, you!"), tokens, vec![3]).is_some());
}

#[test]
fn a_span_beyond_the_source_is_refused() {
    assert!(Document::new(chars("Hi, you"), tokens(), vec![2, 5]).is_none());
    assert!(Document::new_single_chunk(chars("Hi, you"), tokens()).is_none());
    assert!(Document::new(Vec::new(), tokens(), vec![5]).is_none());
}

#[test]
fn a_span_that_ends_before_it_starts_is_refused() {
    let mut tokens = tokens();
    tokens[3].span = Span { start: 7, end: 4 };
    assert!(Document::new(chars("Hi, you!"), tokens, vec![2, 5]).is_none());
}

#[test]
fn tokens_out_of_order_are_refused() {
    let mut tokens = tokens();
    tokens.swap(0, 3);
    assert!(Document::new(chars("Hi, you!"), tokens, vec![2, 5]).is_none());
}

#[test]
fn tokens_that_overlap_are_refused() {
    let mut tokens = tokens();
    tokens[1].span = Span::new(1, 3);
    assert!(Document::new(chars("Hi, you!"), tokens.clone(), vec![2, 5]).is_none());
    assert!(Document::new_single_chunk(chars("Hi, you!"), tokens).is_none());
}

#[test]
fn chunks_must_cover_the_tokens() {
    assert!(Document::new(chars("Hi, you!"), tokens(), vec![2]).is_none());
    assert!(Document::new(chars("Hi, you!"), tokens(), vec![]).is_none());
    assert!(Document::new(chars("Hi, you!"), tokens(), vec![2, 4]).is_none());
    assert!(Document::new(chars("Hi, you!"), tokens(), vec![2, 6]).is_none());
}

#[test]
fn chunks_must_rise_and_hold_a_token_each() {
    assert!(Document::new(chars("Hi, you!"), tokens(), vec![0, 5]).is_none());
    assert!(Document::new(chars("Hi, you!"), tokens(), vec![2, 2, 5]).is_none());
    assert!(Document::new(chars("Hi, you!"), tokens(), vec![3, 2, 5]).is_none());
    assert!(Document::new(chars("Hi, you!"), tokens(), vec![5, 5]).is_none());
    assert!(Document::new(chars("Hi, you!"), tokens(), vec![1, 2, 3, 4, 5]).is_some());
}

#[test]
fn chunks_without_tokens_are_refused() {
    assert!(Document::new(chars("Hi, you!"), Vec::new(), vec![0]).is_none());
    assert!(Document::new(chars("Hi, you!"), Vec::new(), vec![1]).is_none());
}
