use harper_core::Span;

fn chars(text: &str) -> Vec<char> {
    text.chars().collect()
}

#[test]
fn new_keeps_both_ends() {
    let span = Span::new(3, 7);
    assert_eq!(span.start, 3);
    assert_eq!(span.end, 7);
}

#[test]
fn len_counts_characters() {
    assert_eq!(Span::new(3, 7).len(), 4);
    assert_eq!(Span::new(5, 5).len(), 0);
}

#[test]
fn empty_only_without_characters() {
    assert!(Span::new(5, 5).is_empty());
    assert!(!Span::new(5, 6).is_empty());
}

#[test]
fn content_is_exactly_the_range() {
    let source = chars("Here is a HTML document.");
    assert_eq!(Span::new(8, 9).get_content(&source), &['a'][..]);
    assert_eq!(Span::new(10, 14).get_content(&source), &chars("HTML")[..]);
    assert_eq!(Span::new(0, 0).get_content(&source), &[][..]);
    assert_eq!(Span::new(0, source.len()).get_content(&source), &source[..]);
}

#[test]
fn content_string_is_exactly_the_range() {
    let source = chars("give this a once-over.");
    assert_eq!(Span::new(12, 16).get_content_string(&source), "once");
    assert_eq!(Span::new(12, 21).get_content_string(&source), "once-over");
    assert_eq!(Span::new(4, 4).get_content_string(&source), "");
}

#[test]
fn expanding_to_an_offset_behind_moves_the_end() {
    assert_eq!(Span::new(2, 4).expand_to_include(9), Span::new(2, 10));
    assert_eq!(Span::new(2, 4).expand_to_include(4), Span::new(2, 5));
}

#[test]
fn expanding_to_an_offset_ahead_moves_the_start() {
    assert_eq!(Span::new(5, 8).expand_to_include(1), Span::new(1, 8));
    assert_eq!(Span::new(5, 8).expand_to_include(0), Span::new(0, 8));
}

#[test]
fn expanding_to_an_offset_inside_changes_nothing() {
    assert_eq!(Span::new(5, 8).expand_to_include(5), Span::new(5, 8));
    assert_eq!(Span::new(5, 8).expand_to_include(7), Span::new(5, 8));
}

#[test]
fn expanding_makes_a_new_span() {
    let span = Span::new(5, 8);
    let _ = span.expand_to_include(20);
    assert_eq!(span, Span::new(5, 8));
}

#[test]
fn overlap_needs_a_shared_character() {
    assert!(Span::new(0, 5).overlaps_with(Span::new(4, 9)));
    assert!(Span::new(4, 9).overlaps_with(Span::new(0, 5)));
    assert!(Span::new(0, 9).overlaps_with(Span::new(3, 4)));
    assert!(!Span::new(0, 5).overlaps_with(Span::new(5, 9)));
    assert!(!Span::new(5, 9).overlaps_with(Span::new(0, 5)));
    assert!(!Span::new(3, 3).overlaps_with(Span::new(3, 3)));
}
