use harper_brill::UPOS;
use harper_core::expr::Expr;
use harper_core::linting::{ExprLinter, Linter, MissingArticle, ToToo};
use harper_core::{Document, Lint, LintKind, Punctuation, Span, Token, TokenKind, WordMetadata};

/// One piece of a hand-tagged text.
#[derive(Clone, Copy)]
enum Piece {
    /// A word and what is known of it.
    Word(&'static str, Option<WordMetadata>),
    /// A punctuation mark, written right behind what stands before it.
    Mark(char, Punctuation),
}

fn tagged(text: &'static str, tag: UPOS) -> Piece {
    Piece::Word(text, Some(WordMetadata::tagged(tag)))
}

fn noun(text: &'static str) -> Piece {
    let mut meta = WordMetadata::tagged(UPOS::NOUN);
    meta.singular_nominal = true;
    Piece::Word(text, Some(meta))
}

fn noun_in_phrase(text: &'static str) -> Piece {
    let mut meta = WordMetadata::tagged(UPOS::NOUN);
    meta.singular_nominal = true;
    meta.np_member = true;
    Piece::Word(text, Some(meta))
}

fn period() -> Piece {
    Piece::Mark('.', Punctuation::Period)
}

/// Lays the pieces out with one space between words and cuts a chunk behind
/// each comma and sentence terminator.
fn lay_out(pieces: &[Piece]) -> (Vec<char>, Vec<Token>, Vec<usize>) {
    let mut source: Vec<char> = Vec::new();
    let mut tokens: Vec<Token> = Vec::new();
    let mut chunk_ends: Vec<usize> = Vec::new();
    for piece in pieces {
        match *piece {
            Piece::Word(text, meta) => {
                if !source.is_empty() {
                    tokens.push(Token::new(
                        Span::new(source.len(), source.len() + 1),
                        TokenKind::Space(1),
                    ));
                    source.push(' ');
                }
                let start = source.len();
                source.extend(text.chars());
                tokens.push(Token::new(Span::new(start, source.len()), TokenKind::Word(meta)));
            }
            Piece::Mark(glyph, mark) => {
                tokens.push(Token::new(
                    Span::new(source.len(), source.len() + 1),
                    TokenKind::Punctuation(mark),
                ));
                source.push(glyph);
                if mark == Punctuation::Comma || mark.is_sentence_terminator() {
                    chunk_ends.push(tokens.len());
                }
            }
        }
    }
    if !tokens.is_empty() && chunk_ends.last() != Some(&tokens.len()) {
        chunk_ends.push(tokens.len());
    }
    (source, tokens, chunk_ends)
}

fn document(pieces: &[Piece]) -> Document {
    let (source, tokens, chunk_ends) = lay_out(pieces);
    Document::new(source, tokens, chunk_ends).expect("the tokens agree with the source")
}

fn text(pieces: &[Piece]) -> String {
    lay_out(pieces).0.iter().collect()
}

fn suggestions(lint: &Lint) -> Vec<String> {
    lint.suggestions.iter().map(|suggestion| suggestion.chars().iter().collect()).collect()
}

fn missing_articles(pieces: &[Piece]) -> Vec<Lint> {
    MissingArticle::default().lint(&document(pieces))
}

fn to_too(pieces: &[Piece]) -> Vec<Lint> {
    ToToo::default().lint(&document(pieces))
}

/// "The cat chased feather."
fn cat_chased(object: Piece) -> Vec<Piece> {
    vec![tagged("The", UPOS::DET), noun("cat"), tagged("chased", UPOS::VERB), object, period()]
}

#[test]
fn the_cat_chased_feather() {
    let pieces = cat_chased(noun("feather"));
    assert_eq!(text(&pieces), "The cat chased feather.");
    let lints = missing_articles(&pieces);
    assert_eq!(lints.len(), 1);
    assert_eq!(lints[0].span, Span::new(15, 22));
    assert_eq!(lints[0].lint_kind, LintKind::Miscellaneous);
    assert_eq!(suggestions(&lints[0]), ["a feather", "the feather"]);
    assert_eq!(lints[0].message, "Consider adding an article before this noun.");
    assert_eq!(lints[0].priority, 0);
}

#[test]
fn the_article_fits_the_sound_of_the_noun() {
    let lints = missing_articles(&cat_chased(noun("owl")));
    assert_eq!(suggestions(&lints[0]), ["an owl", "the owl"]);
    let lints = missing_articles(&cat_chased(noun("unicorn")));
    assert_eq!(suggestions(&lints[0]), ["a unicorn", "the unicorn"]);
    let lints = missing_articles(&cat_chased(noun("FBI")));
    assert_eq!(suggestions(&lints[0]), ["an FBI", "the FBI"]);
}

#[test]
fn a_proper_noun_can_be_the_object() {
    let mut meta = WordMetadata::tagged(UPOS::PROPN);
    meta.singular_nominal = true;
    assert_eq!(missing_articles(&cat_chased(Piece::Word("Rex", Some(meta)))).len(), 1);
}

#[test]
fn a_plural_object_needs_no_article() {
    assert_eq!(missing_articles(&cat_chased(tagged("feathers", UPOS::NOUN))).len(), 0);
}

#[test]
fn the_object_must_be_a_noun() {
    let mut meta = WordMetadata::tagged(UPOS::PRON);
    meta.singular_nominal = true;
    assert_eq!(missing_articles(&cat_chased(Piece::Word("it", Some(meta)))).len(), 0);
    let mut meta = WordMetadata::tagged(UPOS::ADJ);
    meta.singular_nominal = true;
    assert_eq!(missing_articles(&cat_chased(Piece::Word("red", Some(meta)))).len(), 0);
    let mut meta = WordMetadata::new();
    meta.singular_nominal = true;
    assert_eq!(missing_articles(&cat_chased(Piece::Word("feather", Some(meta)))).len(), 0);
    assert_eq!(missing_articles(&cat_chased(Piece::Word("feather", None))).len(), 0);
}

#[test]
fn forces_is_never_the_object() {
    let mut meta = WordMetadata::tagged(UPOS::NOUN);
    meta.singular_nominal = true;
    assert_eq!(missing_articles(&cat_chased(Piece::Word("forces", Some(meta)))).len(), 0);
    assert_eq!(missing_articles(&cat_chased(Piece::Word("Forces", Some(meta)))).len(), 0);
    assert_eq!(missing_articles(&cat_chased(Piece::Word("force", Some(meta)))).len(), 1);
}

/// "X chased feather." with `lead` for X.
fn chased_feather(lead: Piece) -> Vec<Piece> {
    vec![lead, tagged("chased", UPOS::VERB), noun("feather"), period()]
}

#[test]
fn the_word_before_the_verb_decides() {
    assert_eq!(missing_articles(&chased_feather(noun("cat"))).len(), 1);
    assert_eq!(missing_articles(&chased_feather(tagged("cats", UPOS::NOUN))).len(), 1);
    assert_eq!(missing_articles(&chased_feather(tagged("Rex", UPOS::PROPN))).len(), 1);
    for tag in [UPOS::DET, UPOS::ADJ, UPOS::ADV, UPOS::PRON, UPOS::AUX] {
        assert_eq!(missing_articles(&chased_feather(tagged("some", tag))).len(), 0);
    }
    assert_eq!(missing_articles(&chased_feather(tagged("means", UPOS::NOUN))).len(), 0);
    assert_eq!(missing_articles(&chased_feather(tagged("Means", UPOS::NOUN))).len(), 0);
    assert_eq!(missing_articles(&chased_feather(tagged("mean", UPOS::NOUN))).len(), 1);
}

#[test]
fn an_untagged_word_before_the_verb() {
    // Known to the dictionary, but untagged: reported unless the dictionary
    // has it as a determiner, an adjective or a possessive noun.
    assert_eq!(missing_articles(&chased_feather(Piece::Word("cat", Some(WordMetadata::new())))).len(), 1);
    let mut meta = WordMetadata::new();
    meta.determiner = true;
    assert_eq!(missing_articles(&chased_feather(Piece::Word("each", Some(meta)))).len(), 0);
    let mut meta = WordMetadata::new();
    meta.adjective = true;
    assert_eq!(missing_articles(&chased_feather(Piece::Word("big", Some(meta)))).len(), 0);
    let mut meta = WordMetadata::new();
    meta.possessive_noun = true;
    assert_eq!(missing_articles(&chased_feather(Piece::Word("cat's", Some(meta)))).len(), 0);
    // Tagged as a noun, the same flags do not matter.
    let mut meta = WordMetadata::tagged(UPOS::NOUN);
    meta.determiner = true;
    meta.adjective = true;
    meta.possessive_noun = true;
    assert_eq!(missing_articles(&chased_feather(Piece::Word("cat", Some(meta)))).len(), 1);
    // Unknown to the dictionary: nothing is reported.
    assert_eq!(missing_articles(&chased_feather(Piece::Word("cat", None))).len(), 0);
}

#[test]
fn something_must_stand_before_the_verb() {
    let pieces = [tagged("chased", UPOS::VERB), noun("feather"), period()];
    assert_eq!(missing_articles(&pieces).len(), 0);
    let pieces = [period(), tagged("chased", UPOS::VERB), noun("feather"), period()];
    assert_eq!(missing_articles(&pieces).len(), 0);
}

/// "cat V feather." with the verb `verb`.
fn cat_verb_feather(verb: Piece) -> Vec<Piece> {
    vec![noun("cat"), verb, noun("feather"), period()]
}

#[test]
fn the_verb_must_be_a_plain_verb() {
    assert_eq!(missing_articles(&cat_verb_feather(tagged("chased", UPOS::VERB))).len(), 1);
    assert_eq!(missing_articles(&cat_verb_feather(tagged("chased", UPOS::AUX))).len(), 0);
    assert_eq!(missing_articles(&cat_verb_feather(tagged("chased", UPOS::NOUN))).len(), 0);
    assert_eq!(missing_articles(&cat_verb_feather(Piece::Word("chased", None))).len(), 0);
    let mut meta = WordMetadata::tagged(UPOS::VERB);
    meta.verb_progressive_form = true;
    assert_eq!(missing_articles(&cat_verb_feather(Piece::Word("chasing", Some(meta)))).len(), 0);
    let mut meta = WordMetadata::tagged(UPOS::VERB);
    meta.linking_verb = true;
    assert_eq!(missing_articles(&cat_verb_feather(Piece::Word("seems", Some(meta)))).len(), 0);
    let mut meta = WordMetadata::tagged(UPOS::VERB);
    meta.auxiliary_verb = true;
    assert_eq!(missing_articles(&cat_verb_feather(Piece::Word("has", Some(meta)))).len(), 0);
}

#[test]
fn the_trigger_takes_up_to_two_tokens_behind_the_object() {
    let rule = MissingArticle::default();
    let length = |pieces: &[Piece]| {
        let (source, tokens, _) = lay_out(pieces);
        rule.expr().run(0, &tokens, &source)
    };
    let start = [noun("cat"), tagged("chased", UPOS::VERB), noun("feather")];
    // Nothing behind the object.
    assert_eq!(length(&start), Some(5));
    // One token behind it.
    let mut pieces = start.to_vec();
    pieces.push(period());
    assert_eq!(length(&pieces), Some(6));
    // More behind it: the second token, here a space, is taken unless it is
    // nominal, and nothing beyond it.
    pieces.push(tagged("quickly", UPOS::ADV));
    assert_eq!(length(&pieces), Some(7));
    let mut pieces = start.to_vec();
    pieces.push(tagged("very", UPOS::ADV));
    assert_eq!(length(&pieces), Some(7));
    let mut pieces = start.to_vec();
    pieces.push(noun("dust"));
    assert_eq!(length(&pieces), Some(6));
    let mut pieces = start.to_vec();
    pieces.push(period());
    pieces.push(period());
    pieces.push(period());
    assert_eq!(length(&pieces), Some(7));
    // No match elsewhere.
    let (source, tokens, _) = lay_out(&start);
    for cursor in 1..=tokens.len() {
        assert_eq!(rule.expr().run(cursor, &tokens, &source), None);
    }
}

#[test]
fn matches_of_one_rule_share_no_token() {
    // "cat chased feather chased bone": the second match would start at
    // "feather", which the first match has taken.
    let pieces = [
        noun("cat"),
        tagged("chased", UPOS::VERB),
        noun("feather"),
        tagged("chased", UPOS::VERB),
        noun("bone"),
    ];
    let lints = missing_articles(&pieces);
    assert_eq!(lints.len(), 1);
    assert_eq!(suggestions(&lints[0]), ["a feather", "the feather"]);
}

#[test]
fn every_chunk_is_scanned() {
    let mut pieces = cat_chased(noun("feather"));
    pieces.extend(cat_chased(noun("owl")));
    pieces.extend(cat_chased(tagged("mice", UPOS::NOUN)));
    pieces.extend(cat_chased(noun("bone")));
    let lints = missing_articles(&pieces);
    assert_eq!(lints.len(), 3);
    assert_eq!(suggestions(&lints[0])[0], "a feather");
    assert_eq!(suggestions(&lints[1])[0], "an owl");
    assert_eq!(suggestions(&lints[2])[0], "a bone");
    for pair in lints.windows(2) {
        assert!(pair[0].span.end <= pair[1].span.start);
        assert!(!pair[0].span.overlaps_with(pair[1].span));
    }
    let mut rule = MissingArticle::default();
    assert_eq!(rule.lint(&document(&pieces)), lints);
    assert_eq!(rule.lint(&document(&pieces)), lints);
}

#[test]
fn a_match_does_not_cross_a_chunk() {
    let pieces = [
        noun("cat"),
        Piece::Mark(',', Punctuation::Comma),
        tagged("chased", UPOS::VERB),
        noun("feather"),
    ];
    assert_eq!(missing_articles(&pieces).len(), 0);
}

#[test]
fn to_before_an_adjective() {
    let pieces = [tagged("years", UPOS::NOUN), tagged("to", UPOS::ADP), tagged("late", UPOS::ADJ)];
    assert_eq!(text(&pieces), "years to late");
    let lints = to_too(&pieces);
    assert_eq!(lints.len(), 1);
    assert_eq!(lints[0].span, Span::new(6, 8));
    assert_eq!(lints[0].lint_kind, LintKind::Typo);
    assert_eq!(suggestions(&lints[0]), ["too"]);
    assert_eq!(lints[0].priority, 31);
    assert!(lints[0].message.starts_with("Use `too` (with two o"));
    assert!(lints[0].message.ends_with("s) when indicating excess or addition."));
}

#[test]
fn to_before_an_adverb() {
    let pieces = [tagged("moved", UPOS::VERB), tagged("to", UPOS::PART), tagged("quickly", UPOS::ADV), period()];
    assert_eq!(to_too(&pieces).len(), 1);
}

#[test]
fn to_before_other_words() {
    for tag in [UPOS::VERB, UPOS::NOUN, UPOS::PROPN, UPOS::PRON, UPOS::DET, UPOS::NUM] {
        let pieces = [tagged("go", UPOS::VERB), tagged("to", UPOS::ADP), tagged("it", tag), period()];
        assert_eq!(to_too(&pieces).len(), 0);
    }
    let pieces = [tagged("go", UPOS::VERB), tagged("to", UPOS::ADP), Piece::Word("late", None)];
    assert_eq!(to_too(&pieces).len(), 0);
}

#[test]
fn too_in_the_case_of_to() {
    let late = || tagged("late", UPOS::ADJ);
    assert_eq!(suggestions(&to_too(&[tagged("To", UPOS::ADP), late()])[0]), ["Too"]);
    assert_eq!(suggestions(&to_too(&[tagged("TO", UPOS::ADP), late()])[0]), ["TOO"]);
    assert_eq!(suggestions(&to_too(&[tagged("tO", UPOS::ADP), late()])[0]), ["too"]);
    assert_eq!(to_too(&[tagged("too", UPOS::ADV), late()]).len(), 0);
    assert_eq!(to_too(&[tagged("t", UPOS::ADP), late()]).len(), 0);
    // The word is matched by its text, whatever its tag, known or not.
    assert_eq!(to_too(&[Piece::Word("to", None), late()]).len(), 1);
}

#[test]
fn to_before_a_noun_phrase_is_a_preposition() {
    let mut young = WordMetadata::tagged(UPOS::ADJ);
    young.np_member = true;
    let pieces = [tagged("to", UPOS::ADP), Piece::Word("Young", Some(young)), noun_in_phrase("Musicians")];
    assert_eq!(to_too(&pieces).len(), 0);
    // The noun phrase may start anywhere among the tokens that were matched.
    let pieces = [
        tagged("to", UPOS::PART),
        tagged("explicitly", UPOS::ADV),
        tagged("cast", UPOS::VERB),
        tagged("back", UPOS::ADV),
        noun_in_phrase("result"),
    ];
    assert_eq!(to_too(&pieces).len(), 0);
    // Behind the tenth token it is out of sight.
    let pieces = [
        tagged("to", UPOS::PART),
        tagged("explicitly", UPOS::ADV),
        tagged("cast", UPOS::VERB),
        tagged("back", UPOS::ADV),
        tagged("again", UPOS::ADV),
        noun_in_phrase("result"),
    ];
    assert_eq!(to_too(&pieces).len(), 1);
    // Before the "to" as well.
    let pieces = [noun_in_phrase("years"), tagged("to", UPOS::ADP), tagged("late", UPOS::ADJ)];
    assert_eq!(to_too(&pieces).len(), 1);
}

#[test]
fn a_nominal_fifth_token_makes_to_a_preposition() {
    for (tag, count) in [(UPOS::NOUN, 0), (UPOS::PROPN, 0), (UPOS::PRON, 0), (UPOS::VERB, 1), (UPOS::ADJ, 1)] {
        let pieces = [tagged("to", UPOS::ADP), tagged("quickly", UPOS::ADV), tagged("it", tag)];
        assert_eq!(to_too(&pieces).len(), count);
    }
    let pieces = [tagged("to", UPOS::ADP), tagged("quickly", UPOS::ADV), Piece::Word("it", None)];
    assert_eq!(to_too(&pieces).len(), 1);
    // A nominal seventh token does not matter.
    let pieces = [
        tagged("to", UPOS::ADP),
        tagged("quickly", UPOS::ADV),
        tagged("go", UPOS::VERB),
        tagged("it", UPOS::PRON),
    ];
    assert_eq!(to_too(&pieces).len(), 1);
}

#[test]
fn to_at_the_end_of_a_sentence() {
    let cream = || tagged("cream", UPOS::NOUN);
    let to = || tagged("to", UPOS::ADP);
    let lints = to_too(&[cream(), to(), period()]);
    assert_eq!(lints.len(), 1);
    assert_eq!(lints[0].span, Span::new(6, 8));
    assert_eq!(to_too(&[cream(), Piece::Mark(',', Punctuation::Comma), to(), period()]).len(), 1);
    assert_eq!(to_too(&[cream(), to(), Piece::Mark('!', Punctuation::Bang)]).len(), 1);
    assert_eq!(to_too(&[cream(), to(), Piece::Mark('?', Punctuation::Question)]).len(), 1);
    // Not a sentence terminator.
    assert_eq!(to_too(&[cream(), to(), Piece::Mark(':', Punctuation::Colon)]).len(), 0);
    assert_eq!(to_too(&[cream(), to(), Piece::Mark(',', Punctuation::Comma)]).len(), 0);
    // Nothing behind the "to".
    assert_eq!(to_too(&[cream(), to()]).len(), 0);
}

#[test]
fn the_terminator_must_end_the_chunk() {
    let rule = ToToo::default();
    let (source, tokens, _) = lay_out(&[tagged("to", UPOS::ADP), period(), tagged("So", UPOS::ADV)]);
    assert_eq!(rule.expr().run(0, &tokens, &source), None);
    assert_eq!(rule.expr().run(0, &tokens[..2], &source), Some(2));
    // Whitespace behind the terminator does not count.
    assert_eq!(rule.expr().run(0, &tokens[..3], &source), Some(2));
}

#[test]
fn the_to_trigger_takes_up_to_seven_tokens_behind_the_modifier() {
    let rule = ToToo::default();
    let mut pieces = vec![tagged("to", UPOS::ADP), tagged("late", UPOS::ADJ)];
    for extra in 0..6usize {
        let (source, tokens, _) = lay_out(&pieces);
        // Each further piece is a space and a word.
        let behind = 2 * extra;
        assert_eq!(rule.expr().run(0, &tokens, &source), Some(3 + behind.min(7)));
        assert_eq!(rule.expr().run(1, &tokens, &source), None);
        pieces.push(tagged("now", UPOS::ADV));
    }
}

#[test]
fn descriptions_of_the_tagged_rules() {
    assert_eq!(
        Linter::description(&MissingArticle::default()),
        "Flags nouns that follow a verb without an article or quantifier."
    );
    assert_eq!(
        ExprLinter::description(&ToToo::default()),
        "Handles the transition from `to` -> `too`."
    );
}
