//! Linguistic facts attached to a word by the tagger.
use vstd::prelude::*;
use harper_brill::UPOS;

verus! {

/// The universal part-of-speech tags, as `harper_brill` defines them.
#[verifier::external_type_specification]
pub struct ExUPOS(UPOS);

/// Whether `tag` names a nominal part of speech: a noun, a proper noun or a
/// pronoun.
pub open spec fn tag_is_nominal(tag: UPOS) -> bool {
    tag == UPOS::NOUN || tag == UPOS::PROPN || tag == UPOS::PRON
}

/// `UPOS::is_nominal` holds of nouns, proper nouns and pronouns, and of no
/// other tag.
pub assume_specification[ UPOS::is_nominal ](tag: &UPOS) -> (r: bool)
    ensures
        r == tag_is_nominal(*tag),
;

/// Whether two tags are the same part of speech.
pub fn same_tag(a: UPOS, b: UPOS) -> (r: bool)
    ensures
        r == (a == b),
{
    match (a, b) {
        (UPOS::ADJ, UPOS::ADJ) => true,
        (UPOS::ADP, UPOS::ADP) => true,
        (UPOS::ADV, UPOS::ADV) => true,
        (UPOS::AUX, UPOS::AUX) => true,
        (UPOS::CCONJ, UPOS::CCONJ) => true,
        (UPOS::DET, UPOS::DET) => true,
        (UPOS::INTJ, UPOS::INTJ) => true,
        (UPOS::NOUN, UPOS::NOUN) => true,
        (UPOS::NUM, UPOS::NUM) => true,
        (UPOS::PART, UPOS::PART) => true,
        (UPOS::PRON, UPOS::PRON) => true,
        (UPOS::PROPN, UPOS::PROPN) => true,
        (UPOS::PUNCT, UPOS::PUNCT) => true,
        (UPOS::SCONJ, UPOS::SCONJ) => true,
        (UPOS::SYM, UPOS::SYM) => true,
        (UPOS::VERB, UPOS::VERB) => true,
        _ => false,
    }
}

/// What the tagger and the dictionary know of one word.
///
/// The engine reads these facts and never computes them.
#[derive(Clone, Copy, Debug, PartialEq, Eq)]
pub struct WordMetadata {
    /// The part of speech, where the tagger settled on one.
    pub pos_tag: Option<UPOS>,
    /// Whether the dictionary has the word as a determiner.
    pub determiner: bool,
    /// Whether the dictionary has the word as an adjective.
    pub adjective: bool,
    /// Whether the dictionary has the word as a possessive noun.
    pub possessive_noun: bool,
    /// Whether the dictionary has the word as a singular noun or pronoun.
    pub singular_nominal: bool,
    /// Whether the dictionary has the word as the progressive form of a verb.
    pub verb_progressive_form: bool,
    /// Whether the dictionary has the word as a linking verb.
    pub linking_verb: bool,
    /// Whether the dictionary has the word as an auxiliary verb.
    pub auxiliary_verb: bool,
    /// Whether the word belongs to a noun phrase.
    pub np_member: bool,
}

impl WordMetadata {
    /// Metadata that asserts nothing: no tag, every predicate false.
    pub fn new() -> (r: WordMetadata)
        ensures
            r == (WordMetadata {
                pos_tag: None,
                determiner: false,
                adjective: false,
                possessive_noun: false,
                singular_nominal: false,
                verb_progressive_form: false,
                linking_verb: false,
                auxiliary_verb: false,
                np_member: false,
            }),
    {
        WordMetadata {
            pos_tag: None,
            determiner: false,
            adjective: false,
            possessive_noun: false,
            singular_nominal: false,
            verb_progressive_form: false,
            linking_verb: false,
            auxiliary_verb: false,
            np_member: false,
        }
    }

    /// Metadata that asserts only the part of speech `tag`.
    pub fn tagged(tag: UPOS) -> (r: WordMetadata)
        ensures
            r == (WordMetadata {
                pos_tag: Some(tag),
                determiner: false,
                adjective: false,
                possessive_noun: false,
                singular_nominal: false,
                verb_progressive_form: false,
                linking_verb: false,
                auxiliary_verb: false,
                np_member: false,
            }),
    {
        let mut meta = WordMetadata::new();
        meta.pos_tag = Some(tag);
        meta
    }

    /// Whether the word carries the tag `tag`.
    pub open spec fn has_tag(&self, tag: UPOS) -> bool {
        self.pos_tag == Some(tag)
    }

    /// Whether the word carries a nominal tag.
    pub open spec fn has_nominal_tag(&self) -> bool {
        match self.pos_tag {
            Some(tag) => tag_is_nominal(tag),
            None => false,
        }
    }

    /// Whether the word carries the tag `tag`.
    pub fn is_upos(&self, tag: UPOS) -> (r: bool)
        ensures
            r == self.has_tag(tag),
    {
        match self.pos_tag {
            Some(own) => same_tag(own, tag),
            None => false,
        }
    }

    /// Whether the dictionary has the word as a determiner.
    pub fn is_determiner(&self) -> (r: bool)
        ensures
            r == self.determiner,
    {
        self.determiner
    }

    /// Whether the dictionary has the word as an adjective.
    pub fn is_adjective(&self) -> (r: bool)
        ensures
            r == self.adjective,
    {
        self.adjective
    }

    /// Whether the dictionary has the word as a possessive noun.
    pub fn is_possessive_noun(&self) -> (r: bool)
        ensures
            r == self.possessive_noun,
    {
        self.possessive_noun
    }

    /// Whether the dictionary has the word as a singular nominal.
    pub fn is_singular_nominal(&self) -> (r: bool)
        ensures
            r == self.singular_nominal,
    {
        self.singular_nominal
    }

    /// Whether the dictionary has the word as the progressive form of a verb.
    pub fn is_verb_progressive_form(&self) -> (r: bool)
        ensures
            r == self.verb_progressive_form,
    {
        self.verb_progressive_form
    }

    /// Whether the dictionary has the word as a linking verb.
    pub fn is_linking_verb(&self) -> (r: bool)
        ensures
            r == self.linking_verb,
    {
        self.linking_verb
    }

    /// Whether the dictionary has the word as an auxiliary verb.
    pub fn is_auxiliary_verb(&self) -> (r: bool)
        ensures
            r == self.auxiliary_verb,
    {
        self.auxiliary_verb
    }

    /// Whether the word belongs to a noun phrase.
    pub fn is_np_member(&self) -> (r: bool)
        ensures
            r == self.np_member,
    {
        self.np_member
    }
}

} // verus!
