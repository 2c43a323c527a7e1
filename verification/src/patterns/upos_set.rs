//! Matching a word by its part-of-speech tag.
use vstd::prelude::*;
use harper_brill::UPOS;
use smallvec::SmallVec;
use smallvec::ToSmallVec;
use crate::patterns::Pattern;
use crate::token::Token;

verus! {

/// A short list of tags, kept in a `smallvec::SmallVec` that holds up to ten
/// of them inline.
#[verifier::external_body]
pub struct TagList {
    items: SmallVec<[UPOS; 10]>,
}

/// The tags that a list holds, in order.
pub uninterp spec fn tags_of(list: TagList) -> Seq<UPOS>;

/// Calls `ToSmallVec::to_smallvec` on a slice of tags. Trusted: the list made
/// holds the slice's tags, in the slice's order.
#[verifier::external_body]
fn tags_from_slice(allowed: &[UPOS]) -> (r: TagList)
    ensures
        tags_of(r) == allowed@,
{
    TagList { items: allowed.to_smallvec() }
}

/// Calls `contains` on the list's items as a slice. Trusted: the answer is
/// whether some item of the list equals `tag`.
#[verifier::external_body]
fn tags_contain(list: &TagList, tag: UPOS) -> (r: bool)
    ensures
        r == tags_of(*list).contains(tag),
{
    list.items.contains(&tag)
}

/// Whether `token` is a word that carries one of `tags`.
pub open spec fn tagged_as(token: Token, tags: Seq<UPOS>) -> bool {
    match token.kind.metadata() {
        Some(meta) => match meta.pos_tag {
            Some(tag) => tags.contains(tag),
            None => false,
        },
        None => false,
    }
}

/// Matches one word whose part-of-speech tag is among the allowed ones.
pub struct UPOSSet {
    allowed_tags: TagList,
}

impl UPOSSet {
    /// The allowed tags.
    pub closed spec fn tags(&self) -> Seq<UPOS> {
        tags_of(self.allowed_tags)
    }

    /// Makes the set of the tags `allowed`.
    pub fn new(allowed: &[UPOS]) -> (r: Self)
        ensures
            r.tags() == allowed@,
    {
        Self { allowed_tags: tags_from_slice(allowed) }
    }

    /// Construct a new set with the tags needed to detect nominal words.
    pub fn new_nominal() -> (r: Self)
        ensures
            r.tags() == seq![UPOS::NOUN, UPOS::PROPN, UPOS::PRON],
    {
        let tags = [UPOS::NOUN, UPOS::PROPN, UPOS::PRON];
        assert(tags@ =~= seq![UPOS::NOUN, UPOS::PROPN, UPOS::PRON]);
        Self::new(&tags)
    }

    /// Whether `tag` is among the allowed tags.
    pub fn allows(&self, tag: UPOS) -> (r: bool)
        ensures
            r == self.tags().contains(tag),
    {
        tags_contain(&self.allowed_tags, tag)
    }

    /// Whether `token` is a word that carries one of the allowed tags.
    pub open spec fn accepts(&self, token: Token) -> bool {
        tagged_as(token, self.tags())
    }
}

impl Pattern for UPOSSet {
    open spec fn spec_matches(&self, tokens: Seq<Token>, source: Seq<char>) -> Option<nat> {
        if tokens.len() > 0 && self.accepts(tokens[0]) {
            Some(1)
        } else {
            None
        }
    }

    fn matches(&self, tokens: &[Token], _source: &[char]) -> (r: Option<usize>) {
        if tokens.len() == 0 {
            return None;
        }
        match tokens[0].kind.word_metadata() {
            Some(meta) => match meta.pos_tag {
                Some(tag) => if self.allows(tag) {
                    Some(1)
                } else {
                    None
                },
                None => None,
            },
            None => None,
        }
    }
}

} // verus!
