//! Half-open character ranges into a source buffer.
use vstd::prelude::*;
use vstd::slice::slice_subrange;

verus! {

/// A half-open range `[start, end)` of character offsets into one source
/// buffer.
#[derive(Clone, Copy, Debug, PartialEq, Eq, Hash, Structural)]
pub struct Span {
    /// The offset of the first character covered.
    pub start: usize,
    /// The offset just past the last character covered.
    pub end: usize,
}

/// Collects characters into a `String` through `String`'s `FromIterator`.
/// Trusted: the string holds exactly the characters given, in order.
#[verifier::external_body]
pub(crate) fn string_from_chars(chars: &[char]) -> (r: String)
    ensures
        r@ == chars@,
{
    chars.iter().collect()
}

impl Span {
    /// Whether the range is well formed: it does not end before it starts.
    pub open spec fn wf(&self) -> bool {
        self.start <= self.end
    }

    /// Whether the range is well formed and lies inside a buffer of `len`
    /// characters.
    pub open spec fn fits(&self, len: nat) -> bool {
        self.start <= self.end <= len
    }

    /// The number of characters covered.
    pub open spec fn spec_len(&self) -> nat {
        (self.end - self.start) as nat
    }

    /// Whether the two ranges share at least one character.
    pub open spec fn spec_overlaps_with(&self, other: Span) -> bool {
        self.start < other.end && other.start < self.end
    }

    /// The range `self` grown as little as needed to cover `offset`.
    pub open spec fn spec_expand_to_include(&self, offset: usize) -> Span {
        if offset < self.start {
            Span { start: offset, end: self.end }
        } else if offset >= self.end {
            Span { start: self.start, end: (offset + 1) as usize }
        } else {
            *self
        }
    }

    /// The characters of `source` that the range covers.
    pub open spec fn content(&self, source: Seq<char>) -> Seq<char> {
        source.subrange(self.start as int, self.end as int)
    }

    /// Makes the range `[start, end)`.
    pub fn new(start: usize, end: usize) -> (r: Span)
        requires
            start <= end,
        ensures
            r == (Span { start, end }),
            r.wf(),
    {
        Span { start, end }
    }

    /// The number of characters covered.
    pub fn len(&self) -> (r: usize)
        requires
            self.wf(),
        ensures
            r == self.spec_len(),
    {
        self.end - self.start
    }

    /// Whether the range covers no character.
    pub fn is_empty(&self) -> (r: bool)
        requires
            self.wf(),
        ensures
            r == (self.spec_len() == 0),
    {
        self.end == self.start
    }

    /// Whether the two ranges share at least one character.
    pub fn overlaps_with(&self, other: Span) -> (r: bool)
        ensures
            r == self.spec_overlaps_with(other),
    {
        self.start < other.end && other.start < self.end
    }

    /// A new range that covers `self` and the character at `offset`.
    ///
    /// An offset before the range moves its start; one at or past its end
    /// moves its end just beyond the offset.
    pub fn expand_to_include(&self, offset: usize) -> (r: Span)
        requires
            self.wf(),
            offset < usize::MAX,
        ensures
            r == self.spec_expand_to_include(offset),
            r.wf(),
            r.start <= self.start,
            self.end <= r.end,
            r.start <= offset < r.end,
    {
        if offset < self.start {
            Span { start: offset, end: self.end }
        } else if offset >= self.end {
            Span { start: self.start, end: offset + 1 }
        } else {
            *self
        }
    }

    /// The characters of `source` that the range covers.
    pub fn get_content<'a>(&self, source: &'a [char]) -> (r: &'a [char])
        requires
            self.fits(source@.len()),
        ensures
            r@ == self.content(source@),
    {
        slice_subrange(source, self.start, self.end)
    }

    /// The characters of `source` that the range covers, as a `String`.
    pub fn get_content_string(&self, source: &[char]) -> (r: String)
        requires
            self.fits(source@.len()),
        ensures
            r@ == self.content(source@),
    {
        string_from_chars(self.get_content(source))
    }
}

} // verus!
