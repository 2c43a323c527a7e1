//! A tokenized text, cut into the chunks that rules scan one by one.
use vstd::prelude::*;
use vstd::slice::slice_subrange;
use crate::span::Span;
use crate::token::{tokens_fit, tokens_ordered, Token};

verus! {

/// Whether `ends` cuts a sequence of `len` tokens into consecutive, non-empty
/// chunks: it is strictly increasing, starts above zero and stops at `len`.
pub open spec fn chunk_ends_valid(ends: Seq<usize>, len: nat) -> bool {
    &&& len == 0 <==> ends.len() == 0
    &&& forall|i: int| 0 <= i < ends.len() ==> 0 < #[trigger] ends[i] <= len
    &&& forall|i: int, j: int| 0 <= i < j < ends.len() ==> #[trigger] ends[i] < #[trigger] ends[j]
    &&& ends.len() > 0 ==> ends.last() == len
}

/// The index of the first token of chunk `i`.
pub open spec fn chunk_start(ends: Seq<usize>, i: int) -> int {
    if i <= 0 {
        0
    } else {
        ends[i - 1] as int
    }
}

/// A source buffer, its tokens in text order, and the ends of its chunks.
///
/// The tokenizer and the segmenter decide all three; a document only checks
/// that they agree with each other.
#[derive(Clone, Debug)]
pub struct Document {
    source: Vec<char>,
    tokens: Vec<Token>,
    chunk_ends: Vec<usize>,
}

impl Document {
    /// The characters of the text.
    pub closed spec fn source(&self) -> Seq<char> {
        self.source@
    }

    /// The tokens of the text, in order.
    pub closed spec fn tokens(&self) -> Seq<Token> {
        self.tokens@
    }

    /// For each chunk, the index just past its last token.
    pub closed spec fn chunk_ends(&self) -> Seq<usize> {
        self.chunk_ends@
    }

    /// The tokens of chunk `i`.
    pub open spec fn chunk(&self, i: int) -> Seq<Token> {
        self.tokens().subrange(chunk_start(self.chunk_ends(), i), self.chunk_ends()[i] as int)
    }

    /// Whether tokens, source and chunks agree: every token's range lies in
    /// the source, the tokens follow each other in the text, and the chunks
    /// cover the tokens without gap or overlap.
    pub open spec fn wf(&self) -> bool {
        &&& tokens_fit(self.tokens(), self.source().len())
        &&& tokens_ordered(self.tokens())
        &&& chunk_ends_valid(self.chunk_ends(), self.tokens().len())
    }

    /// Makes a document, or `None` where the parts do not agree.
    pub fn new(source: Vec<char>, tokens: Vec<Token>, chunk_ends: Vec<usize>) -> (r: Option<
        Document,
    >)
        ensures
            r is Some <==> tokens_fit(tokens@, source@.len()) && tokens_ordered(tokens@)
                && chunk_ends_valid(chunk_ends@, tokens@.len()),
            r matches Some(doc) ==> doc.wf() && doc.source() == source@ && doc.tokens() == tokens@
                && doc.chunk_ends() == chunk_ends@,
    {
        if !check_tokens(tokens.as_slice(), source.len()) {
            return None;
        }
        if !check_chunk_ends(chunk_ends.as_slice(), tokens.len()) {
            return None;
        }
        Some(Document { source, tokens, chunk_ends })
    }

    /// Makes a document whose tokens form a single chunk, or `None` where
    /// tokens and source do not agree.
    pub fn new_single_chunk(source: Vec<char>, tokens: Vec<Token>) -> (r: Option<Document>)
        ensures
            r is Some <==> tokens_fit(tokens@, source@.len()) && tokens_ordered(tokens@),
            r matches Some(doc) ==> doc.wf() && doc.source() == source@ && doc.tokens() == tokens@
                && doc.chunk_ends() == (if tokens@.len() == 0 {
                Seq::<usize>::empty()
            } else {
                seq![tokens@.len() as usize]
            }),
    {
        let mut chunk_ends: Vec<usize> = Vec::new();
        if tokens.len() > 0 {
            chunk_ends.push(tokens.len());
        }
        proof {
            if tokens@.len() > 0 {
                assert(chunk_ends@ =~= seq![tokens@.len() as usize]);
            } else {
                assert(chunk_ends@ =~= Seq::<usize>::empty());
            }
            assert(chunk_ends_valid(chunk_ends@, tokens@.len()));
        }
        Document::new(source, tokens, chunk_ends)
    }

    /// The tokens of the text, in order.
    pub fn get_tokens(&self) -> (r: &[Token])
        ensures
            r@ == self.tokens(),
    {
        self.tokens.as_slice()
    }

    /// The characters of the text.
    pub fn get_source(&self) -> (r: &[char])
        ensures
            r@ == self.source(),
    {
        self.source.as_slice()
    }

    /// The characters that `span` covers.
    pub fn get_span_content(&self, span: &Span) -> (r: &[char])
        requires
            span.fits(self.source().len()),
        ensures
            r@ == span.content(self.source()),
    {
        span.get_content(self.source.as_slice())
    }

    /// The number of chunks.
    pub fn chunk_count(&self) -> (r: usize)
        ensures
            r == self.chunk_ends().len(),
    {
        self.chunk_ends.len()
    }

    /// The tokens of chunk `i`.
    pub fn get_chunk(&self, i: usize) -> (r: &[Token])
        requires
            self.wf(),
            i < self.chunk_ends().len(),
        ensures
            r@ == self.chunk(i as int),
    {
        let start = if i == 0 {
            0
        } else {
            self.chunk_ends[i - 1]
        };
        let end = self.chunk_ends[i];
        slice_subrange(self.tokens.as_slice(), start, end)
    }
}

/// Checks that every token's range lies in a source of `len` characters and
/// that the tokens follow each other.
fn check_tokens(tokens: &[Token], len: usize) -> (r: bool)
    ensures
        r == (tokens_fit(tokens@, len as nat) && tokens_ordered(tokens@)),
{
    let mut i: usize = 0;
    let mut last_end: usize = 0;
    while i < tokens.len()
        invariant
            i <= tokens.len(),
            forall|k: int| 0 <= k < i ==> (#[trigger] tokens@[k]).span.fits(len as nat),
            forall|a: int, b: int|
                0 <= a < b < i ==> (#[trigger] tokens@[a]).span.end <= (#[trigger] tokens@[b]).span.start,
            i > 0 ==> last_end == tokens@[i - 1].span.end,
        decreases tokens.len() - i,
    {
        let span = tokens[i].span;
        if span.start > span.end || span.end > len {
            assert(!tokens@[i as int].span.fits(len as nat));
            return false;
        }
        if i > 0 && span.start < last_end {
            assert(tokens@[i - 1].span.end > tokens@[i as int].span.start);
            return false;
        }
        proof {
            assert forall|a: int, b: int| 0 <= a < b < i + 1 implies (#[trigger] tokens@[a]).span.end
                <= (#[trigger] tokens@[b]).span.start by {
                if b == i && a < i - 1 {
                    assert(tokens@[a].span.end <= tokens@[i - 1].span.start);
                    assert(tokens@[i - 1].span.fits(len as nat));
                }
            }
        }
        last_end = span.end;
        i += 1;
    }
    true
}

/// Checks that `ends` cuts `len` tokens into consecutive, non-empty chunks.
fn check_chunk_ends(ends: &[usize], len: usize) -> (r: bool)
    ensures
        r == chunk_ends_valid(ends@, len as nat),
{
    if ends.len() == 0 {
        return len == 0;
    }
    if len == 0 || ends[ends.len() - 1] != len {
        assert(ends@.last() == ends@[ends.len() - 1]);
        return false;
    }
    let mut i: usize = 0;
    let mut last: usize = 0;
    while i < ends.len()
        invariant
            i <= ends.len(),
            forall|k: int| 0 <= k < i ==> 0 < #[trigger] ends@[k] <= len,
            forall|a: int, b: int| 0 <= a < b < i ==> #[trigger] ends@[a] < #[trigger] ends@[b],
            i > 0 ==> last == ends@[i - 1],
            i == 0 ==> last == 0,
        decreases ends.len() - i,
    {
        let end = ends[i];
        if end > len || end <= last {
            proof {
                if end <= len && i > 0 {
                    assert(!(ends@[i - 1] < ends@[i as int]));
                }
            }
            return false;
        }
        last = end;
        i += 1;
    }
    assert(ends@.last() == ends@[ends.len() - 1]);
    true
}

} // verus!
