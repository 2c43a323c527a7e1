//! Character classification and helpers for text held as `char` slices.
use vstd::prelude::*;

verus! {

/// Whether `c` has the Unicode `Uppercase` property, as `char::is_uppercase`
/// reports it.
pub uninterp spec fn unicode_is_uppercase(c: char) -> bool;

/// Whether `c` is alphabetic or numeric in Unicode's sense, as
/// `char::is_alphanumeric` reports it.
pub uninterp spec fn unicode_is_alphanumeric(c: char) -> bool;

/// The characters that `char::to_lowercase` yields for `c`, in order.
pub uninterp spec fn unicode_lowercase(c: char) -> Seq<char>;

/// Calls `char::is_uppercase`. Trusted: the result is the Unicode property
/// named by [`unicode_is_uppercase`].
#[verifier::external_body]
pub(crate) fn is_uppercase(c: char) -> (r: bool)
    ensures
        r == unicode_is_uppercase(c),
{
    c.is_uppercase()
}

/// Calls `char::is_alphanumeric`. Trusted: the result is the Unicode property
/// named by [`unicode_is_alphanumeric`].
#[verifier::external_body]
pub(crate) fn is_alphanumeric(c: char) -> (r: bool)
    ensures
        r == unicode_is_alphanumeric(c),
{
    c.is_alphanumeric()
}

/// Calls `char::to_lowercase` and collects what it yields. Trusted: the
/// result is the lowercase mapping named by [`unicode_lowercase`].
#[verifier::external_body]
pub(crate) fn to_lowercase(c: char) -> (r: Vec<char>)
    ensures
        r@ == unicode_lowercase(c),
{
    c.to_lowercase().collect()
}

/// Whether `c` is an ASCII lowercase letter.
pub open spec fn is_ascii_lower(c: char) -> bool {
    'a' <= c <= 'z'
}

/// Whether `c` is an ASCII uppercase letter.
pub open spec fn is_ascii_upper(c: char) -> bool {
    'A' <= c <= 'Z'
}

/// The capital of an ASCII lowercase letter; any other character itself.
pub open spec fn ascii_upper(c: char) -> char {
    if is_ascii_lower(c) {
        ((c as int) - 32) as char
    } else {
        c
    }
}

/// The small form of an ASCII capital letter; any other character itself.
pub open spec fn ascii_lower(c: char) -> char {
    if is_ascii_upper(c) {
        ((c as int) + 32) as char
    } else {
        c
    }
}

/// The capital of an ASCII lowercase letter; any other character itself.
pub fn to_ascii_uppercase(c: char) -> (r: char)
    ensures
        r == ascii_upper(c),
{
    if 'a' <= c && c <= 'z' {
        ((c as u8) - 32) as char
    } else {
        c
    }
}

/// The small form of an ASCII capital letter; any other character itself.
pub fn to_ascii_lowercase(c: char) -> (r: char)
    ensures
        r == ascii_lower(c),
{
    if 'A' <= c && c <= 'Z' {
        ((c as u8) + 32) as char
    } else {
        c
    }
}

/// Whether the two texts are equal once ASCII capitals are lowered.
pub open spec fn eq_ignore_ascii_case(a: Seq<char>, b: Seq<char>) -> bool {
    &&& a.len() == b.len()
    &&& forall|i: int| 0 <= i < a.len() ==> ascii_lower(#[trigger] a[i]) == ascii_lower(b[i])
}

/// Whether every character of `text` is uppercase.
pub open spec fn all_uppercase(text: Seq<char>) -> bool {
    forall|i: int| 0 <= i < text.len() ==> unicode_is_uppercase(#[trigger] text[i])
}

/// The lowercase form of `text`: the lowercase mapping of each character, in
/// order. One character may map to several.
pub open spec fn lowercase_of(text: Seq<char>) -> Seq<char>
    decreases text.len(),
{
    if text.len() == 0 {
        Seq::empty()
    } else {
        lowercase_of(text.drop_last()) + unicode_lowercase(text.last())
    }
}

/// The longest prefix of `text` made of alphanumeric characters only.
pub open spec fn alphanumeric_prefix_len(text: Seq<char>) -> nat
    decreases text.len(),
{
    if text.len() == 0 || !unicode_is_alphanumeric(text[0]) {
        0
    } else {
        1 + alphanumeric_prefix_len(text.drop_first())
    }
}

/// Tests every character of `text` for uppercase.
pub fn is_all_uppercase(text: &[char]) -> (r: bool)
    ensures
        r == all_uppercase(text@),
{
    let mut i: usize = 0;
    while i < text.len()
        invariant
            i <= text.len(),
            forall|j: int| 0 <= j < i ==> unicode_is_uppercase(#[trigger] text@[j]),
        decreases text.len() - i,
    {
        if !is_uppercase(text[i]) {
            return false;
        }
        i += 1;
    }
    true
}

/// Lowers every character of `text`.
pub fn to_lower(text: &[char]) -> (r: Vec<char>)
    ensures
        r@ == lowercase_of(text@),
{
    let mut out: Vec<char> = Vec::new();
    let mut i: usize = 0;
    while i < text.len()
        invariant
            i <= text.len(),
            out@ == lowercase_of(text@.take(i as int)),
        decreases text.len() - i,
    {
        let mut lowered = to_lowercase(text[i]);
        proof {
            let next = text@.take(i + 1);
            assert(next.drop_last() =~= text@.take(i as int));
            assert(next.last() == text@[i as int]);
        }
        out.append(&mut lowered);
        i += 1;
    }
    proof {
        assert(text@.take(text.len() as int) =~= text@);
    }
    out
}

/// Compares two texts without regard to the case of ASCII letters.
pub fn texts_eq_ignore_ascii_case(a: &[char], b: &[char]) -> (r: bool)
    ensures
        r == eq_ignore_ascii_case(a@, b@),
{
    if a.len() != b.len() {
        return false;
    }
    let mut i: usize = 0;
    while i < a.len()
        invariant
            i <= a.len(),
            a.len() == b.len(),
            forall|j: int| 0 <= j < i ==> ascii_lower(#[trigger] a@[j]) == ascii_lower(b@[j]),
        decreases a.len() - i,
    {
        if to_ascii_lowercase(a[i]) != to_ascii_lowercase(b[i]) {
            return false;
        }
        i += 1;
    }
    true
}

/// Compares two texts character by character.
pub fn texts_eq(a: &[char], b: &[char]) -> (r: bool)
    ensures
        r == (a@ == b@),
{
    if a.len() != b.len() {
        return false;
    }
    let mut i: usize = 0;
    while i < a.len()
        invariant
            i <= a.len(),
            a.len() == b.len(),
            forall|j: int| 0 <= j < i ==> a@[j] == b@[j],
        decreases a.len() - i,
    {
        if a[i] != b[i] {
            return false;
        }
        i += 1;
    }
    proof {
        assert(a@ =~= b@);
    }
    true
}

/// The characters of `text`.
pub fn chars_of(text: &str) -> (r: Vec<char>)
    ensures
        r@ == text@,
{
    let n = text.unicode_len();
    let mut out: Vec<char> = Vec::new();
    let mut i: usize = 0;
    while i < n
        invariant
            i <= n,
            n == text@.len(),
            out@ == text@.take(i as int),
        decreases n - i,
    {
        out.push(text.get_char(i));
        proof {
            assert(text@.take(i + 1) =~= text@.take(i as int).push(text@[i as int]));
        }
        i += 1;
    }
    proof {
        assert(text@.take(n as int) =~= text@);
    }
    out
}

/// Whether `word` begins with the characters of `prefix`.
pub fn begins_with(word: &[char], prefix: &str) -> (r: bool)
    ensures
        r == prefix@.is_prefix_of(word@),
{
    let n = prefix.unicode_len();
    if n > word.len() {
        return false;
    }
    let mut i: usize = 0;
    while i < n
        invariant
            i <= n,
            n == prefix@.len(),
            n <= word.len(),
            forall|j: int| 0 <= j < i ==> word@[j] == prefix@[j],
        decreases n - i,
    {
        if word[i] != prefix.get_char(i) {
            return false;
        }
        i += 1;
    }
    proof {
        assert(prefix@ =~= word@.subrange(0, prefix@.len() as int));
    }
    true
}

/// Whether `word` is exactly the characters of `text`.
pub fn is_text(word: &[char], text: &str) -> (r: bool)
    ensures
        r == (word@ == text@),
{
    let n = text.unicode_len();
    if n != word.len() {
        return false;
    }
    let mut i: usize = 0;
    while i < n
        invariant
            i <= n,
            n == text@.len(),
            n == word.len(),
            forall|j: int| 0 <= j < i ==> word@[j] == text@[j],
        decreases n - i,
    {
        if word[i] != text.get_char(i) {
            return false;
        }
        i += 1;
    }
    proof {
        assert(word@ =~= text@);
    }
    true
}

} // verus!
