//! A heuristic for whether a word begins with a vowel sound.
use vstd::prelude::*;
use crate::char_string::{all_uppercase, begins_with, is_all_uppercase, is_text, lowercase_of, to_lower};

verus! {

/// Whether the name of the capital letter `letter` begins with a vowel sound,
/// as in "an F" or "an X".
pub open spec fn letter_name_starts_with_vowel(letter: char) -> bool {
    letter == 'A' || letter == 'E' || letter == 'F' || letter == 'H' || letter == 'I'
        || letter == 'L' || letter == 'M' || letter == 'N' || letter == 'O' || letter == 'R'
        || letter == 'S' || letter == 'X'
}

/// Whether `w` begins with `prefix`.
pub open spec fn begins(w: Seq<char>, prefix: &str) -> bool {
    prefix@.is_prefix_of(w)
}

/// Whether `w` is exactly `text`.
pub open spec fn equals(w: Seq<char>, text: &str) -> bool {
    w == text@
}

/// Whether the lowercase word `w` begins with a vowel sound.
///
/// The verdict comes from an ordered list of exceptions, the first that
/// applies deciding, and from the first letter where none applies.
pub open spec fn lowercase_starts_with_vowel(w: Seq<char>) -> bool {
    if w.len() == 0 || begins(w, "uk") || begins(w, "euph") || begins(w, "eug") || begins(w, "eul")
        || begins(w, "euc") || equals(w, "one") || equals(w, "once") {
        false
    } else if begins(w, "hour") || begins(w, "hon") || begins(w, "unin") || begins(w, "unim")
        || begins(w, "una") || begins(w, "unu") || begins(w, "herb") || begins(w, "urb")
        || begins(w, "int") {
        true
    } else if begins(w, "uni") || begins(w, "una") || begins(w, "unu") || begins(w, "usi")
        || begins(w, "usa") || begins(w, "usu") {
        false
    } else if begins(w, "un") || begins(w, "urg") || begins(w, "utt") {
        true
    } else if begins(w, "ut") || begins(w, "ur") || begins(w, "un") || begins(w, "eur")
        || begins(w, "uw") || begins(w, "use") {
        false
    } else if begins(w, "oneal") || begins(w, "onead") || begins(w, "oneel") || begins(w, "oneed")
        || begins(w, "oneil") || begins(w, "oneid") || begins(w, "oneul") || begins(w, "oneud") {
        true
    } else if begins(w, "onea") || begins(w, "onee") || begins(w, "onei") || begins(w, "oneu")
        || begins(w, "one-") || begins(w, "ones") {
        false
    } else if equals(w, "sos") || begins(w, "rz") || begins(w, "ng") || begins(w, "nv") || equals(w, "x")
        || equals(w, "xbox") || begins(w, "heir") || begins(w, "honor") {
        true
    } else if begins(w, "jun") || begins(w, "jon") || begins(w, "jura") || begins(w, "juri")
        || begins(w, "juro") {
        false
    } else if begins(w, "x-") || begins(w, "x'") || begins(w, "x.") || begins(w, "xo")
        || begins(w, "xs") {
        true
    } else {
        begins(w, "a") || begins(w, "e") || begins(w, "i") || begins(w, "o") || begins(w, "u")
    }
}

/// Whether `word` begins with a vowel sound.
///
/// A non-empty word written wholly in capitals is read as an initialism and
/// judged by the name of its first letter. Any other word is lowered and
/// judged by [`lowercase_starts_with_vowel`].
pub open spec fn spec_starts_with_vowel(word: Seq<char>) -> bool {
    if word.len() > 0 && all_uppercase(word) {
        letter_name_starts_with_vowel(word[0])
    } else {
        lowercase_starts_with_vowel(lowercase_of(word))
    }
}

/// Decides whether the name of a capital letter begins with a vowel sound.
pub fn initial_starts_with_vowel(letter: char) -> (r: bool)
    ensures
        r == letter_name_starts_with_vowel(letter),
{
    letter == 'A' || letter == 'E' || letter == 'F' || letter == 'H' || letter == 'I'
        || letter == 'L' || letter == 'M' || letter == 'N' || letter == 'O' || letter == 'R'
        || letter == 'S' || letter == 'X'
}

/// Decides whether a word that is already lowercase begins with a vowel
/// sound.
pub fn lowered_starts_with_vowel(word: &[char]) -> (r: bool)
    ensures
        r == lowercase_starts_with_vowel(word@),
{
    if word.len() == 0 || begins_with(word, "uk") || begins_with(word, "euph")
        || begins_with(word, "eug") || begins_with(word, "eul") || begins_with(word, "euc")
        || is_text(word, "one") || is_text(word, "once") {
        return false;
    }
    if begins_with(word, "hour") || begins_with(word, "hon") || begins_with(word, "unin")
        || begins_with(word, "unim") || begins_with(word, "una") || begins_with(word, "unu")
        || begins_with(word, "herb") || begins_with(word, "urb") || begins_with(word, "int") {
        return true;
    }
    if begins_with(word, "uni") || begins_with(word, "una") || begins_with(word, "unu")
        || begins_with(word, "usi") || begins_with(word, "usa") || begins_with(word, "usu") {
        return false;
    }
    if begins_with(word, "un") || begins_with(word, "urg") || begins_with(word, "utt") {
        return true;
    }
    if begins_with(word, "ut") || begins_with(word, "ur") || begins_with(word, "un")
        || begins_with(word, "eur") || begins_with(word, "uw") || begins_with(word, "use") {
        return false;
    }
    if begins_with(word, "oneal") || begins_with(word, "onead") || begins_with(word, "oneel")
        || begins_with(word, "oneed") || begins_with(word, "oneil") || begins_with(word, "oneid")
        || begins_with(word, "oneul") || begins_with(word, "oneud") {
        return true;
    }
    if begins_with(word, "onea") || begins_with(word, "onee") || begins_with(word, "onei")
        || begins_with(word, "oneu") || begins_with(word, "one-") || begins_with(word, "ones") {
        return false;
    }
    if is_text(word, "sos") || begins_with(word, "rz") || begins_with(word, "ng")
        || begins_with(word, "nv") || is_text(word, "x") || is_text(word, "xbox")
        || begins_with(word, "heir") || begins_with(word, "honor") {
        return true;
    }
    if begins_with(word, "jun") || begins_with(word, "jon") || begins_with(word, "jura")
        || begins_with(word, "juri") || begins_with(word, "juro") {
        return false;
    }
    if begins_with(word, "x-") || begins_with(word, "x'") || begins_with(word, "x.")
        || begins_with(word, "xo") || begins_with(word, "xs") {
        return true;
    }
    begins_with(word, "a") || begins_with(word, "e") || begins_with(word, "i")
        || begins_with(word, "o") || begins_with(word, "u")
}

/// Checks whether a word begins with a vowel _sound_, so that "an" rather
/// than "a" belongs before it.
pub fn starts_with_vowel(word: &[char]) -> (r: bool)
    ensures
        r == spec_starts_with_vowel(word@),
{
    if word.len() > 0 && is_all_uppercase(word) {
        return initial_starts_with_vowel(word[0]);
    }
    let lowered = to_lower(word);
    lowered_starts_with_vowel(lowered.as_slice())
}

} // verus!
