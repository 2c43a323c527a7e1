use harper_core::char_string::{
    begins_with, chars_of, is_all_uppercase, is_text, texts_eq, texts_eq_ignore_ascii_case,
    to_ascii_lowercase, to_ascii_uppercase, to_lower,
};
use harper_core::starts_with_vowel;
use harper_core::starts_with_vowel::{initial_starts_with_vowel, lowered_starts_with_vowel};

fn chars(text: &str) -> Vec<char> {
    text.chars().collect()
}

fn vowel(word: &str) -> bool {
    starts_with_vowel(&chars(word))
}

fn lowered(word: &str) -> bool {
    lowered_starts_with_vowel(&chars(word))
}

#[test]
fn the_empty_word_has_no_vowel_sound() {
    assert!(!vowel(""));
    assert!(!lowered(""));
}

#[test]
fn initialisms_go_by_the_name_of_the_first_letter() {
    assert!(vowel("HTML"));
    assert!(vowel("LLM"));
    assert!(vowel("FBI"));
    assert!(vowel("SOS"));
    assert!(vowel("X"));
    assert!(vowel("A"));
    assert!(!vowel("URL"));
    assert!(!vowel("UK"));
    assert!(!vowel("CPU"));
    assert!(!vowel("WWW"));
}

#[test]
fn every_letter_name_is_judged() {
    for letter in "AEFHILMNORSX".chars() {
        assert!(initial_starts_with_vowel(letter), "{letter}");
    }
    for letter in "BCDGJKPQTUVWYZ".chars() {
        assert!(!initial_starts_with_vowel(letter), "{letter}");
    }
    assert!(!initial_starts_with_vowel('a'));
    assert!(!initial_starts_with_vowel('1'));
}

#[test]
fn mixed_case_is_lowered_first() {
    assert!(vowel("Error"));
    assert!(vowel("Hour"));
    assert!(!vowel("Fourier"));
    assert!(!vowel("Crash"));
    assert!(!vowel("Html"));
    assert!(!vowel("Unicorn"));
}

#[test]
fn plain_first_letters_decide_where_no_exception_applies() {
    assert!(lowered("apple"));
    assert!(lowered("error"));
    assert!(lowered("igloo"));
    assert!(lowered("object"));
    assert!(lowered("umbrella"));
    assert!(!lowered("crash"));
    assert!(!lowered("yellow"));
    assert!(!lowered("52"));
}

#[test]
fn exceptions_that_sound_like_consonants() {
    assert!(!lowered("uk"));
    assert!(!lowered("ukulele"));
    assert!(!lowered("euphoria"));
    assert!(!lowered("eugenics"));
    assert!(!lowered("eulogy"));
    assert!(!lowered("eucalyptus"));
    assert!(!lowered("one"));
    assert!(!lowered("once"));
    assert!(!lowered("unicorn"));
    assert!(!lowered("usual"));
    assert!(!lowered("usage"));
    assert!(!lowered("using"));
    assert!(!lowered("utopia"));
    assert!(!lowered("urine"));
    assert!(!lowered("european"));
    assert!(!lowered("uwu"));
    assert!(!lowered("user"));
    assert!(!lowered("ones"));
    assert!(!lowered("one-time"));
    assert!(!lowered("oneus"));
    assert!(!lowered("june"));
    assert!(!lowered("jonah"));
    assert!(!lowered("jury"));
    assert!(!lowered("jurassic"));
}

#[test]
fn exceptions_that_sound_like_vowels() {
    assert!(lowered("hour"));
    assert!(lowered("hourly"));
    assert!(lowered("honest"));
    assert!(lowered("honor"));
    assert!(lowered("uninteresting"));
    assert!(lowered("unimportant"));
    assert!(lowered("unable"));
    assert!(lowered("unusual"));
    assert!(lowered("herb"));
    assert!(lowered("urban"));
    assert!(lowered("interface"));
    assert!(lowered("under"));
    assert!(lowered("urge"));
    assert!(lowered("utter"));
    assert!(lowered("oneal"));
    assert!(lowered("oneida"));
    assert!(lowered("sos"));
    assert!(lowered("rzeczpospolita"));
    assert!(lowered("nguyen"));
    assert!(lowered("nvidia"));
    assert!(lowered("x"));
    assert!(lowered("xbox"));
    assert!(lowered("heir"));
    assert!(lowered("x-ray"));
    assert!(lowered("x'"));
    assert!(lowered("x.org"));
    assert!(lowered("xor"));
    assert!(lowered("xss"));
}

#[test]
fn the_first_exception_that_applies_decides() {
    // "uni" sounds like a consonant, but "unin" and "unim" come first.
    assert!(lowered("uninstall"));
    assert!(!lowered("unit"));
    // "one" is a consonant sound only as the whole word.
    assert!(!lowered("one"));
    assert!(lowered("onerous"));
    // "xbox" is a vowel sound only as the whole word; "xb" alone decides nothing.
    assert!(!lowered("xbar"));
    // "sos" likewise.
    assert!(!lowered("sosa"));
}

#[test]
fn uppercase_test_reads_every_character() {
    assert!(is_all_uppercase(&chars("HTML")));
    assert!(is_all_uppercase(&chars("")));
    assert!(is_all_uppercase(&chars("É")));
    assert!(!is_all_uppercase(&chars("HTMl")));
    assert!(!is_all_uppercase(&chars("html")));
    assert!(!is_all_uppercase(&chars("H2")));
}

#[test]
fn lowering_maps_every_character() {
    assert_eq!(to_lower(&chars("HTML")), chars("html"));
    assert_eq!(to_lower(&chars("Fourier")), chars("fourier"));
    assert_eq!(to_lower(&chars("a-B 3")), chars("a-b 3"));
    assert_eq!(to_lower(&chars("")), chars(""));
    // One capital may lower to two characters.
    assert_eq!(to_lower(&chars("İ")), "İ".to_lowercase().chars().collect::<Vec<char>>());
    assert_eq!(to_lower(&chars("İ")).len(), 2);
}

#[test]
fn prefix_test_compares_the_front() {
    assert!(begins_with(&chars("hourly"), "hour"));
    assert!(begins_with(&chars("hour"), "hour"));
    assert!(begins_with(&chars("hour"), ""));
    assert!(!begins_with(&chars("hou"), "hour"));
    assert!(!begins_with(&chars("shour"), "hour"));
    assert!(!begins_with(&chars(""), "h"));
}

#[test]
fn whole_text_test_compares_everything() {
    assert!(is_text(&chars("once"), "once"));
    assert!(!is_text(&chars("onces"), "once"));
    assert!(!is_text(&chars("onc"), "once"));
    assert!(!is_text(&chars("Once"), "once"));
    assert!(is_text(&chars(""), ""));
}

#[test]
fn equality_with_and_without_case() {
    assert!(texts_eq(&chars("to"), &chars("to")));
    assert!(!texts_eq(&chars("To"), &chars("to")));
    assert!(!texts_eq(&chars("to"), &chars("too")));
    assert!(texts_eq_ignore_ascii_case(&chars("To"), &chars("to")));
    assert!(texts_eq_ignore_ascii_case(&chars("TO"), &chars("to")));
    assert!(texts_eq_ignore_ascii_case(&chars("to"), &chars("TO")));
    assert!(!texts_eq_ignore_ascii_case(&chars("to"), &chars("too")));
    assert!(!texts_eq_ignore_ascii_case(&chars("to"), &chars("tp")));
    // Only ASCII letters are folded.
    assert!(!texts_eq_ignore_ascii_case(&chars("É"), &chars("é")));
    assert!(!texts_eq_ignore_ascii_case(&chars("@"), &chars("`")));
    assert!(!texts_eq_ignore_ascii_case(&chars("["), &chars("{")));
}

#[test]
fn characters_of_a_string() {
    assert_eq!(chars_of("too"), vec!['t', 'o', 'o']);
    assert_eq!(chars_of(""), Vec::<char>::new());
    assert_eq!(chars_of("o’s"), vec!['o', '’', 's']);
}

#[test]
fn ascii_case_of_single_characters() {
    for c in '\0'..='\u{ff}' {
        assert_eq!(to_ascii_uppercase(c), c.to_ascii_uppercase());
        assert_eq!(to_ascii_lowercase(c), c.to_ascii_lowercase());
    }
    assert_eq!(to_ascii_uppercase('a'), 'A');
    assert_eq!(to_ascii_uppercase('z'), 'Z');
    assert_eq!(to_ascii_lowercase('A'), 'a');
    assert_eq!(to_ascii_lowercase('Z'), 'z');
    assert_eq!(to_ascii_uppercase('é'), 'é');
    assert_eq!(to_ascii_lowercase('É'), 'É');
    assert_eq!(to_ascii_uppercase('ſ'), 'ſ');
}
