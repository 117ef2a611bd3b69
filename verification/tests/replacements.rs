use dictate::process::{apply_replacements, replace_whole_word_ci};
use dictate::words::{is_word_byte, is_word_char, lowered_chars, replace_words};

fn rule(a: &str, b: &str) -> [String; 2] {
    [a.to_string(), b.to_string()]
}

#[test]
fn replacement_is_case_insensitive_but_output_is_verbatim() {
    let r = [rule("github", "GitHub")];
    assert_eq!(apply_replacements("push to Github now", &r), "push to GitHub now");
    assert_eq!(apply_replacements("GITHUB", &r), "GitHub");
}

#[test]
fn replacement_respects_word_boundaries() {
    let r = [rule("cat", "dog")];
    assert_eq!(apply_replacements("the cat sat", &r), "the dog sat");
    assert_eq!(apply_replacements("category", &r), "category");
}

#[test]
fn multi_word_phrase_replacement() {
    let r = [rule("k eight s", "k8s")];
    assert_eq!(apply_replacements("deploy to k eight s today", &r), "deploy to k8s today");
}

#[test]
fn rules_apply_in_order_and_empty_is_skipped() {
    let r = [rule("", "x"), rule("foo", "bar")];
    assert_eq!(apply_replacements("foo", &r), "bar");
}

#[test]
fn no_rules_returns_input() {
    assert_eq!(apply_replacements("unchanged", &[]), "unchanged");
}

#[test]
fn later_rules_see_what_earlier_ones_wrote() {
    let r = [rule("foo", "bar"), rule("bar", "baz")];
    assert_eq!(apply_replacements("foo", &r), "baz");
    let swapped = [rule("bar", "baz"), rule("foo", "bar")];
    assert_eq!(apply_replacements("foo", &swapped), "bar");
}

#[test]
fn the_case_of_a_rule_is_ignored() {
    let upper = [rule("CAT", "dog")];
    let mixed = [rule("cAt", "dog")];
    assert_eq!(apply_replacements("a Cat, a CAT", &upper), "a dog, a dog");
    assert_eq!(apply_replacements("a Cat, a CAT", &mixed), "a dog, a dog");
}

#[test]
fn words_are_bounded_by_anything_but_letters_and_digits() {
    let r = [rule("cat", "dog")];
    assert_eq!(apply_replacements("cat cat_cat 2cat cat2", &r), "dog dog_dog 2cat cat2");
    assert_eq!(apply_replacements("bobcat concatenate", &r), "bobcat concatenate");
    assert_eq!(apply_replacements("\u{201c}cat\u{201d}\u{2014}cat", &r), "\u{201c}dog\u{201d}\u{2014}dog");
}

#[test]
fn letters_of_other_alphabets_bound_no_word() {
    assert_eq!(apply_replacements("caf\u{e9}", &[rule("caf", "bar")]), "caf\u{e9}");
    assert_eq!(apply_replacements("\u{e9}cat cat\u{df}", &[rule("cat", "dog")]), "\u{e9}cat cat\u{df}");
    assert_eq!(apply_replacements("caf\u{e9}x", &[rule("\u{e9}", "e")]), "caf\u{e9}x");
    assert_eq!(apply_replacements("caf \u{e9} x", &[rule("\u{e9}", "e")]), "caf e x");
}

#[test]
fn word_characters_are_letters_and_digits() {
    assert!(is_word_byte(b'z') && is_word_byte(b'A') && is_word_byte(b'0'));
    assert!(!is_word_byte(b'_') && !is_word_byte(b' ') && !is_word_byte(0xc3));
    for b in 0..=255u8 {
        assert_eq!(is_word_byte(b), b.is_ascii_alphanumeric());
    }
    for c in '\u{0}'..='\u{10ffff}' {
        assert_eq!(is_word_char(c), c.is_alphanumeric());
    }
    assert!(is_word_char('\u{e9}') && !is_word_char('\u{2014}'));
}

#[test]
fn overlapping_partial_matches_are_stepped_over() {
    assert_eq!(replace_whole_word_ci("aaa aa", "aa", "b"), "aaa b");
    assert_eq!(replace_whole_word_ci("a a a", "a a", "x"), "x a");
}

#[test]
fn replacements_may_be_longer_shorter_or_empty() {
    assert_eq!(replace_whole_word_ci("um so um yes", "um", ""), " so  yes");
    assert_eq!(replace_whole_word_ci("k", "k", "kubernetes \u{2603}"), "kubernetes \u{2603}");
}

#[test]
fn other_alphabets_are_lowered_too() {
    assert_eq!(replace_whole_word_ci("\u{c9}T\u{c9} 1", "\u{e9}t\u{e9}", "summer"), "summer 1");
    assert_eq!(replace_whole_word_ci("na\u{ef}ve caf\u{e9}", "CAF\u{c9}", "bar"), "na\u{ef}ve bar");
}

#[test]
fn a_match_is_replaced_where_it_stands_though_lowering_changes_lengths() {
    // The lowered text is longer than the text here, and shorter there.
    let r = [rule("github", "GitHub")];
    assert_eq!(apply_replacements("\u{130} github x", &r), "\u{130} GitHub x");
    assert_eq!(apply_replacements("\u{130} github", &r), "\u{130} GitHub");
    let r = [rule("cat", "dog")];
    assert_eq!(apply_replacements("\u{212a}\u{212a} cat", &r), "\u{212a}\u{212a} dog");
    assert_eq!(apply_replacements("\u{130}\u{130}a", &[rule("a", "b")]), "\u{130}\u{130}a");
}

#[test]
fn one_letter_may_match_two_and_the_other_way_round() {
    assert_eq!(replace_whole_word_ci("5 \u{212a}", "k", "kelvin"), "5 kelvin");
    assert_eq!(replace_whole_word_ci("a \u{130} b", "i\u{307}", "x"), "a x b");
    assert_eq!(replace_whole_word_ci("a i\u{307} b", "\u{130}", "x"), "a x b");
}

#[test]
fn a_final_sigma_matches_its_capital() {
    let heard = "\u{39f}\u{394}\u{39f}\u{3a3} 1";
    assert_eq!(replace_whole_word_ci(heard, "\u{3bf}\u{3b4}\u{3bf}\u{3c2}", "road"), "road 1");
    // Behind an apostrophe a capital sigma ends a word, though it stands by itself.
    assert_eq!(replace_whole_word_ci("\u{391}'\u{3a3}", "\u{3c2}", "x"), "\u{391}'x");
    assert_eq!(replace_whole_word_ci("\u{391}'\u{3a3}", "\u{3c3}", "x"), "\u{391}'\u{3a3}");
    assert_eq!(lowered_chars("\u{391}\u{3a3} Ab"), vec!['\u{3b1}', '\u{3c2}', ' ', 'a', 'b']);
}

#[test]
fn the_two_small_sigmas_are_two_letters() {
    assert_eq!(replace_whole_word_ci("\u{3c2}", "\u{3c3}", "x"), "\u{3c2}");
    assert_eq!(replace_whole_word_ci("\u{3c3}", "\u{3c2}", "x"), "\u{3c3}");
    assert_eq!(replace_whole_word_ci("\u{3a3}", "\u{3c3}", "x"), "x");
}

#[test]
fn correcting_the_case_twice_is_correcting_it_once() {
    let r = [rule("github", "GitHub")];
    let once = apply_replacements("GITHUB, github and githubs", &r);
    assert_eq!(once, "GitHub, GitHub and githubs");
    assert_eq!(apply_replacements(&once, &r), once);
}

#[test]
fn part_of_what_a_letter_lowers_to_is_no_match() {
    assert_eq!(replace_whole_word_ci("\u{130} i", "i", "x"), "\u{130} x");
}

#[test]
fn only_lowered_words_are_matched_as_they_are() {
    assert_eq!(replace_words("One two ONE", &['o', 'n', 'e'], "1"), "1 two 1");
    assert_eq!(replace_words("One two ONE", &['O', 'n', 'e'], "1"), "One two ONE");
    assert_eq!(replace_words("", &['o', 'n', 'e'], "1"), "");
    assert_eq!(replace_words("abc", &[], "x"), "abc");
}
