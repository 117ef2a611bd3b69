//! Whole words in a text, found whatever their case, and what becomes of the text when they are
//! replaced.
use vstd::prelude::*;
use vstd::utf8::is_ascii_chars;

verus! {

/// What `str::to_lowercase` makes of a text that is not all ASCII.
pub uninterp spec fn unicode_lowercase(text: Seq<char>) -> Seq<char>;

/// What `char::is_alphanumeric` says of a character that is not ASCII.
pub uninterp spec fn unicode_alphanumeric(c: char) -> bool;

/// `A` to `Z` become `a` to `z`; every other character stays.
pub open spec fn ascii_lower(c: char) -> char {
    if 'A' <= c <= 'Z' {
        ((c as u32) + 32) as char
    } else {
        c
    }
}

/// The lowercase form in which texts and rules are compared.
pub open spec fn lowercase(text: Seq<char>) -> Seq<char> {
    if is_ascii_chars(text) {
        text.map_values(|c: char| ascii_lower(c))
    } else {
        unicode_lowercase(text)
    }
}

/// Calls `str::to_lowercase`.
///
/// Of an ASCII text the result is known: the letters are lowered one by one. Of any other text it
/// is whatever the Unicode tables say, and only has a name here; in particular nothing is said of
/// its length, which is not always that of the text.
#[verifier::external_body]
fn to_lowercase(text: &str) -> (r: String)
    ensures
        is_ascii_chars(text@) ==> r@ == text@.map_values(|c: char| ascii_lower(c)),
        !is_ascii_chars(text@) ==> r@ == unicode_lowercase(text@),
{
    text.to_lowercase()
}

/// Calls `char::is_alphanumeric`.
///
/// Which characters beyond ASCII are letters or digits is up to the Unicode tables, so the answer
/// only has a name here.
#[verifier::external_body]
fn is_alphanumeric(c: char) -> (r: bool)
    requires
        c as u32 >= 0x80,
    ensures
        r == unicode_alphanumeric(c),
{
    c.is_alphanumeric()
}

/// ASCII letters and digits.
pub open spec fn word_byte(b: u8) -> bool {
    0x30 <= b <= 0x39 || 0x41 <= b <= 0x5a || 0x61 <= b <= 0x7a
}

pub fn is_word_byte(b: u8) -> (r: bool)
    ensures
        r == word_byte(b),
{
    (0x30 <= b && b <= 0x39) || (0x41 <= b && b <= 0x5a) || (0x61 <= b && b <= 0x7a)
}

/// Letters and digits: what a word is made of.
pub open spec fn word_char(c: char) -> bool {
    if (c as u32) < 0x80 {
        word_byte(c as u8)
    } else {
        unicode_alphanumeric(c)
    }
}

pub fn is_word_char(c: char) -> (r: bool)
    ensures
        r == word_char(c),
{
    let v: u32 = c as u32;
    if v < 0x80 {
        is_word_byte(v as u8)
    } else {
        is_alphanumeric(c)
    }
}

/// How many characters the first `k` characters of `text` lower to.
pub open spec fn lowered_len(text: Seq<char>, k: int) -> nat
    decreases k,
{
    if k <= 0 {
        0
    } else {
        lowered_len(text, k - 1) + lowercase(seq![text[k - 1]]).len()
    }
}

/// Where the character number `k` of `text` is found in the lowered text. The end of the one is at
/// the end of the other.
pub open spec fn lowered_at(text: Seq<char>, k: int) -> int {
    if k >= text.len() {
        lowercase(text).len() as int
    } else {
        lowered_len(text, k) as int
    }
}

/// `needle` is found in `text` at `at`.
pub open spec fn occurs_at(text: Seq<char>, needle: Seq<char>, at: int) -> bool {
    0 <= at && at + needle.len() <= text.len() && text.subrange(at, at + needle.len()) == needle
}

/// `needle` is what `text[start..end]` reads in the lowered text.
pub open spec fn is_match(text: Seq<char>, needle: Seq<char>, start: int, end: int) -> bool {
    &&& 0 <= start < end <= text.len()
    &&& occurs_at(lowercase(text), needle, lowered_at(text, start))
    &&& lowered_at(text, end) == lowered_at(text, start) + needle.len()
}

/// `text[start..end]` is bounded by something other than letters and digits, or by the ends of the
/// text, on both sides.
pub open spec fn stands_alone(text: Seq<char>, start: int, end: int) -> bool {
    &&& start == 0 || !word_char(text[start - 1])
    &&& end == text.len() || !word_char(text[end])
}

/// `needle` matches a whole word, or several, and no part of a larger one.
pub open spec fn is_word_match(text: Seq<char>, needle: Seq<char>, start: int, end: int) -> bool {
    is_match(text, needle, start, end) && stands_alone(text, start, end)
}

/// Where the whole-word match that begins at `start` ends, looking back from `end`.
pub open spec fn match_end(text: Seq<char>, needle: Seq<char>, start: int, end: int) -> Option<int>
    decreases end - start,
{
    if end <= start {
        None
    } else if is_word_match(text, needle, start, end) {
        Some(end)
    } else {
        match_end(text, needle, start, end - 1)
    }
}

/// `text[at..]` with `to` in the place of every whole word that `needle` matches, from left to
/// right.
pub open spec fn replaced(text: Seq<char>, needle: Seq<char>, to: Seq<char>, at: int) -> Seq<char>
    decreases text.len() - at,
{
    if at >= text.len() {
        Seq::empty()
    } else {
        match match_end(text, needle, at, text.len() as int) {
            Some(end) => {
                proof {
                    law_longest_match_is_found(text, needle, at, text.len() as int);
                }
                to + replaced(text, needle, to, end)
            },
            None => seq![text[at]] + replaced(text, needle, to, at + 1),
        }
    }
}

/// A whole-word match is found where there is one, and the longest of those there are.
pub proof fn law_longest_match_is_found(text: Seq<char>, needle: Seq<char>, start: int, end: int)
    ensures
        match match_end(text, needle, start, end) {
            Some(found) => {
                &&& start < found <= end
                &&& is_word_match(text, needle, start, found)
                &&& forall|e: int| found < e <= end ==> !is_word_match(text, needle, start, e)
            },
            None => forall|e: int| start < e <= end ==> !is_word_match(text, needle, start, e),
        },
    decreases end - start,
{
    if end > start {
        law_longest_match_is_found(text, needle, start, end - 1);
    }
}

/// The characters of `text`, one by one.
fn chars_of(text: &str) -> (r: Vec<char>)
    ensures
        r@ == text@,
{
    let mut out: Vec<char> = Vec::new();
    for c in it: text.chars()
        invariant
            it.seq() == text@,
            out@ == text@.take(it.index()),
    {
        assert(text@.take(it.index() + 1) =~= text@.take(it.index()).push(c));
        out.push(c);
    }
    assert(text@.take(text@.len() as int) =~= text@);
    out
}

/// The characters of `text` in lowercase.
pub fn lowered_chars(text: &str) -> (r: Vec<char>)
    ensures
        r@ == lowercase(text@),
{
    chars_of(to_lowercase(text).as_str())
}

/// An ASCII character lowers to one character.
proof fn lemma_ascii_width(c: char)
    requires
        (c as u32) < 0x80,
    ensures
        lowercase(seq![c]).len() == 1,
{
    assert(is_ascii_chars(seq![c]));
}

/// How many characters the character number `k` of `text` lowers to by itself.
fn width(text: &str, chars: &[char], k: usize) -> (r: usize)
    requires
        chars@ == text@,
        k < chars.len(),
    ensures
        r == lowercase(seq![text@[k as int]]).len(),
{
    let c: char = chars[k];
    if (c as u32) < 0x80 {
        proof {
            lemma_ascii_width(c);
        }
        1
    } else {
        assert(text@.subrange(k as int, k + 1) =~= seq![text@[k as int]]);
        to_lowercase(text.substring_char(k, k + 1)).as_str().unicode_len()
    }
}

/// Where each character of `text` is found in the lowered text, and where its end is.
fn positions(text: &str, chars: &[char], lowered: &[char]) -> (r: Vec<u128>)
    requires
        chars@ == text@,
        lowered@ == lowercase(text@),
    ensures
        r@.len() == text@.len() + 1,
        forall|k: int| 0 <= k <= text@.len() ==> #[trigger] r@[k] == lowered_at(text@, k),
{
    let mut out: Vec<u128> = Vec::new();
    let mut at: u128 = 0;
    let mut k: usize = 0;
    while k < chars.len()
        invariant
            chars@ == text@,
            k <= chars.len(),
            out@.len() == k,
            at == lowered_len(text@, k as int),
            at <= k * 0xffff_ffff_ffff_ffff,
            forall|j: int| 0 <= j < k ==> #[trigger] out@[j] == lowered_at(text@, j),
        decreases chars.len() - k,
    {
        out.push(at);
        let w: usize = width(text, chars, k);
        at = at + w as u128;
        k += 1;
    }
    out.push(lowered.len() as u128);
    out
}

/// Whether `needle` is found in `text` at `at`.
fn found_at(text: &[char], needle: &[char], at: u128) -> (r: bool)
    ensures
        r == occurs_at(text@, needle@, at as int),
{
    if at > text.len() as u128 || needle.len() > text.len() - at as usize {
        return false;
    }
    let start: usize = at as usize;
    let mut i: usize = 0;
    while i < needle.len()
        invariant
            i <= needle.len(),
            start == at,
            start + needle.len() <= text.len(),
            forall|j: int| 0 <= j < i ==> text[start + j] == #[trigger] needle[j],
        decreases needle.len() - i,
    {
        if text[start + i] != needle[i] {
            assert(text@.subrange(start as int, start + needle.len())[i as int] == text[start
                + i]);
            return false;
        }
        i += 1;
    }
    assert(text@.subrange(start as int, start + needle.len()) =~= needle@);
    true
}

/// Where the whole-word match that begins at `start` ends.
fn find_end(
    chars: &[char],
    lowered: &[char],
    places: &[u128],
    needle: &[char],
    start: usize,
) -> (r: Option<usize>)
    requires
        lowered@ == lowercase(chars@),
        places@.len() == chars@.len() + 1,
        forall|k: int| 0 <= k <= chars@.len() ==> #[trigger] places@[k] == lowered_at(chars@, k),
        start < chars.len(),
    ensures
        match_end(chars@, needle@, start as int, chars@.len() as int) == match r {
            Some(end) => Some(end as int),
            None => None,
        },
{
    let len: usize = chars.len();
    proof {
        law_longest_match_is_found(chars@, needle@, start as int, len as int);
    }
    if start > 0 && is_word_char(chars[start - 1]) {
        return None;
    }
    if !found_at(lowered, needle, places[start]) {
        return None;
    }
    assert(places[start as int] + needle@.len() <= lowered.len());
    let stop: u128 = places[start] + needle.len() as u128;
    let mut end: usize = len;
    while end > start
        invariant
            len == chars.len(),
            start <= end <= len,
            places@.len() == chars@.len() + 1,
            forall|k: int|
                0 <= k <= chars@.len() ==> #[trigger] places@[k] == lowered_at(chars@, k),
            occurs_at(lowercase(chars@), needle@, lowered_at(chars@, start as int)),
            stop == lowered_at(chars@, start as int) + needle@.len(),
            start == 0 || !word_char(chars[start - 1]),
            match_end(chars@, needle@, start as int, len as int) == match_end(
                chars@,
                needle@,
                start as int,
                end as int,
            ),
        decreases end,
    {
        if places[end] == stop && (end == len || !is_word_char(chars[end])) {
            return Some(end);
        }
        end -= 1;
    }
    None
}

/// Writes `to` in the place of every whole word of `text` that `needle`, which is lowered already,
/// matches.
pub fn replace_words(text: &str, needle: &[char], to: &str) -> (r: String)
    ensures
        r@ == replaced(text@, needle@, to@, 0),
{
    let chars = chars_of(text);
    let lowered = lowered_chars(text);
    let places = positions(text, chars.as_slice(), lowered.as_slice());
    let len: usize = chars.len();
    let mut out = String::new();
    let mut kept: usize = 0;
    let mut at: usize = 0;
    assert(out@ + text@.subrange(0, 0) + replaced(text@, needle@, to@, 0) =~= replaced(
        text@,
        needle@,
        to@,
        0,
    ));
    while at < len
        invariant
            chars@ == text@,
            len == chars.len(),
            lowered@ == lowercase(chars@),
            places@.len() == chars@.len() + 1,
            forall|k: int|
                0 <= k <= chars@.len() ==> #[trigger] places@[k] == lowered_at(chars@, k),
            kept <= at <= len,
            out@ + text@.subrange(kept as int, at as int) + replaced(text@, needle@, to@, at as int)
                == replaced(text@, needle@, to@, 0),
        decreases len - at,
    {
        let found = find_end(
            chars.as_slice(),
            lowered.as_slice(),
            places.as_slice(),
            needle,
            at,
        );
        proof {
            law_longest_match_is_found(text@, needle@, at as int, len as int);
        }
        match found {
            Some(end) => {
                let ghost before = out@;
                out.append(text.substring_char(kept, at));
                out.append(to);
                proof {
                    let rest = replaced(text@, needle@, to@, end as int);
                    assert(out@ + text@.subrange(end as int, end as int) + rest =~= before
                        + text@.subrange(kept as int, at as int) + (to@ + rest));
                }
                kept = end;
                at = end;
            },
            None => {
                proof {
                    let rest = replaced(text@, needle@, to@, at + 1);
                    assert(out@ + text@.subrange(kept as int, at + 1) + rest =~= out@
                        + text@.subrange(kept as int, at as int) + (seq![text@[at as int]] + rest));
                }
                at += 1;
            },
        }
    }
    out.append(text.substring_char(kept, len));
    assert(out@ + Seq::<char>::empty() =~= out@);
    out
}

/// What lies in front of the first whole-word match is kept, `to` stands in the place of the match
/// letter for letter, and the search goes on behind it.
pub proof fn law_first_word_is_replaced(
    text: Seq<char>,
    needle: Seq<char>,
    to: Seq<char>,
    at: int,
    start: int,
)
    requires
        0 <= at <= start < text.len(),
        forall|s: int, e: int| at <= s < start ==> !is_word_match(text, needle, s, e),
        match_end(text, needle, start, text.len() as int) is Some,
    ensures
        replaced(text, needle, to, at) == text.subrange(at, start) + to + replaced(
            text,
            needle,
            to,
            match_end(text, needle, start, text.len() as int)->0,
        ),
    decreases start - at,
{
    let end = match_end(text, needle, start, text.len() as int)->0;
    let rest = replaced(text, needle, to, end);
    if at == start {
        assert(text.subrange(at, start) + to + rest =~= to + rest);
    } else {
        law_longest_match_is_found(text, needle, at, text.len() as int);
        law_first_word_is_replaced(text, needle, to, at + 1, start);
        assert(seq![text[at]] + (text.subrange(at + 1, start) + to + rest) =~= text.subrange(
            at,
            start,
        ) + to + rest);
    }
}

/// Where no whole word matches any more, the rest of the text stays as it is.
pub proof fn law_rest_without_match_stays(
    text: Seq<char>,
    needle: Seq<char>,
    to: Seq<char>,
    at: int,
)
    requires
        0 <= at <= text.len(),
        forall|s: int, e: int| at <= s ==> !is_word_match(text, needle, s, e),
    ensures
        replaced(text, needle, to, at) == text.subrange(at, text.len() as int),
    decreases text.len() - at,
{
    if at < text.len() {
        law_longest_match_is_found(text, needle, at, text.len() as int);
        law_rest_without_match_stays(text, needle, to, at + 1);
        assert(seq![text[at]] + text.subrange(at + 1, text.len() as int) =~= text.subrange(
            at,
            text.len() as int,
        ));
    }
}

/// In a text with one whole-word match that match is replaced and nothing else is touched.
pub proof fn law_only_the_word_is_replaced(
    text: Seq<char>,
    needle: Seq<char>,
    to: Seq<char>,
    start: int,
    end: int,
)
    requires
        is_word_match(text, needle, start, end),
        forall|s: int, e: int|
            #[trigger] is_word_match(text, needle, s, e) ==> s == start && e == end,
    ensures
        replaced(text, needle, to, 0) == text.subrange(0, start) + to + text.subrange(
            end,
            text.len() as int,
        ),
{
    law_longest_match_is_found(text, needle, start, text.len() as int);
    law_first_word_is_replaced(text, needle, to, 0, start);
    law_rest_without_match_stays(text, needle, to, end);
}

/// An ASCII text lowers character by character.
proof fn lemma_ascii_places(text: Seq<char>, k: int)
    requires
        is_ascii_chars(text),
        0 <= k <= text.len(),
    ensures
        lowered_len(text, k) == k,
        lowered_at(text, k) == k,
        lowercase(text).len() == text.len(),
    decreases k,
{
    if k > 0 {
        lemma_ascii_places(text, k - 1);
        lemma_ascii_width(text[k - 1]);
    }
}

/// In an ASCII text a match is a piece of it that is the rule but for its case, and has as many
/// characters.
pub proof fn law_ascii_match_is_the_word(
    text: Seq<char>,
    needle: Seq<char>,
    start: int,
    end: int,
)
    requires
        is_ascii_chars(text),
        0 <= start < end <= text.len(),
    ensures
        is_match(text, needle, start, end) <==> lowercase(text.subrange(start, end)) == needle,
        is_match(text, needle, start, end) ==> end == start + needle.len(),
{
    lemma_ascii_places(text, start);
    lemma_ascii_places(text, end);
    let piece = text.subrange(start, end);
    assert(is_ascii_chars(piece));
    assert(lowercase(piece) =~= lowercase(text).subrange(start, end));
}

/// Lowering a letter leaves it a letter, and nothing else becomes one.
proof fn lemma_case_of_word_chars(c: char)
    requires
        (c as u32) < 0x80,
    ensures
        word_char(ascii_lower(c)) == word_char(c),
{
}

/// Matching ignores the case of the text: two ASCII texts that differ in nothing but case have
/// their whole-word matches in the same places.
pub proof fn law_text_case_is_ignored(
    a: Seq<char>,
    b: Seq<char>,
    needle: Seq<char>,
    start: int,
    end: int,
)
    requires
        is_ascii_chars(a),
        is_ascii_chars(b),
        lowercase(a) == lowercase(b),
    ensures
        is_word_match(a, needle, start, end) == is_word_match(b, needle, start, end),
{
    assert(a.len() == lowercase(a).len() && b.len() == lowercase(b).len());
    assert forall|i: int| 0 <= i < a.len() implies #[trigger] word_char(a[i]) == word_char(
        b[i],
    ) by {
        assert(lowercase(a)[i] == ascii_lower(a[i]) && lowercase(b)[i] == ascii_lower(b[i]));
        lemma_case_of_word_chars(a[i]);
        lemma_case_of_word_chars(b[i]);
    }
    if 0 <= start < end <= a.len() {
        lemma_ascii_places(a, start);
        lemma_ascii_places(a, end);
        lemma_ascii_places(b, start);
        lemma_ascii_places(b, end);
    }
}

/// In an ASCII text a rule that is made of letters and digits matches nothing but whole runs of
/// letters and digits.
pub proof fn law_words_are_runs(text: Seq<char>, needle: Seq<char>, start: int, end: int)
    requires
        is_ascii_chars(text),
        forall|i: int| 0 <= i < needle.len() ==> word_char(#[trigger] needle[i]),
        is_word_match(text, needle, start, end),
    ensures
        forall|i: int| start <= i < end ==> word_char(#[trigger] text[i]),
        start == 0 || !word_char(text[start - 1]),
        end == text.len() || !word_char(text[end]),
{
    law_ascii_match_is_the_word(text, needle, start, end);
    let piece = text.subrange(start, end);
    assert forall|i: int| start <= i < end implies word_char(#[trigger] text[i]) by {
        assert(is_ascii_chars(piece));
        assert(piece[i - start] == text[i]);
        assert(lowercase(piece)[i - start] == ascii_lower(text[i]));
        assert(word_char(needle[i - start]));
        lemma_case_of_word_chars(text[i]);
    }
}

/// A replacement that only corrects the case leaves the text the same but for its case.
proof fn lemma_correction_keeps_letters(
    text: Seq<char>,
    needle: Seq<char>,
    to: Seq<char>,
    at: int,
)
    requires
        is_ascii_chars(text),
        is_ascii_chars(to),
        lowercase(to) == needle,
        0 <= at <= text.len(),
    ensures
        is_ascii_chars(replaced(text, needle, to, at)),
        lowercase(replaced(text, needle, to, at)) == lowercase(text).subrange(
            at,
            text.len() as int,
        ),
    decreases text.len() - at,
{
    let len = text.len() as int;
    let whole = lowercase(text).subrange(at, len);
    if at < len {
        law_longest_match_is_found(text, needle, at, len);
        match match_end(text, needle, at, len) {
            Some(end) => {
                lemma_correction_keeps_letters(text, needle, to, end);
                law_ascii_match_is_the_word(text, needle, at, end);
                lemma_ascii_places(text, at);
                let rest = replaced(text, needle, to, end);
                assert(is_ascii_chars(to + rest));
                assert(lowercase(to + rest) =~= lowercase(to) + lowercase(rest));
                assert(needle =~= lowercase(text).subrange(at, end));
                assert(lowercase(to) + lowercase(rest) =~= whole);
            },
            None => {
                lemma_correction_keeps_letters(text, needle, to, at + 1);
                let rest = replaced(text, needle, to, at + 1);
                assert(is_ascii_chars(seq![text[at]] + rest));
                assert(lowercase(seq![text[at]] + rest) =~= seq![ascii_lower(text[at])]
                    + lowercase(rest));
                assert(seq![ascii_lower(text[at])] + lowercase(rest) =~= whole);
            },
        }
    } else {
        assert(lowercase(replaced(text, needle, to, at)) =~= whole);
    }
}

/// A text that reads from `at` on what a correction of `text` gives there is not corrected further.
proof fn lemma_corrected_stays(
    text: Seq<char>,
    again: Seq<char>,
    needle: Seq<char>,
    to: Seq<char>,
    at: int,
)
    requires
        is_ascii_chars(text),
        is_ascii_chars(again),
        lowercase(again) == lowercase(text),
        is_ascii_chars(to),
        lowercase(to) == needle,
        0 <= at <= text.len(),
        again.subrange(at, again.len() as int) == replaced(text, needle, to, at),
    ensures
        replaced(again, needle, to, at) == replaced(text, needle, to, at),
    decreases text.len() - at,
{
    let len = text.len() as int;
    assert(again.len() == lowercase(again).len() && text.len() == lowercase(text).len());
    if at < len {
        law_longest_match_is_found(text, needle, at, len);
        law_longest_match_is_found(again, needle, at, len);
        assert forall|e: int|
            #![trigger is_word_match(again, needle, at, e)]
            #![trigger is_word_match(text, needle, at, e)]
            is_word_match(again, needle, at, e) == is_word_match(text, needle, at, e) by {
            law_text_case_is_ignored(again, text, needle, at, e);
        }
        assert(again.len() == len);
        let tail = again.subrange(at, len);
        assert(tail == replaced(text, needle, to, at));
        match match_end(text, needle, at, len) {
            Some(end) => {
                law_ascii_match_is_the_word(text, needle, at, end);
                assert(match_end(again, needle, at, len) == Some(end));
                assert(again.subrange(end, len) =~= tail.subrange(end - at, len - at));
                let rest = replaced(text, needle, to, end);
                assert(tail == to + rest);
                assert(lowercase(to).len() == to.len());
                assert(tail.subrange(end - at, len - at) =~= rest);
                lemma_corrected_stays(text, again, needle, to, end);
            },
            None => {
                assert(match_end(again, needle, at, len) is None);
                let rest = replaced(text, needle, to, at + 1);
                assert(tail == seq![text[at]] + rest);
                assert(tail[0] == text[at]);
                assert(again.subrange(at + 1, len) =~= tail.subrange(1, len - at));
                assert(tail.subrange(1, len - at) =~= rest);
                lemma_corrected_stays(text, again, needle, to, at + 1);
            },
        }
    }
}

/// Correcting the case of an ASCII word twice is correcting it once.
pub proof fn law_correction_is_final(text: Seq<char>, needle: Seq<char>, to: Seq<char>)
    requires
        is_ascii_chars(text),
        is_ascii_chars(to),
        lowercase(to) == needle,
    ensures
        replaced(replaced(text, needle, to, 0), needle, to, 0) == replaced(text, needle, to, 0),
{
    let again = replaced(text, needle, to, 0);
    lemma_correction_keeps_letters(text, needle, to, 0);
    assert(lowercase(text).subrange(0, text.len() as int) =~= lowercase(text));
    assert(again.subrange(0, again.len() as int) =~= again);
    lemma_corrected_stays(text, again, needle, to, 0);
}

/// Lowering is done letter by letter in ASCII, and by the Unicode tables in any other text.
pub proof fn law_lowercase(text: Seq<char>)
    ensures
        is_ascii_chars(text) ==> {
            &&& lowercase(text).len() == text.len()
            &&& forall|i: int|
                0 <= i < text.len() ==> (#[trigger] lowercase(text)[i]) as int == text[i] as int
                    + if 0x41 <= text[i] as int <= 0x5a {
                    0x20int
                } else {
                    0
                }
        },
        !is_ascii_chars(text) ==> lowercase(text) == unicode_lowercase(text),
{
    if is_ascii_chars(text) {
        assert forall|i: int| 0 <= i < text.len() implies (#[trigger] lowercase(text)[i]) as int
            == text[i] as int + if 0x41 <= text[i] as int <= 0x5a {
            0x20int
        } else {
            0
        } by {
            assert(lowercase(text)[i] == ascii_lower(text[i]));
        }
    }
}

/// Words are made of the ASCII letters and digits, and of what the Unicode tables call so.
pub proof fn law_word_characters(c: char)
    ensures
        word_char(c) <==> (0x30 <= c as int <= 0x39) || (0x41 <= c as int <= 0x5a) || (0x61
            <= c as int <= 0x7a) || (c as int >= 0x80 && unicode_alphanumeric(c)),
{
}

/// Characters lie one behind the other in the lowered text, each as wide as what it lowers to, and
/// the end of the text lies at the end of it.
pub proof fn law_lowered_positions(text: Seq<char>, k: int)
    requires
        0 <= k < text.len(),
    ensures
        lowered_at(text, 0) == 0,
        k + 1 < text.len() ==> lowered_at(text, k + 1) == lowered_at(text, k) + lowercase(
            seq![text[k]],
        ).len(),
        lowered_at(text, text.len() as int) == lowercase(text).len(),
{
}

/// What a whole-word match is: the rule stands in the lowered text where the piece does, and the
/// characters next to the piece, if there are any, are neither letters nor digits. Nothing else is
/// asked of them.
pub proof fn law_bounded_occurrences_match(
    text: Seq<char>,
    needle: Seq<char>,
    start: int,
    end: int,
)
    requires
        0 <= start < end <= text.len(),
    ensures
        is_word_match(text, needle, start, end) <==> {
            &&& 0 <= lowered_at(text, start)
            &&& lowered_at(text, start) + needle.len() == lowered_at(text, end)
            &&& lowered_at(text, end) <= lowercase(text).len()
            &&& forall|i: int|
                0 <= i < needle.len() ==> lowercase(text)[lowered_at(text, start) + i]
                    == #[trigger] needle[i]
            &&& start > 0 ==> !word_char(text[start - 1])
            &&& end < text.len() ==> !word_char(text[end])
        },
{
    let at = lowered_at(text, start);
    let low = lowercase(text);
    if 0 <= at && at + needle.len() <= low.len() {
        let piece = low.subrange(at, at + needle.len());
        if piece == needle {
            assert forall|i: int| 0 <= i < needle.len() implies low[at + i]
                == #[trigger] needle[i] by {
                assert(piece[i] == low[at + i]);
            }
        }
        if forall|i: int| 0 <= i < needle.len() ==> low[at + i] == #[trigger] needle[i] {
            assert(piece =~= needle);
        }
    }
}

/// In an ASCII text every piece that is the rule but for its case, and has neither letter nor digit
/// next to it on either side, is a whole-word match, and there is no other.
pub proof fn law_bounded_words_match(
    text: Seq<char>,
    needle: Seq<char>,
    start: int,
    end: int,
)
    requires
        is_ascii_chars(text),
        0 <= start < end <= text.len(),
    ensures
        is_word_match(text, needle, start, end) <==> {
            &&& lowercase(text.subrange(start, end)) == needle
            &&& start > 0 ==> !word_char(text[start - 1])
            &&& end < text.len() ==> !word_char(text[end])
        },
{
    law_ascii_match_is_the_word(text, needle, start, end);
}

/// A word in lowercase is a word.
pub proof fn lemma_lowered_word(word: Seq<char>)
    requires
        is_ascii_chars(word),
        forall|i: int| 0 <= i < word.len() ==> word_char(#[trigger] word[i]),
    ensures
        lowercase(word).len() == word.len(),
        forall|i: int| 0 <= i < word.len() ==> word_char(#[trigger] lowercase(word)[i]),
{
    assert forall|i: int| 0 <= i < word.len() implies word_char(
        #[trigger] lowercase(word)[i],
    ) by {
        assert(word_char(word[i]));
        lemma_case_of_word_chars(word[i]);
    }
}

/// Where no match begins, the text is copied.
proof fn lemma_copy(text: Seq<char>, needle: Seq<char>, to: Seq<char>, at: int, stop: int)
    requires
        0 <= at <= stop <= text.len(),
        forall|s: int, e: int| at <= s < stop ==> !is_word_match(text, needle, s, e),
    ensures
        replaced(text, needle, to, at) == text.subrange(at, stop) + replaced(
            text,
            needle,
            to,
            stop,
        ),
    decreases stop - at,
{
    let rest = replaced(text, needle, to, stop);
    if at < stop {
        law_longest_match_is_found(text, needle, at, text.len() as int);
        lemma_copy(text, needle, to, at + 1, stop);
        assert(seq![text[at]] + (text.subrange(at + 1, stop) + rest) =~= text.subrange(at, stop)
            + rest);
    } else {
        assert(text.subrange(at, stop) + rest =~= rest);
    }
}

/// Behind `head` an ASCII text has the matches that `tail` has by itself, if nothing depends on the
/// character in front of it.
proof fn lemma_tail_matches(head: Seq<char>, tail: Seq<char>, needle: Seq<char>, s: int, e: int)
    requires
        is_ascii_chars(head + tail),
        head.len() > 0,
        needle.len() > 0,
        forall|i: int| 0 <= i < needle.len() ==> word_char(#[trigger] needle[i]),
        !word_char(head.last()) || tail.len() == 0 || !word_char(tail[0]),
        s >= 0,
    ensures
        is_word_match(head + tail, needle, head.len() + s, head.len() + e) == is_word_match(
            tail,
            needle,
            s,
            e,
        ),
{
    let text = head + tail;
    let h = head.len() as int;
    assert(is_ascii_chars(tail)) by {
        assert forall|i: int| 0 <= i < tail.len() implies '\0' <= #[trigger] tail[i]
            <= '\u{7f}' by {
            assert(tail[i] == text[h + i]);
        }
    }
    if 0 <= s < e <= tail.len() {
        law_ascii_match_is_the_word(text, needle, h + s, h + e);
        law_ascii_match_is_the_word(tail, needle, s, e);
        assert(text.subrange(h + s, h + e) =~= tail.subrange(s, e));
        if s > 0 {
            assert(text[h + s - 1] == tail[s - 1]);
        } else {
            assert(text[h - 1] == head.last());
            if is_match(tail, needle, s, e) && !word_char(tail[0]) {
                let piece = tail.subrange(s, e);
                assert(is_ascii_chars(piece));
                assert(lowercase(piece)[0] == ascii_lower(tail[0]));
                assert(word_char(needle[0]));
                lemma_case_of_word_chars(tail[0]);
            }
        }
        if e < tail.len() {
            assert(text[h + e] == tail[e]);
        }
    }
}

/// Behind `head` an ASCII text is replaced as `tail` is by itself.
proof fn lemma_tail_is_replaced(
    head: Seq<char>,
    tail: Seq<char>,
    needle: Seq<char>,
    to: Seq<char>,
    at: int,
)
    requires
        is_ascii_chars(head + tail),
        head.len() > 0,
        needle.len() > 0,
        forall|i: int| 0 <= i < needle.len() ==> word_char(#[trigger] needle[i]),
        !word_char(head.last()) || tail.len() == 0 || !word_char(tail[0]),
        0 <= at <= tail.len(),
    ensures
        replaced(head + tail, needle, to, head.len() + at) == replaced(tail, needle, to, at),
    decreases tail.len() - at,
{
    let text = head + tail;
    let h = head.len() as int;
    if at < tail.len() {
        law_longest_match_is_found(text, needle, h + at, text.len() as int);
        law_longest_match_is_found(tail, needle, at, tail.len() as int);
        assert forall|e: int|
            #![trigger is_word_match(tail, needle, at, e)]
            is_word_match(text, needle, h + at, h + e) == is_word_match(tail, needle, at, e) by {
            lemma_tail_matches(head, tail, needle, at, e);
        }
        assert forall|e: int|
            #![trigger is_word_match(text, needle, h + at, e)]
            is_word_match(text, needle, h + at, e) == is_word_match(tail, needle, at, e - h) by {
            lemma_tail_matches(head, tail, needle, at, e - h);
        }
        match match_end(tail, needle, at, tail.len() as int) {
            Some(end) => {
                assert(is_word_match(text, needle, h + at, h + end));
                assert(match_end(text, needle, h + at, text.len() as int) == Some(h + end));
                lemma_tail_is_replaced(head, tail, needle, to, end);
            },
            None => {
                assert(match_end(text, needle, h + at, text.len() as int) is None);
                lemma_tail_is_replaced(head, tail, needle, to, at + 1);
                assert(text[h + at] == tail[at]);
            },
        }
    }
}

/// A run of letters and digits at the front of an ASCII text is replaced as a whole or not at all.
pub proof fn lemma_run(run: Seq<char>, rest: Seq<char>, needle: Seq<char>, to: Seq<char>)
    requires
        is_ascii_chars(run + rest),
        needle.len() > 0,
        forall|i: int| 0 <= i < needle.len() ==> word_char(#[trigger] needle[i]),
        run.len() > 0,
        forall|i: int| 0 <= i < run.len() ==> word_char(#[trigger] run[i]),
        rest.len() == 0 || !word_char(rest[0]),
    ensures
        lowercase(run) == needle ==> replaced(run + rest, needle, to, 0) == to + replaced(
            rest,
            needle,
            to,
            0,
        ),
        lowercase(run) != needle ==> replaced(run + rest, needle, to, 0) == run + replaced(
            rest,
            needle,
            to,
            0,
        ),
{
    let text = run + rest;
    let r = run.len() as int;
    lemma_tail_is_replaced(run, rest, needle, to, 0);
    assert(text.subrange(0, r) =~= run);
    assert forall|s: int, e: int| 0 <= s < r && is_word_match(text, needle, s, e) implies s == 0
        && e == r && lowercase(run) == needle by {
        law_words_are_runs(text, needle, s, e);
        law_ascii_match_is_the_word(text, needle, s, e);
        if s > 0 {
            assert(text[s - 1] == run[s - 1]);
        }
        if e < r {
            assert(text[e] == run[e]);
        }
        if e > r {
            assert(text[r] == rest[0]);
        }
    }
    law_longest_match_is_found(text, needle, 0, text.len() as int);
    if lowercase(run) == needle {
        law_ascii_match_is_the_word(text, needle, 0, r);
        if r < text.len() {
            assert(text[r] == rest[0]);
        }
        assert(is_word_match(text, needle, 0, r));
    } else {
        lemma_copy(text, needle, to, 0, r);
    }
}

/// A character at the front of an ASCII text that is neither letter nor digit is copied.
pub proof fn lemma_separator(
    separator: char,
    rest: Seq<char>,
    needle: Seq<char>,
    to: Seq<char>,
)
    requires
        is_ascii_chars(seq![separator] + rest),
        needle.len() > 0,
        forall|i: int| 0 <= i < needle.len() ==> word_char(#[trigger] needle[i]),
        !word_char(separator),
    ensures
        replaced(seq![separator] + rest, needle, to, 0) == seq![separator] + replaced(
            rest,
            needle,
            to,
            0,
        ),
{
    let text = seq![separator] + rest;
    lemma_tail_is_replaced(seq![separator], rest, needle, to, 0);
    assert(text[0] == separator);
    assert forall|s: int, e: int| 0 <= s < 1 implies !is_word_match(text, needle, s, e) by {
        if is_word_match(text, needle, s, e) {
            law_words_are_runs(text, needle, s, e);
            assert(word_char(text[0]));
        }
    }
    lemma_copy(text, needle, to, 0, 1);
    assert(text.subrange(0, 1) =~= seq![separator]);
}

} // verus!
