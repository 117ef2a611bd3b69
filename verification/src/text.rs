//! Text for the outside world: the wide strings of the system, numbers in messages, and transcripts
//! without the blanks around them.
use vstd::prelude::*;

verus! {

/// The UTF-16 code units of one character: itself, or a high and a low surrogate.
pub open spec fn utf16_units(c: char) -> Seq<u16> {
    let v = c as int;
    if v < 0x1_0000 {
        seq![v as u16]
    } else {
        seq![
            (0xd800 + (v - 0x1_0000) / 0x400) as u16,
            (0xdc00 + (v - 0x1_0000) % 0x400) as u16,
        ]
    }
}

/// `text` in UTF-16.
pub open spec fn utf16(text: Seq<char>) -> Seq<u16>
    decreases text.len(),
{
    if text.len() == 0 {
        seq![]
    } else {
        utf16(text.drop_last()) + utf16_units(text.last())
    }
}

/// Writes one character behind what is there.
fn push_units(out: &mut Vec<u16>, c: char)
    ensures
        final(out)@ == old(out)@ + utf16_units(c),
{
    let v: u32 = c as u32;
    if v < 0x1_0000 {
        out.push(v as u16);
    } else {
        let rest: u32 = v - 0x1_0000;
        out.push((0xd800 + rest / 0x400) as u16);
        out.push((0xdc00 + rest % 0x400) as u16);
    }
    assert(out@ =~= old(out)@ + utf16_units(c));
}

/// `text` as the system takes it: UTF-16 with a zero behind it.
pub fn to_wide(text: &str) -> (r: Vec<u16>)
    ensures
        r@ == utf16(text@).push(0),
{
    let mut out: Vec<u16> = Vec::new();
    for c in it: text.chars()
        invariant
            it.seq() == text@,
            out@ == utf16(text@.take(it.index())),
    {
        proof {
            let next = text@.take(it.index() + 1);
            assert(next.drop_last() =~= text@.take(it.index()));
            assert(next.last() == c);
        }
        push_units(&mut out, c);
    }
    assert(text@.take(text@.len() as int) =~= text@);
    out.push(0);
    out
}

/// Only characters outside the basic plane end in a low surrogate.
proof fn lemma_units(c: char)
    ensures
        ({
            let v = c as int;
            let units = utf16_units(c);
            if v < 0x1_0000 {
                units.len() == 1 && units[0] == v && !(0xdc00 <= v < 0xe000)
            } else {
                &&& units.len() == 2
                &&& 0xdc00 <= units[1] < 0xe000
                &&& v == 0x1_0000 + (units[0] - 0xd800) * 0x400 + (units[1] - 0xdc00)
            }
        }),
{
}

/// The end of a text in UTF-16 tells its last character, and so its length.
proof fn lemma_last_unit(text: Seq<char>)
    requires
        text.len() > 0,
    ensures
        utf16(text).len() > 0,
        ({
            let units = utf16(text);
            let v = text.last() as int;
            let last = units.last();
            if v < 0x1_0000 {
                last == v && !(0xdc00 <= last < 0xe000) && units.drop_last() == utf16(
                    text.drop_last(),
                )
            } else {
                &&& 0xdc00 <= last < 0xe000
                &&& units.len() >= 2
                &&& v == 0x1_0000 + (units[units.len() - 2] - 0xd800) * 0x400 + (last - 0xdc00)
                &&& units.drop_last().drop_last() == utf16(text.drop_last())
            }
        }),
{
    let front = utf16(text.drop_last());
    let units = utf16(text);
    lemma_units(text.last());
    if (text.last() as int) < 0x1_0000 {
        assert(units.drop_last() =~= front);
    } else {
        assert(units.drop_last().drop_last() =~= front);
    }
}

/// Two texts that look the same to the system are the same.
pub proof fn law_wide_text_is_faithful(a: Seq<char>, b: Seq<char>)
    requires
        utf16(a) == utf16(b),
    ensures
        a == b,
    decreases a.len(),
{
    if a.len() > 0 {
        lemma_last_unit(a);
    }
    if b.len() > 0 {
        lemma_last_unit(b);
    }
    if a.len() > 0 && b.len() > 0 {
        law_wide_text_is_faithful(a.drop_last(), b.drop_last());
        assert(a =~= a.drop_last().push(a.last()));
        assert(b =~= b.drop_last().push(b.last()));
    } else {
        assert(a =~= b);
    }
}

/// The digit `d`.
pub open spec fn digit(d: nat) -> char {
    (0x30 + d) as char
}

/// `n` in decimal, without leading zeros.
pub open spec fn decimal(n: nat) -> Seq<char>
    decreases n,
{
    if n < 10 {
        seq![digit(n)]
    } else {
        decimal(n / 10).push(digit(n % 10))
    }
}

fn digit_text(d: u128) -> (r: &'static str)
    requires
        d < 10,
    ensures
        r@ == seq![digit(d as nat)],
{
    proof {
        reveal_strlit("0");
        reveal_strlit("1");
        reveal_strlit("2");
        reveal_strlit("3");
        reveal_strlit("4");
        reveal_strlit("5");
        reveal_strlit("6");
        reveal_strlit("7");
        reveal_strlit("8");
        reveal_strlit("9");
    }
    let r = match d {
        0 => "0",
        1 => "1",
        2 => "2",
        3 => "3",
        4 => "4",
        5 => "5",
        6 => "6",
        7 => "7",
        8 => "8",
        _ => "9",
    };
    assert(r@ =~= seq![digit(d as nat)]);
    r
}

/// `n` in decimal.
pub fn decimal_text(n: u128) -> (r: String)
    ensures
        r@ == decimal(n as nat),
    decreases n,
{
    if n < 10 {
        digit_text(n).to_string()
    } else {
        let mut out = decimal_text(n / 10);
        out.append(digit_text(n % 10));
        assert(out@ =~= decimal(n as nat));
        out
    }
}

/// The characters with the Unicode property White_Space.
pub open spec fn white_space(c: char) -> bool {
    let v = c as int;
    ||| 0x09 <= v <= 0x0d
    ||| v == 0x20
    ||| v == 0x85
    ||| v == 0xa0
    ||| v == 0x1680
    ||| 0x2000 <= v <= 0x200a
    ||| 0x2028 <= v <= 0x2029
    ||| v == 0x202f
    ||| v == 0x205f
    ||| v == 0x3000
}

/// Whether `c` is a blank of some kind.
pub fn is_white_space(c: char) -> (r: bool)
    ensures
        r == white_space(c),
{
    let v: u32 = c as u32;
    (0x09 <= v && v <= 0x0d) || v == 0x20 || v == 0x85 || v == 0xa0 || v == 0x1680 || (0x2000 <= v
        && v <= 0x200a) || (0x2028 <= v && v <= 0x2029) || v == 0x202f || v == 0x205f || v
        == 0x3000
}

/// `text` without the blanks at its front.
pub open spec fn trimmed_front(text: Seq<char>) -> Seq<char>
    decreases text.len(),
{
    if text.len() > 0 && white_space(text.first()) {
        trimmed_front(text.drop_first())
    } else {
        text
    }
}

/// `text` without the blanks at its back.
pub open spec fn trimmed_back(text: Seq<char>) -> Seq<char>
    decreases text.len(),
{
    if text.len() > 0 && white_space(text.last()) {
        trimmed_back(text.drop_last())
    } else {
        text
    }
}

/// `text` without the blanks around it.
pub open spec fn trimmed(text: Seq<char>) -> Seq<char> {
    trimmed_back(trimmed_front(text))
}

/// Takes the blanks around `text` away.
pub fn trim(text: &str) -> (r: &str)
    ensures
        r@ == trimmed(text@),
{
    let len: usize = text.unicode_len();
    let mut start: usize = 0;
    assert(text@.skip(0) =~= text@);
    while start < len && is_white_space(text.get_char(start))
        invariant
            start <= len,
            len == text@.len(),
            trimmed_front(text@.skip(start as int)) == trimmed_front(text@),
        decreases len - start,
    {
        assert(text@.skip(start as int).drop_first() =~= text@.skip(start + 1));
        start += 1;
    }
    let mut end: usize = len;
    assert(text@.subrange(start as int, end as int) =~= text@.skip(start as int));
    assert(text@.skip(start as int) == trimmed_front(text@));
    while start < end && is_white_space(text.get_char(end - 1))
        invariant
            start <= end <= len,
            len == text@.len(),
            trimmed_back(text@.subrange(start as int, end as int)) == trimmed(text@),
        decreases end - start,
    {
        assert(text@.subrange(start as int, end as int).drop_last() =~= text@.subrange(
            start as int,
            end - 1,
        ));
        end -= 1;
    }
    text.substring_char(start, end)
}

/// Trimming twice is trimming once.
pub proof fn law_trim_is_final(text: Seq<char>)
    ensures
        trimmed(trimmed(text)) == trimmed(text),
        trimmed(text).len() > 0 ==> !white_space(trimmed(text).first()) && !white_space(
            trimmed(text).last(),
        ),
{
    lemma_front_clean(text);
    lemma_back_clean(trimmed_front(text));
}

proof fn lemma_front_clean(text: Seq<char>)
    ensures
        trimmed_front(text).len() > 0 ==> !white_space(trimmed_front(text).first()),
    decreases text.len(),
{
    if text.len() > 0 && white_space(text.first()) {
        lemma_front_clean(text.drop_first());
    }
}

proof fn lemma_back_clean(text: Seq<char>)
    ensures
        trimmed_back(text).len() > 0 ==> !white_space(trimmed_back(text).last()) && trimmed_back(
            text,
        ).first() == text.first(),
    decreases text.len(),
{
    if text.len() > 0 && white_space(text.last()) {
        lemma_back_clean(text.drop_last());
    }
}

/// Blanks around a text go, whatever they are and however many, and the text between them stays to
/// the letter.
pub proof fn law_blanks_around_go(before: Seq<char>, core: Seq<char>, after: Seq<char>)
    requires
        forall|i: int| 0 <= i < before.len() ==> white_space(#[trigger] before[i]),
        forall|i: int| 0 <= i < after.len() ==> white_space(#[trigger] after[i]),
        core.len() > 0 ==> !white_space(core.first()) && !white_space(core.last()),
    ensures
        trimmed(before + core + after) == core,
{
    let text = before + core + after;
    if core.len() > 0 {
        lemma_front_goes(text, before.len() as int);
        let rest = text.skip(before.len() as int);
        assert(rest =~= core + after);
        assert(rest.first() == core.first());
        lemma_back_goes(rest, core.len() as int);
        assert(rest.take(core.len() as int) =~= core);
    } else {
        assert forall|i: int| 0 <= i < text.len() implies white_space(#[trigger] text[i]) by {
            if i < before.len() {
                assert(text[i] == before[i]);
            } else {
                assert(text[i] == after[i - before.len()]);
            }
        }
        lemma_front_goes(text, text.len() as int);
        assert(text.skip(text.len() as int) =~= core);
    }
}

/// Trimming takes nothing but blanks away: what is left is one piece of the text, and all that lay
/// in front of it and behind it is blank.
pub proof fn law_trim_takes_only_blanks(text: Seq<char>) -> (cut: (int, int))
    ensures
        0 <= cut.0 <= cut.1 <= text.len(),
        trimmed(text) == text.subrange(cut.0, cut.1),
        forall|i: int| 0 <= i < cut.0 ==> white_space(#[trigger] text[i]),
        forall|i: int| cut.1 <= i < text.len() ==> white_space(#[trigger] text[i]),
{
    let a = lemma_front_piece(text);
    let front = trimmed_front(text);
    let b = lemma_back_piece(front);
    assert(front.take(b) =~= text.subrange(a, a + b));
    assert forall|i: int| a + b <= i < text.len() implies white_space(#[trigger] text[i]) by {
        assert(front[i - a] == text[i]);
    }
    (a, a + b)
}

proof fn lemma_front_goes(text: Seq<char>, n: int)
    requires
        0 <= n <= text.len(),
        forall|i: int| 0 <= i < n ==> white_space(#[trigger] text[i]),
        n < text.len() ==> !white_space(text[n]),
    ensures
        trimmed_front(text) == text.skip(n),
    decreases n,
{
    if n > 0 {
        let rest = text.drop_first();
        assert forall|i: int| 0 <= i < n - 1 implies white_space(#[trigger] rest[i]) by {
            assert(rest[i] == text[i + 1]);
        }
        lemma_front_goes(rest, n - 1);
        assert(rest.skip(n - 1) =~= text.skip(n));
    } else {
        assert(text.skip(0) =~= text);
    }
}

proof fn lemma_back_goes(text: Seq<char>, n: int)
    requires
        0 < n <= text.len(),
        forall|i: int| n <= i < text.len() ==> white_space(#[trigger] text[i]),
        !white_space(text[n - 1]),
    ensures
        trimmed_back(text) == text.take(n),
    decreases text.len(),
{
    if n < text.len() {
        lemma_back_goes(text.drop_last(), n);
        assert(text.drop_last().take(n) =~= text.take(n));
    } else {
        assert(text.take(n) =~= text);
    }
}

proof fn lemma_front_piece(text: Seq<char>) -> (a: int)
    ensures
        0 <= a <= text.len(),
        trimmed_front(text) == text.skip(a),
        forall|i: int| 0 <= i < a ==> white_space(#[trigger] text[i]),
    decreases text.len(),
{
    if text.len() > 0 && white_space(text.first()) {
        let rest = text.drop_first();
        let a = lemma_front_piece(rest);
        assert(rest.skip(a) =~= text.skip(a + 1));
        assert forall|i: int| 0 <= i < a + 1 implies white_space(#[trigger] text[i]) by {
            if i > 0 {
                assert(rest[i - 1] == text[i]);
            }
        }
        a + 1
    } else {
        assert(text.skip(0) =~= text);
        0
    }
}

proof fn lemma_back_piece(text: Seq<char>) -> (b: int)
    ensures
        0 <= b <= text.len(),
        trimmed_back(text) == text.take(b),
        forall|i: int| b <= i < text.len() ==> white_space(#[trigger] text[i]),
    decreases text.len(),
{
    if text.len() > 0 && white_space(text.last()) {
        let rest = text.drop_last();
        let b = lemma_back_piece(rest);
        assert(rest.take(b) =~= text.take(b));
        assert forall|i: int| b <= i < text.len() implies white_space(#[trigger] text[i]) by {
            if i < rest.len() {
                assert(rest[i] == text[i]);
            }
        }
        b
    } else {
        assert(text.take(text.len() as int) =~= text);
        text.len() as int
    }
}

/// Numbers are written in decimal: a number below ten is its digit, and any other is the number of
/// its tens with one more digit behind it.
pub proof fn law_decimal_is_positional(tens: nat, ones: nat)
    requires
        ones < 10,
    ensures
        tens == 0 ==> decimal(ones) == seq![(0x30 + ones) as char],
        tens > 0 ==> decimal(10 * tens + ones) == decimal(tens).push((0x30 + ones) as char),
{
}

/// Wide texts are written character by character: one behind the other is both together.
pub proof fn law_wide_text_is_written_in_order(a: Seq<char>, b: Seq<char>)
    ensures
        utf16(a + b) == utf16(a) + utf16(b),
    decreases b.len(),
{
    if b.len() == 0 {
        assert(a + b =~= a);
        assert(utf16(a) + utf16(b) =~= utf16(a));
    } else {
        law_wide_text_is_written_in_order(a, b.drop_last());
        assert((a + b).drop_last() =~= a + b.drop_last());
        assert(utf16(a + b) =~= utf16(a) + utf16(b));
    }
}

/// A character is one code unit, or a high and a low surrogate that hold ten of its bits each.
pub proof fn law_wide_characters(c: char)
    ensures
        (c as int) < 0x1_0000 ==> utf16(seq![c]).len() == 1 && utf16(seq![c])[0] == c as int,
        (c as int) >= 0x1_0000 ==> {
            &&& utf16(seq![c]).len() == 2
            &&& 0xd800 <= utf16(seq![c])[0] < 0xdc00
            &&& 0xdc00 <= utf16(seq![c])[1] < 0xe000
            &&& c as int == 0x1_0000 + (utf16(seq![c])[0] - 0xd800) * 0x400 + (utf16(seq![c])[1]
                - 0xdc00)
        },
{
    assert(seq![c].drop_last() =~= Seq::<char>::empty());
    assert(utf16(Seq::<char>::empty()) =~= Seq::<u16>::empty());
    assert(utf16(seq![c]) =~= utf16_units(c));
    lemma_units(c);
}

} // verus!
