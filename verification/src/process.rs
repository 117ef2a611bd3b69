//! Pure processing steps: trimming silence off the audio, and applying literal text fixes.
//!
//! Both are deliberately simple and deterministic. Trimming uses an energy threshold rather than a
//! neural VAD, and replacements are literal rather than fuzzy, because a step you can predict is a
//! step that cannot surprise you mid-sentence.
use vstd::arithmetic::div_mod::{
    lemma_fundamental_div_mod, lemma_hoist_over_denominator, lemma_mod_multiples_basic,
    lemma_sub_mod_noop,
};
use vstd::prelude::*;
use vstd::slice::{slice_subrange, slice_to_vec};
use vstd::utf8::is_ascii_chars;

use crate::audio::Sample;
#[allow(unused_imports)]
use crate::session::{is_silent, SILENCE};
#[allow(unused_imports)]
use crate::words::{
    is_match, is_word_match, law_correction_is_final, law_rest_without_match_stays,
    lemma_lowered_word, lemma_run, lemma_separator, lowercase, match_end, replaced, stands_alone,
    word_char,
};
use crate::words::{lowered_chars, replace_words};

verus! {

/// Below this peak, a frame is treated as silence. Matches the level below which a whole recording
/// is rejected.
pub const SPEECH_LEVEL: u32 = SILENCE;

/// Loud enough to be speech.
pub open spec fn is_speech(sample: Sample) -> bool {
    sample.loudness() >= SPEECH_LEVEL
}

/// How many samples a frame of 20 ms has, and one at least.
pub open spec fn frame_len(rate: u32) -> int {
    if rate * 20 / 1000 < 1 {
        1
    } else {
        rate * 20 / 1000
    }
}

/// How many samples are kept either side of detected speech: 120 ms.
pub open spec fn pad_len(rate: u32) -> int {
    rate * 120 / 1000
}

/// `at` is where speech is heard first.
pub open spec fn is_first_speech(samples: Seq<Sample>, at: int) -> bool {
    &&& 0 <= at < samples.len()
    &&& is_speech(samples[at])
    &&& forall|i: int| 0 <= i < at ==> !is_speech(#[trigger] samples[i])
}

/// `at` is where speech is heard last.
pub open spec fn is_last_speech(samples: Seq<Sample>, at: int) -> bool {
    &&& 0 <= at < samples.len()
    &&& is_speech(samples[at])
    &&& forall|i: int| at < i < samples.len() ==> !is_speech(#[trigger] samples[i])
}

/// Where the frame of the first speech begins, less the pad.
pub open spec fn trim_start(first: int, rate: u32) -> int {
    let start = first / frame_len(rate) * frame_len(rate) - pad_len(rate);
    if start < 0 {
        0
    } else {
        start
    }
}

/// Where the frame of the last speech ends, and the pad behind it, in a buffer of `len` samples.
pub open spec fn trim_end(last: int, rate: u32, len: int) -> int {
    let end = (last / frame_len(rate) + 1) * frame_len(rate) + pad_len(rate);
    if end > len {
        len
    } else {
        end
    }
}

/// A position lies in its frame.
proof fn lemma_frame_of(at: int, frame: int)
    requires
        0 <= at,
        0 < frame,
    ensures
        0 <= at / frame * frame <= at < (at / frame + 1) * frame,
        (at / frame + 1) * frame == at / frame * frame + frame,
{
    lemma_fundamental_div_mod(at, frame);
    assert(at / frame * frame == frame * (at / frame)) by (nonlinear_arith);
    assert((at / frame + 1) * frame == at / frame * frame + frame) by (nonlinear_arith);
    assert(0 <= at / frame * frame) by (nonlinear_arith)
        requires
            0 <= at,
            0 < frame,
    ;
}

/// Trim leading and trailing near-silence from a 16 kHz mono buffer.
///
/// Speech is bracketed by dead air: the gap between pressing the key and starting to talk, and
/// between stopping and releasing. Sending it to the model wastes time and, on some models, invites
/// a hallucination at the quiet edges. This finds the first and last frames above a level and keeps
/// a small pad around them so no consonant is clipped.
///
/// Returns the input unchanged if it finds no speech (the silence check upstream will reject it).
pub fn trim_silence(samples: &[Sample], rate: u32) -> (r: Vec<Sample>)
    ensures
        (forall|i: int| 0 <= i < samples@.len() ==> !is_speech(#[trigger] samples@[i])) ==> r@
            == samples@,
        forall|first: int, last: int|
            #[trigger] is_first_speech(samples@, first) && #[trigger] is_last_speech(samples@, last)
                ==> r@ == samples@.subrange(
                trim_start(first, rate),
                trim_end(last, rate, samples@.len() as int),
            ),
{
    let len: usize = samples.len();
    let mut first: usize = 0;
    while first < len && samples[first].amplitude() < SPEECH_LEVEL
        invariant
            first <= len,
            len == samples.len(),
            forall|i: int| 0 <= i < first ==> !is_speech(#[trigger] samples@[i]),
        decreases len - first,
    {
        first += 1;
    }
    if first == len {
        return slice_to_vec(samples);
    }
    let mut last: usize = len - 1;
    while samples[last].amplitude() < SPEECH_LEVEL
        invariant
            first <= last < len,
            len == samples.len(),
            is_speech(samples@[first as int]),
            forall|i: int| last < i < len ==> !is_speech(#[trigger] samples@[i]),
        decreases last,
    {
        last -= 1;
    }
    let frame: u64 = if (rate as u64) * 20 / 1000 < 1 {
        1
    } else {
        (rate as u64) * 20 / 1000
    };
    let pad: u64 = (rate as u64) * 120 / 1000;
    proof {
        lemma_frame_of(first as int, frame as int);
        lemma_frame_of(last as int, frame as int);
        assert(is_first_speech(samples@, first as int));
        assert(is_last_speech(samples@, last as int));
        assert forall|f: int, l: int|
            #[trigger] is_first_speech(samples@, f) && #[trigger] is_last_speech(
                samples@,
                l,
            ) implies f == first && l == last by {
            assert(!(f < first) && !(first < f));
            assert(!(l < last) && !(last < l));
        }
    }
    let wide_frame: u128 = frame as u128;
    let onset: u128 = (first as u128) / wide_frame * wide_frame;
    let start: u128 = if onset < pad as u128 {
        0
    } else {
        onset - pad as u128
    };
    let tail: u128 = ((last as u128) / wide_frame + 1) * wide_frame + pad as u128;
    let end: usize = if tail > len as u128 {
        len
    } else {
        tail as usize
    };
    slice_to_vec(slice_subrange(samples, start as usize, end))
}

/// A buffer without speech is one that the silence check rejects, and there is no other.
pub proof fn law_no_speech_is_silence(samples: Seq<Sample>)
    ensures
        (forall|i: int| 0 <= i < samples.len() ==> !is_speech(#[trigger] samples[i]))
            <==> is_silent(samples),
{
}

/// Trimming leaves the speech in: a recording is silent after it only if it was before.
pub proof fn law_trimming_keeps_the_speech(
    samples: Seq<Sample>,
    rate: u32,
    first: int,
    last: int,
)
    requires
        is_first_speech(samples, first),
        is_last_speech(samples, last),
    ensures
        !is_silent(samples),
        !is_silent(
            samples.subrange(
                trim_start(first, rate),
                trim_end(last, rate, samples.len() as int),
            ),
        ),
{
    law_long_silence_is_trimmed(samples, rate, first, last);
    let kept = samples.subrange(
        trim_start(first, rate),
        trim_end(last, rate, samples.len() as int),
    );
    assert(kept[first - trim_start(first, rate)] == samples[first]);
}

/// A trimmed buffer stays as it is, at every rate at which the pad is made of whole frames, such as
/// 16 kHz.
pub proof fn law_trimmed_stays_trimmed(
    samples: Seq<Sample>,
    rate: u32,
    first: int,
    last: int,
    kept: Seq<Sample>,
)
    requires
        is_first_speech(samples, first),
        is_last_speech(samples, last),
        pad_len(rate) % frame_len(rate) == 0,
        kept == samples.subrange(
            trim_start(first, rate),
            trim_end(last, rate, samples.len() as int),
        ),
    ensures
        is_first_speech(kept, first - trim_start(first, rate)),
        is_last_speech(kept, last - trim_start(first, rate)),
        trim_start(first - trim_start(first, rate), rate) == 0,
        trim_end(last - trim_start(first, rate), rate, kept.len() as int) == kept.len(),
{
    let frame = frame_len(rate);
    let pad = pad_len(rate);
    let start = trim_start(first, rate);
    law_long_silence_is_trimmed(samples, rate, first, last);
    law_speech_keeps_its_pad(samples, rate, first, last, last, last);
    lemma_frame_of(first, frame);
    lemma_frame_of(last, frame);
    lemma_frame_of(first - start, frame);
    lemma_frame_of(last - start, frame);
    assert(start % frame == 0) by {
        lemma_mod_multiples_basic(0, frame);
        lemma_mod_multiples_basic(first / frame, frame);
        lemma_sub_mod_noop(first / frame * frame, pad, frame);
    }
    lemma_fundamental_div_mod(start, frame);
    let skipped = start / frame;
    assert(start == skipped * frame) by (nonlinear_arith)
        requires
            start == frame * skipped,
    ;
    lemma_hoist_over_denominator(first, -skipped, frame as nat);
    lemma_hoist_over_denominator(last, -skipped, frame as nat);
    assert(first + -skipped * frame == first - start) by (nonlinear_arith)
        requires
            start == skipped * frame,
    ;
    assert(last + -skipped * frame == last - start) by (nonlinear_arith)
        requires
            start == skipped * frame,
    ;
    assert((first / frame - skipped) * frame == first / frame * frame - start) by (nonlinear_arith)
        requires
            start == skipped * frame,
    ;
    assert((last / frame - skipped + 1) * frame == (last / frame + 1) * frame - start)
        by (nonlinear_arith)
        requires
            start == skipped * frame,
    ;
    assert(kept[first - start] == samples[first]);
    assert(kept[last - start] == samples[last]);
}

/// No consonant is clipped: whatever lies within the pad of a loud sample is kept.
pub proof fn law_speech_keeps_its_pad(
    samples: Seq<Sample>,
    rate: u32,
    first: int,
    last: int,
    loud: int,
    near: int,
)
    requires
        is_first_speech(samples, first),
        is_last_speech(samples, last),
        0 <= loud < samples.len(),
        is_speech(samples[loud]),
        0 <= near < samples.len(),
        loud - pad_len(rate) <= near <= loud + pad_len(rate),
    ensures
        trim_start(first, rate) <= near < trim_end(last, rate, samples.len() as int),
{
    lemma_frame_of(first, frame_len(rate));
    lemma_frame_of(last, frame_len(rate));
    assert(first <= loud <= last);
}

/// Of the silence at either end less than a frame stays beyond the pad.
pub proof fn law_long_silence_is_trimmed(
    samples: Seq<Sample>,
    rate: u32,
    first: int,
    last: int,
)
    requires
        is_first_speech(samples, first),
        is_last_speech(samples, last),
    ensures
        0 <= trim_start(first, rate) <= first < trim_end(last, rate, samples.len() as int)
            <= samples.len(),
        first - trim_start(first, rate) < frame_len(rate) + pad_len(rate),
        trim_end(last, rate, samples.len() as int) - last <= frame_len(rate) + pad_len(rate),
{
    lemma_frame_of(first, frame_len(rate));
    lemma_frame_of(last, frame_len(rate));
    assert(first <= last);
}

/// `text` after one rule. An empty `from` is no rule and leaves the text alone.
pub open spec fn rule_applied(text: Seq<char>, from: Seq<char>, to: Seq<char>) -> Seq<char> {
    if from.len() == 0 {
        text
    } else {
        replaced(text, lowercase(from), to, 0)
    }
}

/// `text` after all `rules`, the first one first.
pub open spec fn rules_applied(text: Seq<char>, rules: Seq<[String; 2]>) -> Seq<char>
    decreases rules.len(),
{
    if rules.len() == 0 {
        text
    } else {
        rule_applied(
            rules_applied(text, rules.drop_last()),
            rules.last()[0]@,
            rules.last()[1]@,
        )
    }
}

/// Case-insensitive whole-word replacement. A match must be bounded by non-alphanumeric characters
/// (or the string ends) on both sides, so `from` embedded inside a larger word is left alone.
pub fn replace_whole_word_ci(haystack: &str, from: &str, to: &str) -> (r: String)
    requires
        from@.len() > 0,
    ensures
        r@ == replaced(haystack@, lowercase(from@), to@, 0),
{
    let needle = lowered_chars(from);
    replace_words(haystack, needle.as_slice(), to)
}

/// Apply literal, case-insensitive, whole-word replacements to a transcript.
///
/// Each rule is `[heard, wanted]`. Matching ignores case but preserves nothing else: the wanted
/// text is inserted verbatim, so `["github", "GitHub"]` produces exactly `GitHub`. Whole-word only,
/// so a rule for `"cat"` never touches `"category"`. Rules are applied in order.
pub fn apply_replacements(text: &str, rules: &[[String; 2]]) -> (r: String)
    ensures
        r@ == rules_applied(text@, rules@),
{
    let mut out = text.to_string();
    let mut i: usize = 0;
    assert(rules@.take(0) =~= Seq::<[String; 2]>::empty());
    while i < rules.len()
        invariant
            i <= rules.len(),
            out@ == rules_applied(text@, rules@.take(i as int)),
        decreases rules.len() - i,
    {
        assert(rules@.take(i + 1).drop_last() =~= rules@.take(i as int));
        let from: &String = &rules[i][0];
        let to: &String = &rules[i][1];
        if !from.as_str().is_empty() {
            out = replace_whole_word_ci(out.as_str(), from.as_str(), to.as_str());
        }
        i += 1;
    }
    assert(rules@.take(i as int) =~= rules@);
    out
}

/// Without rules a transcript stays as it is.
pub proof fn law_no_rules(text: Seq<char>)
    ensures
        rules_applied(text, Seq::empty()) == text,
{
}

/// Rules are applied in order: those of `first`, then those of `second` to what came out.
pub proof fn law_rules_in_order(
    text: Seq<char>,
    first: Seq<[String; 2]>,
    second: Seq<[String; 2]>,
)
    ensures
        rules_applied(text, first + second) == rules_applied(rules_applied(text, first), second),
    decreases second.len(),
{
    if second.len() == 0 {
        assert(first + second =~= first);
    } else {
        law_rules_in_order(text, first, second.drop_last());
        assert((first + second).drop_last() =~= first + second.drop_last());
    }
}

/// A rule with nothing to look for makes no difference, wherever it stands.
pub proof fn law_empty_rule_is_skipped(
    text: Seq<char>,
    before: Seq<[String; 2]>,
    rule: [String; 2],
    after: Seq<[String; 2]>,
)
    requires
        rule[0]@.len() == 0,
    ensures
        rules_applied(text, before.push(rule) + after) == rules_applied(text, before + after),
{
    law_rules_in_order(text, before.push(rule), after);
    law_rules_in_order(text, before, after);
    assert(before.push(rule).drop_last() =~= before);
}

/// Matching ignores the case in which a rule is written.
pub proof fn law_rule_case_is_ignored(
    text: Seq<char>,
    from: Seq<char>,
    also: Seq<char>,
    to: Seq<char>,
)
    requires
        from.len() > 0,
        also.len() > 0,
        lowercase(from) == lowercase(also),
    ensures
        rule_applied(text, from, to) == rule_applied(text, also, to),
{
}

/// A rule never touches a text in which it is only found inside larger words.
pub proof fn law_larger_words_are_left_alone(text: Seq<char>, from: Seq<char>, to: Seq<char>)
    requires
        forall|start: int, end: int| #[trigger]
            is_match(text, lowercase(from), start, end) ==> !stands_alone(text, start, end),
    ensures
        rule_applied(text, from, to) == text,
{
    if from.len() > 0 {
        law_rest_without_match_stays(text, lowercase(from), to, 0);
        assert(text.subrange(0, text.len() as int) =~= text);
    }
}

/// A text that is the wanted word but for its case becomes the replacement, letter for letter.
pub proof fn law_replacement_is_verbatim(text: Seq<char>, from: Seq<char>, to: Seq<char>)
    requires
        from.len() > 0,
        text.len() > 0,
        lowercase(text) == lowercase(from),
    ensures
        rule_applied(text, from, to) == to,
{
    let len = text.len() as int;
    assert(lowercase(text).subrange(0, lowercase(text).len() as int) =~= lowercase(text));
    assert(is_word_match(text, lowercase(from), 0, len));
    assert(match_end(text, lowercase(from), 0, len) == Some(len));
    assert(replaced(text, lowercase(from), to, len) =~= Seq::empty());
    assert(to + Seq::<char>::empty() =~= to);
}

/// A rule that only corrects the case of a word, such as `["github", "GitHub"]`, does not change a
/// text that it was applied to.
pub proof fn law_case_rule_is_final(text: Seq<char>, from: Seq<char>, to: Seq<char>)
    requires
        is_ascii_chars(text),
        is_ascii_chars(to),
        lowercase(to) == lowercase(from),
    ensures
        rule_applied(rule_applied(text, from, to), from, to) == rule_applied(text, from, to),
{
    if from.len() > 0 {
        law_correction_is_final(text, lowercase(from), to);
    }
}

/// A frame lasts 20 ms and a pad 120 ms, in whole samples; a frame has one sample at least.
pub proof fn law_frames_and_pads_last(rate: u32)
    ensures
        rate >= 50 ==> frame_len(rate) * 50 <= rate < (frame_len(rate) + 1) * 50,
        rate < 50 ==> frame_len(rate) == 1,
        pad_len(rate) * 25 <= rate * 3 < (pad_len(rate) + 1) * 25,
{
}

/// Speech is a number from 0.005 up, of either sign.
pub proof fn law_speech_is_a_level(sample: Sample)
    ensures
        is_speech(sample) <==> 0x3ba3_d70a <= sample.bits % 0x8000_0000 <= 0x7f80_0000,
{
}

/// Where speech is heard first and last: there is such a number there, and none before or behind.
pub proof fn law_first_and_last_speech(samples: Seq<Sample>, at: int)
    ensures
        is_first_speech(samples, at) <==> {
            &&& 0 <= at < samples.len()
            &&& 0x3ba3_d70a <= samples[at].bits % 0x8000_0000 <= 0x7f80_0000
            &&& forall|i: int|
                0 <= i < at ==> !(0x3ba3_d70a <= (#[trigger] samples[i]).bits % 0x8000_0000
                    <= 0x7f80_0000)
        },
        is_last_speech(samples, at) <==> {
            &&& 0 <= at < samples.len()
            &&& 0x3ba3_d70a <= samples[at].bits % 0x8000_0000 <= 0x7f80_0000
            &&& forall|i: int|
                at < i < samples.len() ==> !(0x3ba3_d70a <= (#[trigger] samples[i]).bits
                    % 0x8000_0000 <= 0x7f80_0000)
        },
{
    if is_first_speech(samples, at) {
        assert forall|i: int| 0 <= i < at implies !(0x3ba3_d70a <= (#[trigger] samples[i]).bits
            % 0x8000_0000 <= 0x7f80_0000) by {
            assert(!is_speech(samples[i]));
        }
    }
    if is_last_speech(samples, at) {
        assert forall|i: int| at < i < samples.len() implies !(0x3ba3_d70a <= (
        #[trigger] samples[i]).bits % 0x8000_0000 <= 0x7f80_0000) by {
            assert(!is_speech(samples[i]));
        }
    }
}

/// The cut is one pad in front of the frame that the first speech falls into, and one behind the
/// frame of the last, or at the end of the buffer where that is nearer.
pub proof fn law_cuts_are_a_pad_off_the_frames(first: int, last: int, rate: u32, len: int)
    requires
        0 <= first <= last < len,
    ensures
        ({
            let start = trim_start(first, rate);
            let onset = start + pad_len(rate);
            &&& 0 <= start
            &&& start > 0 ==> onset % frame_len(rate) == 0 && onset <= first < onset + frame_len(
                rate,
            )
            &&& start == 0 ==> first - first % frame_len(rate) <= pad_len(rate)
        }),
        ({
            let end = trim_end(last, rate, len);
            let tail = end - pad_len(rate);
            &&& end <= len
            &&& end < len ==> tail % frame_len(rate) == 0 && tail - frame_len(rate) <= last < tail
            &&& end == len ==> last - last % frame_len(rate) + frame_len(rate) + pad_len(rate)
                >= len
        }),
{
    let frame = frame_len(rate);
    lemma_frame_of(first, frame);
    lemma_frame_of(last, frame);
    lemma_mod_multiples_basic(first / frame, frame);
    lemma_mod_multiples_basic(last / frame + 1, frame);
    lemma_fundamental_div_mod(first, frame);
    lemma_fundamental_div_mod(last, frame);
    assert(first / frame * frame == frame * (first / frame)) by (nonlinear_arith);
    assert(last / frame * frame == frame * (last / frame)) by (nonlinear_arith);
}

/// A rule puts its replacement in the place of the words that are the rule but for their case.
pub proof fn law_a_rule_looks_for_its_word(text: Seq<char>, from: Seq<char>, to: Seq<char>)
    ensures
        from.len() > 0 ==> rule_applied(text, from, to) == replaced(text, lowercase(from), to, 0),
        from.len() == 0 ==> rule_applied(text, from, to) == text,
{
}

/// One rule by itself is applied as it is.
pub proof fn law_one_rule(text: Seq<char>, rule: [String; 2])
    ensures
        rules_applied(text, seq![rule]) == rule_applied(text, rule[0]@, rule[1]@),
{
    assert(seq![rule].drop_last() =~= Seq::<[String; 2]>::empty());
    assert(rules_applied(text, Seq::<[String; 2]>::empty()) == text);
}

/// A rule for a word goes through an ASCII text run by run: a run of letters and digits that is the
/// rule but for its case becomes the replacement, whatever follows it, and any other run stays.
pub proof fn law_runs_are_replaced_one_by_one(
    run: Seq<char>,
    rest: Seq<char>,
    from: Seq<char>,
    to: Seq<char>,
)
    requires
        is_ascii_chars(run + rest),
        is_ascii_chars(from),
        from.len() > 0,
        forall|i: int| 0 <= i < from.len() ==> word_char(#[trigger] from[i]),
        run.len() > 0,
        forall|i: int| 0 <= i < run.len() ==> word_char(#[trigger] run[i]),
        rest.len() == 0 || !word_char(rest[0]),
    ensures
        lowercase(run) == lowercase(from) ==> rule_applied(run + rest, from, to) == to
            + rule_applied(rest, from, to),
        lowercase(run) != lowercase(from) ==> rule_applied(run + rest, from, to) == run
            + rule_applied(rest, from, to),
{
    lemma_lowered_word(from);
    lemma_run(run, rest, lowercase(from), to);
}

/// What stands between the runs of an ASCII text stays: a rule for a word copies a character that is
/// neither letter nor digit and goes on behind it.
pub proof fn law_separators_stay(
    separator: char,
    rest: Seq<char>,
    from: Seq<char>,
    to: Seq<char>,
)
    requires
        is_ascii_chars(seq![separator] + rest),
        is_ascii_chars(from),
        from.len() > 0,
        forall|i: int| 0 <= i < from.len() ==> word_char(#[trigger] from[i]),
        !word_char(separator),
    ensures
        rule_applied(seq![separator] + rest, from, to) == seq![separator] + rule_applied(
            rest,
            from,
            to,
        ),
{
    lemma_lowered_word(from);
    lemma_separator(separator, rest, lowercase(from), to);
}

} // verus!
