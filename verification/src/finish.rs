//! Everything that happens between releasing the key and the text appearing.
//!
//! The recording is stopped, screened, transcribed and delivered. Each of these is a task for
//! somebody else; what comes of one decides what the next one is.
use vstd::prelude::*;

use crate::audio::Sample;
#[allow(unused_imports)]
use crate::session::{
    delivery_text, law_deliveries_are_reported_in_full, law_screening_goes_by_length_and_level,
    screened,
};
use crate::session::{
    delivery_line, recognised, screen, Delivery, Screening, NOTHING_RECOGNISED,
};
#[allow(unused_imports)]
use crate::text::{decimal, law_blanks_around_go, trimmed, white_space};

verus! {

/// How far a recording has come.
#[derive(Debug)]
pub enum Finishing {
    /// The microphone is being stopped.
    Stopping { min_recording_ms: u64 },
    /// It is worth transcribing. Whatever is focused now is what the user meant to type into.
    Targeting { samples: Vec<Sample> },
    /// The model is listening to it.
    Transcribing,
    /// Its text is on the way.
    Delivering { text: String },
    /// There is nothing left to do.
    Over,
}

/// What came of a task.
#[derive(Debug)]
pub enum Outcome {
    Recorded { samples: Vec<Sample> },
    TargetFound,
    Transcribed { transcript: String },
    Delivered { elapsed_ms: u128, delivery: Delivery },
}

/// What to do next.
#[derive(Debug)]
pub enum Task {
    /// Find the window to type into.
    FindTarget,
    /// Have the model listen to this.
    Transcribe { samples: Vec<Sample> },
    /// Type this.
    Deliver { text: String },
    /// Print this, and be done.
    Print { line: String },
    Nothing,
}

/// [`Finishing`], by what it holds.
pub enum FinishingView {
    Stopping { min_recording_ms: u64 },
    Targeting { samples: Seq<Sample> },
    Transcribing,
    Delivering { text: Seq<char> },
    Over,
}

/// [`Task`], by what it holds.
pub enum TaskView {
    FindTarget,
    Transcribe { samples: Seq<Sample> },
    Deliver { text: Seq<char> },
    Print { line: Seq<char> },
    Nothing,
}

impl View for Finishing {
    type V = FinishingView;

    open spec fn view(&self) -> FinishingView {
        match self {
            Finishing::Stopping { min_recording_ms } => FinishingView::Stopping {
                min_recording_ms: *min_recording_ms,
            },
            Finishing::Targeting { samples } => FinishingView::Targeting { samples: samples@ },
            Finishing::Transcribing => FinishingView::Transcribing,
            Finishing::Delivering { text } => FinishingView::Delivering { text: text@ },
            Finishing::Over => FinishingView::Over,
        }
    }
}

impl View for Task {
    type V = TaskView;

    open spec fn view(&self) -> TaskView {
        match self {
            Task::FindTarget => TaskView::FindTarget,
            Task::Transcribe { samples } => TaskView::Transcribe { samples: samples@ },
            Task::Deliver { text } => TaskView::Deliver { text: text@ },
            Task::Print { line } => TaskView::Print { line: line@ },
            Task::Nothing => TaskView::Nothing,
        }
    }
}

/// What an outcome leads to. One that nobody has asked for ends it all.
pub open spec fn advanced(state: FinishingView, outcome: Outcome) -> (FinishingView, TaskView) {
    match (state, outcome) {
        (FinishingView::Stopping { min_recording_ms }, Outcome::Recorded { samples }) => {
            match screened(samples@, min_recording_ms).text() {
                Some(line) => (FinishingView::Over, TaskView::Print { line }),
                None => (
                    FinishingView::Targeting { samples: samples@ },
                    TaskView::FindTarget,
                ),
            }
        },
        (FinishingView::Targeting { samples }, Outcome::TargetFound) => (
            FinishingView::Transcribing,
            TaskView::Transcribe { samples },
        ),
        (FinishingView::Transcribing, Outcome::Transcribed { transcript }) => {
            let text = trimmed(transcript@);
            if text.len() == 0 {
                (FinishingView::Over, TaskView::Print { line: NOTHING_RECOGNISED@ })
            } else {
                (FinishingView::Delivering { text }, TaskView::Deliver { text })
            }
        },
        (FinishingView::Delivering { text }, Outcome::Delivered { elapsed_ms, delivery }) => (
            FinishingView::Over,
            TaskView::Print { line: delivery_text(elapsed_ms as nat, delivery, text) },
        ),
        _ => (FinishingView::Over, TaskView::Nothing),
    }
}

impl Finishing {
    /// A recording that is about to be stopped, and has to be this long to be of any use.
    pub fn new(min_recording_ms: u64) -> (r: Finishing)
        ensures
            r == (Finishing::Stopping { min_recording_ms }),
    {
        Finishing::Stopping { min_recording_ms }
    }

    /// Takes what came of the last task and says what to do next.
    pub fn step(self, outcome: Outcome) -> (r: (Finishing, Task))
        ensures
            (r.0@, r.1@) == advanced(self@, outcome),
    {
        match (self, outcome) {
            (Finishing::Stopping { min_recording_ms }, Outcome::Recorded { samples }) => {
                match screen(samples.as_slice(), min_recording_ms).message() {
                    Some(line) => (Finishing::Over, Task::Print { line }),
                    None => (Finishing::Targeting { samples }, Task::FindTarget),
                }
            },
            (Finishing::Targeting { samples }, Outcome::TargetFound) => (
                Finishing::Transcribing,
                Task::Transcribe { samples },
            ),
            (Finishing::Transcribing, Outcome::Transcribed { transcript }) => {
                match recognised(transcript.as_str()) {
                    Some(text) => {
                        let copy = text.clone();
                        (Finishing::Delivering { text }, Task::Deliver { text: copy })
                    },
                    None => (
                        Finishing::Over,
                        Task::Print { line: NOTHING_RECOGNISED.to_string() },
                    ),
                }
            },
            (Finishing::Delivering { text }, Outcome::Delivered { elapsed_ms, delivery }) => (
                Finishing::Over,
                Task::Print { line: delivery_line(elapsed_ms, &delivery, text.as_str()) },
            ),
            _ => (Finishing::Over, Task::Nothing),
        }
    }
}

/// How far a recording has come after `outcomes`.
pub open spec fn state_after(min_recording_ms: u64, outcomes: Seq<Outcome>) -> FinishingView
    decreases outcomes.len(),
{
    if outcomes.len() == 0 {
        FinishingView::Stopping { min_recording_ms }
    } else {
        advanced(state_after(min_recording_ms, outcomes.drop_last()), outcomes.last()).0
    }
}

/// The task for the last of `outcomes`.
pub open spec fn last_task(min_recording_ms: u64, outcomes: Seq<Outcome>) -> TaskView {
    advanced(state_after(min_recording_ms, outcomes.drop_last()), outcomes.last()).1
}

/// How often a text was to be delivered in the course of `outcomes`.
pub open spec fn deliveries(min_recording_ms: u64, outcomes: Seq<Outcome>) -> nat
    decreases outcomes.len(),
{
    if outcomes.len() == 0 {
        0
    } else {
        deliveries(min_recording_ms, outcomes.drop_last()) + if last_task(
            min_recording_ms,
            outcomes,
        ) is Deliver {
            1nat
        } else {
            0
        }
    }
}

/// `outcomes` begin with a recording that is long and loud enough.
pub open spec fn begin_with_speech(min_recording_ms: u64, outcomes: Seq<Outcome>) -> bool {
    &&& outcomes.len() > 0
    &&& outcomes[0] matches Outcome::Recorded { samples } && screened(samples@, min_recording_ms)
        == Screening::Speech
}

/// A recording gets past the screening only if there is speech in it, and is then handed on as it
/// is.
proof fn lemma_only_speech_goes_on(min_recording_ms: u64, outcomes: Seq<Outcome>)
    ensures
        match state_after(min_recording_ms, outcomes) {
            FinishingView::Stopping { min_recording_ms: ms } => outcomes.len() == 0 && ms
                == min_recording_ms,
            FinishingView::Targeting { samples } => begin_with_speech(min_recording_ms, outcomes)
                && samples == outcomes[0]->samples@,
            FinishingView::Transcribing => begin_with_speech(min_recording_ms, outcomes),
            FinishingView::Delivering { text } => begin_with_speech(min_recording_ms, outcomes),
            FinishingView::Over => outcomes.len() > 0,
        },
    decreases outcomes.len(),
{
    if outcomes.len() > 0 {
        lemma_only_speech_goes_on(min_recording_ms, outcomes.drop_last());
        if outcomes.len() > 1 {
            assert(outcomes.drop_last()[0] == outcomes[0]);
        }
    }
}

/// The model never hears a recording that is too short or silent, and hears any other exactly as it
/// was recorded.
pub proof fn law_only_speech_is_transcribed(min_recording_ms: u64, outcomes: Seq<Outcome>)
    requires
        outcomes.len() > 0,
    ensures
        last_task(min_recording_ms, outcomes) matches TaskView::Transcribe { samples }
            ==> begin_with_speech(min_recording_ms, outcomes) && samples == outcomes[0]->samples@,
{
    lemma_only_speech_goes_on(min_recording_ms, outcomes.drop_last());
    if outcomes.len() > 1 {
        assert(outcomes.drop_last()[0] == outcomes[0]);
    }
}

/// What is typed is what the model just said, without the blanks around it; nothing is typed that
/// is blank, or that was not spoken.
pub proof fn law_only_what_was_recognised_is_typed(min_recording_ms: u64, outcomes: Seq<Outcome>)
    requires
        outcomes.len() > 0,
    ensures
        last_task(min_recording_ms, outcomes) matches TaskView::Deliver { text } ==> {
            &&& begin_with_speech(min_recording_ms, outcomes)
            &&& outcomes.last() matches Outcome::Transcribed { transcript } && text == trimmed(
                transcript@,
            )
            &&& text.len() > 0
        },
{
    lemma_only_speech_goes_on(min_recording_ms, outcomes.drop_last());
    if outcomes.len() > 1 {
        assert(outcomes.drop_last()[0] == outcomes[0]);
    }
}

/// A recording is typed once at most.
pub proof fn law_a_recording_is_typed_once(min_recording_ms: u64, outcomes: Seq<Outcome>)
    ensures
        deliveries(min_recording_ms, outcomes) <= 1,
        deliveries(min_recording_ms, outcomes) == 1 ==> {
            ||| state_after(min_recording_ms, outcomes) is Delivering
            ||| state_after(min_recording_ms, outcomes) is Over
        },
    decreases outcomes.len(),
{
    if outcomes.len() > 0 {
        law_a_recording_is_typed_once(min_recording_ms, outcomes.drop_last());
    }
}

/// Once it is over, nothing more is done.
pub proof fn law_over_is_over(min_recording_ms: u64, outcomes: Seq<Outcome>, outcome: Outcome)
    requires
        state_after(min_recording_ms, outcomes) is Over,
    ensures
        state_after(min_recording_ms, outcomes.push(outcome)) is Over,
        last_task(min_recording_ms, outcomes.push(outcome)) is Nothing,
{
    assert(outcomes.push(outcome).drop_last() =~= outcomes);
}

/// A recording that is long enough and has a number from 0.005 up in it goes to the model, however
/// long and loud it is: a window is looked for, and then the model gets the recording.
pub proof fn law_speech_reaches_the_model(min_recording_ms: u64, samples: Vec<Sample>)
    requires
        samples@.len() * 1000 >= min_recording_ms * 16_000,
        exists|i: int|
            0 <= i < samples@.len() && 0x3ba3_d70a <= (#[trigger] samples@[i]).bits % 0x8000_0000
                <= 0x7f80_0000,
    ensures
        advanced(FinishingView::Stopping { min_recording_ms }, Outcome::Recorded { samples })
            == (FinishingView::Targeting { samples: samples@ }, TaskView::FindTarget),
        advanced(FinishingView::Targeting { samples: samples@ }, Outcome::TargetFound) == (
            FinishingView::Transcribing,
            TaskView::Transcribe { samples: samples@ },
        ),
{
    law_screening_goes_by_length_and_level(samples@, min_recording_ms);
}

/// A recording that is too short or silent goes no further, and that is said.
pub proof fn law_the_rest_is_ignored(min_recording_ms: u64, samples: Vec<Sample>)
    ensures
        samples@.len() * 1000 < min_recording_ms * 16_000 ==> advanced(
            FinishingView::Stopping { min_recording_ms },
            Outcome::Recorded { samples },
        ) == (FinishingView::Over, TaskView::Print { line: "too short, ignored"@ }),
        samples@.len() * 1000 >= min_recording_ms * 16_000 && (forall|i: int|
            0 <= i < samples@.len() ==> !(0x3ba3_d70a <= (#[trigger] samples@[i]).bits
                % 0x8000_0000 <= 0x7f80_0000)) ==> advanced(
            FinishingView::Stopping { min_recording_ms },
            Outcome::Recorded { samples },
        ) == (FinishingView::Over, TaskView::Print { line: "silence, ignored"@ }),
{
    law_screening_goes_by_length_and_level(samples@, min_recording_ms);
}

/// What the model says is typed to the letter, without the blanks in front of it and behind it; and
/// once it is, it is reported in full.
pub proof fn law_the_transcript_is_typed(
    transcript: String,
    before: Seq<char>,
    core: Seq<char>,
    after: Seq<char>,
    elapsed_ms: u128,
)
    requires
        transcript@ == before + core + after,
        forall|i: int| 0 <= i < before.len() ==> white_space(#[trigger] before[i]),
        forall|i: int| 0 <= i < after.len() ==> white_space(#[trigger] after[i]),
        core.len() > 0,
        !white_space(core.first()),
        !white_space(core.last()),
    ensures
        advanced(FinishingView::Transcribing, Outcome::Transcribed { transcript }) == (
            FinishingView::Delivering { text: core },
            TaskView::Deliver { text: core },
        ),
        advanced(
            FinishingView::Delivering { text: core },
            Outcome::Delivered { elapsed_ms, delivery: Delivery::Delivered },
        ) == (
            FinishingView::Over,
            TaskView::Print { line: "["@ + decimal(elapsed_ms as nat) + " ms] "@ + core },
        ),
{
    law_blanks_around_go(before, core, after);
    law_deliveries_are_reported_in_full(elapsed_ms as nat, transcript, core);
}

/// Text that could not be typed is reported with the reason, whatever it is.
pub proof fn law_the_clipboard_is_pointed_out(text: Seq<char>, elapsed_ms: u128, reason: String)
    ensures
        advanced(
            FinishingView::Delivering { text },
            Outcome::Delivered { elapsed_ms, delivery: Delivery::ClipboardOnly { reason } },
        ) == (
            FinishingView::Over,
            TaskView::Print {
                line: "["@ + decimal(elapsed_ms as nat) + " ms] on clipboard only ("@ + reason@
                    + "), press Ctrl+V"@,
            },
        ),
{
    law_deliveries_are_reported_in_full(elapsed_ms as nat, reason, text);
}

/// A transcript of nothing but blanks is not typed, and that is said.
pub proof fn law_blanks_are_not_typed(transcript: String)
    requires
        forall|i: int| 0 <= i < transcript@.len() ==> white_space(#[trigger] transcript@[i]),
    ensures
        advanced(FinishingView::Transcribing, Outcome::Transcribed { transcript }) == (
            FinishingView::Over,
            TaskView::Print { line: "nothing recognised"@ },
        ),
{
    law_blanks_around_go(transcript@, Seq::empty(), Seq::empty());
    assert(transcript@ + Seq::<char>::empty() + Seq::<char>::empty() =~= transcript@);
}

/// An outcome of another task than the one at hand ends it all.
pub proof fn law_unasked_outcomes_end_it(state: FinishingView, outcome: Outcome)
    requires
        state is Stopping ==> !(outcome is Recorded),
        state is Targeting ==> !(outcome is TargetFound),
        state is Transcribing ==> !(outcome is Transcribed),
        state is Delivering ==> !(outcome is Delivered),
    ensures
        advanced(state, outcome) == (FinishingView::Over, TaskView::Nothing),
{
}

/// A task shows all that it holds.
pub proof fn law_tasks_are_what_they_hold(samples: Vec<Sample>, text: String)
    ensures
        (Task::Transcribe { samples })@ == (TaskView::Transcribe { samples: samples@ }),
        (Task::Deliver { text })@ == (TaskView::Deliver { text: text@ }),
        (Task::Print { line: text })@ == (TaskView::Print { line: text@ }),
        Task::FindTarget@ == TaskView::FindTarget,
        Task::Nothing@ == TaskView::Nothing,
{
}

/// A state shows all that it holds.
pub proof fn law_states_are_what_they_hold(samples: Vec<Sample>, text: String, ms: u64)
    ensures
        (Finishing::Stopping { min_recording_ms: ms })@ == (FinishingView::Stopping {
            min_recording_ms: ms,
        }),
        (Finishing::Targeting { samples })@ == (FinishingView::Targeting { samples: samples@ }),
        Finishing::Transcribing@ == FinishingView::Transcribing,
        (Finishing::Delivering { text })@ == (FinishingView::Delivering { text: text@ }),
        Finishing::Over@ == FinishingView::Over,
{
}

} // verus!
