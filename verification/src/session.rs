//! The loop between the hotkey and the text: when to record, what to do with what was recorded, and
//! what the bubble shows meanwhile.
use vstd::prelude::*;

use crate::audio::{peak, Sample, TARGET_RATE};
use crate::text::{decimal_text, trim};
#[allow(unused_imports)]
use crate::text::{decimal, trimmed};
use crate::ui::BubbleState;

verus! {

/// What the hotkey did.
#[derive(Clone, Copy, Debug, PartialEq, Eq, Structural)]
pub enum HotkeyState {
    Pressed,
    Released,
}

/// Something that happened while the loop was running.
#[derive(Clone, Copy, Debug, PartialEq, Eq, Structural)]
pub enum Event {
    Hotkey(HotkeyState),
    /// The microphone is open.
    Started,
    /// The microphone could not be opened.
    StartFailed,
    /// A recording was dealt with, whatever came of it.
    Finished,
}

/// Where a dictation stands.
#[derive(Clone, Copy, Debug, PartialEq, Eq, Structural)]
pub enum Phase {
    Idle,
    Starting,
    Recording,
    Transcribing,
}

/// What to do next.
#[derive(Clone, Copy, Debug, PartialEq, Eq, Structural)]
pub enum Action {
    Ignore,
    /// Open the microphone, and say whether that worked.
    StartRecording,
    /// Have the bubble show this.
    Show(BubbleState),
    /// Deal with the recording, and say when that is done.
    FinishRecording,
}

/// What an event leads to. A press that finds a recording in progress and a release that finds none
/// are ignored, as is an answer to something that was not asked for.
pub open spec fn transition(phase: Phase, event: Event) -> (Phase, Action) {
    match (phase, event) {
        (Phase::Idle, Event::Hotkey(HotkeyState::Pressed)) => (
            Phase::Starting,
            Action::StartRecording,
        ),
        (Phase::Starting, Event::Started) => (
            Phase::Recording,
            Action::Show(BubbleState::Recording),
        ),
        (Phase::Starting, Event::StartFailed) => (Phase::Idle, Action::Show(BubbleState::Hidden)),
        (Phase::Recording, Event::Hotkey(HotkeyState::Released)) => (
            Phase::Transcribing,
            Action::FinishRecording,
        ),
        (Phase::Transcribing, Event::Finished) => (
            Phase::Idle,
            Action::Show(BubbleState::Hidden),
        ),
        _ => (phase, Action::Ignore),
    }
}

/// One dictation after the other.
pub struct Dictation {
    pub phase: Phase,
}

impl Dictation {
    /// Nothing has been recorded yet.
    pub fn new() -> (r: Dictation)
        ensures
            r.phase == Phase::Idle,
    {
        Dictation { phase: Phase::Idle }
    }

    /// Takes one event and says what to do about it.
    pub fn step(&mut self, event: Event) -> (r: Action)
        ensures
            (final(self).phase, r) == transition(old(self).phase, event),
    {
        match (self.phase, event) {
            (Phase::Idle, Event::Hotkey(HotkeyState::Pressed)) => {
                self.phase = Phase::Starting;
                Action::StartRecording
            },
            (Phase::Starting, Event::Started) => {
                self.phase = Phase::Recording;
                Action::Show(BubbleState::Recording)
            },
            (Phase::Starting, Event::StartFailed) => {
                self.phase = Phase::Idle;
                Action::Show(BubbleState::Hidden)
            },
            (Phase::Recording, Event::Hotkey(HotkeyState::Released)) => {
                self.phase = Phase::Transcribing;
                Action::FinishRecording
            },
            (Phase::Transcribing, Event::Finished) => {
                self.phase = Phase::Idle;
                Action::Show(BubbleState::Hidden)
            },
            _ => Action::Ignore,
        }
    }
}

/// The phase after `events`, from an idle start.
pub open spec fn phase_after(events: Seq<Event>) -> Phase
    decreases events.len(),
{
    if events.len() == 0 {
        Phase::Idle
    } else {
        transition(phase_after(events.drop_last()), events.last()).0
    }
}

/// The action for the last of `events`.
pub open spec fn last_action(events: Seq<Event>) -> Action {
    transition(phase_after(events.drop_last()), events.last()).1
}

/// What the bubble is told to show before an action is taken, if anything.
pub open spec fn told(action: Action) -> Option<BubbleState> {
    match action {
        Action::Show(state) => Some(state),
        Action::FinishRecording => Some(BubbleState::Transcribing),
        Action::Ignore => None,
        Action::StartRecording => None,
    }
}

/// What to tell the bubble to show before an action is taken, if anything.
pub fn shown_by(action: Action) -> (r: Option<BubbleState>)
    ensures
        r == told(action),
{
    match action {
        Action::Show(state) => Some(state),
        Action::FinishRecording => Some(BubbleState::Transcribing),
        Action::Ignore => None,
        Action::StartRecording => None,
    }
}

/// What the bubble shows after `events`: what it was told last.
pub open spec fn shown_after(events: Seq<Event>) -> BubbleState
    decreases events.len(),
{
    if events.len() == 0 {
        BubbleState::Hidden
    } else {
        match told(last_action(events)) {
            Some(state) => state,
            None => shown_after(events.drop_last()),
        }
    }
}

/// How often `action` was asked for in the course of `events`.
pub open spec fn times(events: Seq<Event>, action: Action) -> nat
    decreases events.len(),
{
    if events.len() == 0 {
        0
    } else {
        times(events.drop_last(), action) + if last_action(events) == action {
            1nat
        } else {
            0
        }
    }
}

/// Whatever happens, the bubble shows what is going on, and nothing when nothing is.
pub proof fn law_bubble_shows_the_phase(events: Seq<Event>)
    ensures
        shown_after(events) == match phase_after(events) {
            Phase::Idle => BubbleState::Hidden,
            Phase::Starting => BubbleState::Hidden,
            Phase::Recording => BubbleState::Recording,
            Phase::Transcribing => BubbleState::Transcribing,
        },
    decreases events.len(),
{
    if events.len() > 0 {
        law_bubble_shows_the_phase(events.drop_last());
    }
}

/// There is one recording at a time, and every recording is finished once: as many were finished as
/// were begun, but for the one that is in progress.
pub proof fn law_every_recording_is_finished_once(events: Seq<Event>)
    ensures
        times(events, Action::Show(BubbleState::Recording)) == times(
            events,
            Action::FinishRecording,
        ) + if phase_after(events) == Phase::Recording {
            1nat
        } else {
            0
        },
    decreases events.len(),
{
    if events.len() > 0 {
        law_every_recording_is_finished_once(events.drop_last());
    }
}

/// Holding the key down does not start a second recording, and letting go of it again does not
/// finish one twice.
pub proof fn law_repeated_keys_change_nothing(events: Seq<Event>)
    ensures
        phase_after(events) == Phase::Recording ==> last_action(
            events.push(Event::Hotkey(HotkeyState::Pressed)),
        ) == Action::Ignore,
        phase_after(events) != Phase::Recording ==> last_action(
            events.push(Event::Hotkey(HotkeyState::Released)),
        ) == Action::Ignore,
{
    assert(events.push(Event::Hotkey(HotkeyState::Pressed)).drop_last() =~= events);
    assert(events.push(Event::Hotkey(HotkeyState::Released)).drop_last() =~= events);
}

/// What is printed at startup.
pub fn banner(config_path: &str, model: &str, hotkey: &str) -> (r: String)
    ensures
        r@ == "dictate\n  config : "@ + config_path@ + "\n  model  : "@ + model@
            + "\n  hotkey : "@ + hotkey@ + " (hold)"@,
{
    let mut out = "dictate\n  config : ".to_string();
    out.append(config_path);
    out.append("\n  model  : ");
    out.append(model);
    out.append("\n  hotkey : ");
    out.append(hotkey);
    out.append(" (hold)");
    out
}

/// What is printed once the hotkey works.
pub fn ready_line(hotkey: &str) -> (r: String)
    ensures
        r@ == "\nready. hold "@ + hotkey@ + " and speak.\n"@,
{
    let mut out = "\nready. hold ".to_string();
    out.append(hotkey);
    out.append(" and speak.\n");
    out
}

/// The bits of 0.005. What never gets this loud is silence.
pub const SILENCE: u32 = 0x3ba3_d70a;

/// What a finished recording is good for.
#[derive(Clone, Copy, Debug, PartialEq, Eq, Structural)]
pub enum Screening {
    TooShort,
    Silent,
    /// Worth transcribing.
    Speech,
}

/// `len` samples at the target rate last less than `ms` milliseconds.
pub open spec fn is_shorter(len: int, ms: u64) -> bool {
    len * 1000 < ms * TARGET_RATE
}

/// Nothing in `samples` is loud enough to be speech.
pub open spec fn is_silent(samples: Seq<Sample>) -> bool {
    forall|i: int| 0 <= i < samples.len() ==> (#[trigger] samples[i]).loudness() < SILENCE
}

/// What a recording is good for, if it has to last `min_recording_ms`.
pub open spec fn screened(samples: Seq<Sample>, min_recording_ms: u64) -> Screening {
    if is_shorter(samples.len() as int, min_recording_ms) {
        Screening::TooShort
    } else if is_silent(samples) {
        Screening::Silent
    } else {
        Screening::Speech
    }
}

/// Decides whether a recording goes to the model.
///
/// Rejecting near-silence before inference is the cheapest guard against a hallucinated
/// transcript, and it also catches a muted or wrongly-selected microphone.
pub fn screen(samples: &[Sample], min_recording_ms: u64) -> (r: Screening)
    ensures
        r == screened(samples@, min_recording_ms),
{
    if (samples.len() as u128) * 1000 < (min_recording_ms as u128) * (TARGET_RATE as u128) {
        return Screening::TooShort;
    }
    if peak(samples).bits < SILENCE {
        return Screening::Silent;
    }
    Screening::Speech
}

impl Screening {
    /// What is printed about a recording that goes no further.
    pub open spec fn text(self) -> Option<Seq<char>> {
        match self {
            Screening::TooShort => Some("too short, ignored"@),
            Screening::Silent => Some("silence, ignored"@),
            Screening::Speech => None,
        }
    }

    /// What is printed about a recording that goes no further.
    pub fn message(&self) -> (r: Option<String>)
        ensures
            self.text() == (match r {
                Some(m) => Some(m@),
                None => None,
            }),
    {
        match self {
            Screening::TooShort => Some("too short, ignored".to_string()),
            Screening::Silent => Some("silence, ignored".to_string()),
            Screening::Speech => None,
        }
    }
}

/// What is printed when the model heard nothing.
pub const NOTHING_RECOGNISED: &'static str = "nothing recognised";

/// The text to deliver: the transcript without the blanks around it, if anything is left.
pub fn recognised(transcript: &str) -> (r: Option<String>)
    ensures
        match r {
            Some(text) => text@ == trimmed(transcript@) && text@.len() > 0,
            None => trimmed(transcript@).len() == 0,
        },
{
    let text = trim(transcript);
    if text.is_empty() {
        None
    } else {
        Some(text.to_string())
    }
}

/// What became of the text.
#[derive(Debug)]
pub enum Delivery {
    /// It was typed or pasted.
    Delivered,
    /// It was left on the clipboard, for this reason.
    ClipboardOnly { reason: String },
}

/// What is printed about a delivery.
pub open spec fn delivery_text(elapsed_ms: nat, delivery: Delivery, text: Seq<char>) -> Seq<char> {
    "["@ + decimal(elapsed_ms) + (match delivery {
        Delivery::Delivered => " ms] "@ + text,
        Delivery::ClipboardOnly { reason } => " ms] on clipboard only ("@ + reason@
            + "), press Ctrl+V"@,
    })
}

/// What is printed about a delivery.
pub fn delivery_line(elapsed_ms: u128, delivery: &Delivery, text: &str) -> (r: String)
    ensures
        r@ == delivery_text(elapsed_ms as nat, *delivery, text@),
{
    let mut out = "[".to_string();
    out.append(decimal_text(elapsed_ms).as_str());
    let ghost head = out@;
    match delivery {
        Delivery::Delivered => {
            out.append(" ms] ");
            out.append(text);
            assert(out@ =~= head + (" ms] "@ + text@));
        },
        Delivery::ClipboardOnly { reason } => {
            out.append(" ms] on clipboard only (");
            out.append(reason.as_str());
            out.append("), press Ctrl+V");
            assert(out@ =~= head + (" ms] on clipboard only ("@ + reason@ + "), press Ctrl+V"@));
        },
    }
    out
}

/// A recording is too short if and only if it lasts less than the minimum, whatever that is; of any
/// other, silence is one without a number from 0.005 up, and speech is one with such a number.
pub proof fn law_screening_goes_by_length_and_level(samples: Seq<Sample>, min_recording_ms: u64)
    ensures
        screened(samples, min_recording_ms) == Screening::TooShort <==> samples.len() * 1000
            < min_recording_ms * 16_000,
        screened(samples, min_recording_ms) == Screening::Speech <==> {
            &&& samples.len() * 1000 >= min_recording_ms * 16_000
            &&& exists|i: int|
                0 <= i < samples.len() && 0x3ba3_d70a <= (#[trigger] samples[i]).bits % 0x8000_0000
                    <= 0x7f80_0000
        },
{
    if !is_silent(samples) {
        let i = choose|i: int|
            0 <= i < samples.len() && (#[trigger] samples[i]).loudness() >= SILENCE;
        assert(0x3ba3_d70a <= samples[i].bits % 0x8000_0000 <= 0x7f80_0000);
    }
    if exists|i: int|
        0 <= i < samples.len() && 0x3ba3_d70a <= (#[trigger] samples[i]).bits % 0x8000_0000
            <= 0x7f80_0000 {
        let i = choose|i: int|
            0 <= i < samples.len() && 0x3ba3_d70a <= (#[trigger] samples[i]).bits % 0x8000_0000
                <= 0x7f80_0000;
        assert(samples[i].loudness() >= SILENCE);
    }
}

/// A recording that is worth transcribing still is with more behind it.
pub proof fn law_more_speech_is_speech(
    samples: Seq<Sample>,
    more: Seq<Sample>,
    min_recording_ms: u64,
)
    ensures
        screened(samples, min_recording_ms) == Screening::Speech ==> screened(
            samples + more,
            min_recording_ms,
        ) == Screening::Speech,
{
    if screened(samples, min_recording_ms) == Screening::Speech {
        let i = choose|i: int|
            0 <= i < samples.len() && (#[trigger] samples[i]).loudness() >= SILENCE;
        assert((samples + more)[i] == samples[i]);
    }
}

/// When each action is taken: the microphone is opened at a press that finds nothing going on, the
/// recording is finished at a release that finds one, and the bubble is told what came of it.
pub proof fn law_when_each_action_is_taken(phase: Phase, event: Event)
    ensures
        transition(phase, event).1 == Action::StartRecording <==> phase == Phase::Idle && event
            == Event::Hotkey(HotkeyState::Pressed),
        transition(phase, event).1 == Action::FinishRecording <==> phase == Phase::Recording
            && event == Event::Hotkey(HotkeyState::Released),
        transition(phase, event).1 == Action::Show(BubbleState::Recording) <==> phase
            == Phase::Starting && event == Event::Started,
        transition(phase, event).1 == Action::Show(BubbleState::Hidden) <==> (phase
            == Phase::Starting && event == Event::StartFailed) || (phase == Phase::Transcribing
            && event == Event::Finished),
        transition(phase, event).1 != Action::Show(BubbleState::Transcribing),
        transition(phase, event).1 == Action::Ignore <==> transition(phase, event).0 == phase,
        transition(phase, event).1 == Action::StartRecording ==> transition(phase, event).0
            == Phase::Starting,
        transition(phase, event).1 == Action::FinishRecording ==> transition(phase, event).0
            == Phase::Transcribing,
        transition(phase, event).1 == Action::Show(BubbleState::Recording) ==> transition(
            phase,
            event,
        ).0 == Phase::Recording,
        transition(phase, event).1 == Action::Show(BubbleState::Hidden) ==> transition(
            phase,
            event,
        ).0 == Phase::Idle,
{
}

/// The bubble is told what an action says, and that a recording is transcribed once it is finished;
/// no other action tells it anything.
pub proof fn law_what_the_bubble_is_told(action: Action)
    ensures
        action matches Action::Show(state) ==> told(action) == Some(state),
        action == Action::FinishRecording ==> told(action) == Some(BubbleState::Transcribing),
        action == Action::StartRecording || action == Action::Ignore ==> told(action) is None,
{
}

/// A delivery is reported with its time, and with the whole text or the whole reason.
pub proof fn law_deliveries_are_reported_in_full(elapsed_ms: nat, reason: String, text: Seq<char>)
    ensures
        delivery_text(elapsed_ms, Delivery::Delivered, text) == "["@ + decimal(elapsed_ms)
            + " ms] "@ + text,
        delivery_text(elapsed_ms, Delivery::ClipboardOnly { reason }, text) == "["@ + decimal(
            elapsed_ms,
        ) + " ms] on clipboard only ("@ + reason@ + "), press Ctrl+V"@,
{
    assert("["@ + decimal(elapsed_ms) + (" ms] "@ + text) =~= "["@ + decimal(elapsed_ms) + " ms] "@
        + text);
    assert("["@ + decimal(elapsed_ms) + (" ms] on clipboard only ("@ + reason@
        + "), press Ctrl+V"@) =~= "["@ + decimal(elapsed_ms) + " ms] on clipboard only ("@ + reason@
        + "), press Ctrl+V"@);
}

} // verus!
