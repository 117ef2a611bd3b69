use dictate::audio::Sample;
use dictate::model::{Engine, ModelUse};
use dictate::session::{
    banner, delivery_line, ready_line, recognised, screen, shown_by, Action, Delivery, Dictation,
    Event, HotkeyState, Phase, Screening, NOTHING_RECOGNISED, SILENCE,
};
use dictate::ui::BubbleState;

const PRESS: Event = Event::Hotkey(HotkeyState::Pressed);
const RELEASE: Event = Event::Hotkey(HotkeyState::Released);

#[test]
fn a_dictation_runs_through_its_phases() {
    let mut d = Dictation::new();
    assert_eq!(d.step(PRESS), Action::StartRecording);
    assert_eq!(d.step(Event::Started), Action::Show(BubbleState::Recording));
    assert_eq!(d.phase, Phase::Recording);
    assert_eq!(d.step(RELEASE), Action::FinishRecording);
    assert_eq!(d.phase, Phase::Transcribing);
    assert_eq!(d.step(Event::Finished), Action::Show(BubbleState::Hidden));
    assert_eq!(d.phase, Phase::Idle);
    assert_eq!(d.step(PRESS), Action::StartRecording);
}

#[test]
fn a_broken_microphone_hides_the_bubble() {
    let mut d = Dictation::new();
    assert_eq!(d.step(PRESS), Action::StartRecording);
    assert_eq!(d.step(Event::StartFailed), Action::Show(BubbleState::Hidden));
    assert_eq!(d.phase, Phase::Idle);
    assert_eq!(d.step(RELEASE), Action::Ignore);
}

#[test]
fn repeated_keys_are_ignored() {
    let mut d = Dictation::new();
    assert_eq!(d.step(RELEASE), Action::Ignore);
    d.step(PRESS);
    d.step(Event::Started);
    assert_eq!(d.step(PRESS), Action::Ignore);
    assert_eq!(d.phase, Phase::Recording);
    assert_eq!(d.step(Event::Finished), Action::Ignore);
    assert_eq!(d.step(Event::Started), Action::Ignore);
    assert_eq!(d.phase, Phase::Recording);
}

#[test]
fn every_trace_shows_its_phase_and_finishes_what_it_starts() {
    let events = [PRESS, RELEASE, Event::Started, Event::StartFailed, Event::Finished];
    // All traces of up to six events.
    for n in 0..=6u32 {
        for code in 0..5usize.pow(n) {
            let mut d = Dictation::new();
            let mut shown = BubbleState::Hidden;
            let (mut begun, mut finished) = (0, 0);
            let mut rest = code;
            for _ in 0..n {
                let action = d.step(events[rest % 5]);
                if let Some(state) = shown_by(action) {
                    shown = state;
                }
                match action {
                    Action::Show(BubbleState::Recording) => begun += 1,
                    Action::FinishRecording => finished += 1,
                    _ => {}
                }
                rest /= 5;
            }
            let expected = match d.phase {
                Phase::Idle | Phase::Starting => BubbleState::Hidden,
                Phase::Recording => BubbleState::Recording,
                Phase::Transcribing => BubbleState::Transcribing,
            };
            assert_eq!(shown, expected);
            assert_eq!(begun, finished + if d.phase == Phase::Recording { 1 } else { 0 });
        }
    }
}

#[test]
fn actions_tell_the_bubble_what_to_show() {
    for state in [BubbleState::Hidden, BubbleState::Recording, BubbleState::Transcribing] {
        assert_eq!(shown_by(Action::Show(state)), Some(state));
    }
    assert_eq!(shown_by(Action::FinishRecording), Some(BubbleState::Transcribing));
    assert_eq!(shown_by(Action::StartRecording), None);
    assert_eq!(shown_by(Action::Ignore), None);
}

fn tone(len: usize, level: f32) -> Vec<Sample> {
    vec![Sample { bits: level.to_bits() }; len]
}

#[test]
fn short_recordings_are_ignored() {
    assert_eq!(screen(&tone(6399, 0.5), 400), Screening::TooShort);
    assert_eq!(screen(&tone(6400, 0.5), 400), Screening::Speech);
    assert_eq!(screen(&tone(0, 0.5), 1), Screening::TooShort);
    assert_eq!(screen(&tone(1, 0.5), 0), Screening::Speech);
    assert_eq!(screen(&tone(1, 0.5), u64::MAX), Screening::TooShort);
    // A quarter of a second and a bit, to the sample.
    assert_eq!(screen(&tone(4016, 0.5), 251), Screening::Speech);
    assert_eq!(screen(&tone(4015, 0.5), 251), Screening::TooShort);
}

#[test]
fn near_silence_is_ignored() {
    assert_eq!(SILENCE, 0.005f32.to_bits());
    assert_eq!(screen(&tone(16_000, 0.0), 400), Screening::Silent);
    assert_eq!(screen(&tone(16_000, 0.0049), 400), Screening::Silent);
    assert_eq!(screen(&tone(16_000, 0.005), 400), Screening::Speech);
    assert_eq!(screen(&tone(16_000, -0.005), 400), Screening::Speech);
    assert_eq!(screen(&tone(16_000, f32::NAN), 400), Screening::Silent);
    // Length is looked at first.
    assert_eq!(screen(&tone(10, 0.0), 400), Screening::TooShort);
    assert_eq!(screen(&[], 0), Screening::Silent);
}

#[test]
fn ignored_recordings_are_mentioned() {
    assert_eq!(Screening::TooShort.message(), Some("too short, ignored".to_string()));
    assert_eq!(Screening::Silent.message(), Some("silence, ignored".to_string()));
    assert_eq!(Screening::Speech.message(), None);
    assert_eq!(NOTHING_RECOGNISED, "nothing recognised");
}

#[test]
fn transcripts_are_trimmed_and_blank_ones_dropped() {
    assert_eq!(recognised("  hello world \n"), Some("hello world".to_string()));
    assert_eq!(recognised("\u{3000}a b\u{a0}"), Some("a b".to_string()));
    assert_eq!(recognised(" \t\r\n"), None);
    assert_eq!(recognised(""), None);
}

#[test]
fn deliveries_are_reported() {
    assert_eq!(delivery_line(1234, &Delivery::Delivered, "hi"), "[1234 ms] hi");
    let stuck = Delivery::ClipboardOnly { reason: "ElevatedTarget".to_string() };
    assert_eq!(
        delivery_line(0, &stuck, "hi"),
        "[0 ms] on clipboard only (ElevatedTarget), press Ctrl+V"
    );
}

#[test]
fn startup_is_announced() {
    assert_eq!(
        banner("C:/d/dictate.toml", "C:/m.gguf", "F13"),
        "dictate\n  config : C:/d/dictate.toml\n  model  : C:/m.gguf\n  hotkey : F13 (hold)"
    );
    assert_eq!(ready_line("F13"), "\nready. hold F13 and speak.\n");
}

#[test]
fn a_kept_model_is_loaded_once() {
    let mut e = Engine::new(true);
    assert!(e.loads_at_start());
    assert_eq!(e.transcribe(), ModelUse::LoadAndKeep);
    // A load that failed is tried again.
    assert_eq!(e.transcribe(), ModelUse::LoadAndKeep);
    e.loaded();
    for _ in 0..3 {
        assert_eq!(e.transcribe(), ModelUse::Resident);
    }
}

#[test]
fn a_model_that_is_not_kept_is_loaded_each_time() {
    let mut e = Engine::new(false);
    assert!(!e.loads_at_start());
    for _ in 0..3 {
        assert_eq!(e.transcribe(), ModelUse::LoadOnce);
        e.loaded();
        assert!(!e.resident);
    }
}
