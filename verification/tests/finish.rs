use dictate::audio::Sample;
use dictate::finish::{Finishing, Outcome, Task};
use dictate::session::Delivery;

fn recording(len: usize, level: f32) -> Outcome {
    Outcome::Recorded {
        samples: vec![Sample { bits: level.to_bits() }; len],
    }
}

fn line(task: Task) -> String {
    match task {
        Task::Print { line } => line,
        other => panic!("expected a line, got {other:?}"),
    }
}

#[test]
fn speech_is_transcribed_and_typed() {
    let state = Finishing::new(400);
    let (state, task) = state.step(recording(6400, 0.3));
    assert!(matches!(task, Task::FindTarget));
    let (state, task) = state.step(Outcome::TargetFound);
    match task {
        Task::Transcribe { samples } => {
            assert_eq!(samples.len(), 6400);
            assert!(samples.iter().all(|s| s.bits == 0.3f32.to_bits()));
        }
        other => panic!("expected a transcription, got {other:?}"),
    }
    let (state, task) = state.step(Outcome::Transcribed {
        transcript: " hello there\n".to_string(),
    });
    match task {
        Task::Deliver { text } => assert_eq!(text, "hello there"),
        other => panic!("expected a delivery, got {other:?}"),
    }
    let (state, task) = state.step(Outcome::Delivered {
        elapsed_ms: 120,
        delivery: Delivery::Delivered,
    });
    assert_eq!(line(task), "[120 ms] hello there");
    assert!(matches!(state, Finishing::Over));
}

#[test]
fn text_that_stays_on_the_clipboard_is_reported() {
    let (state, _) = Finishing::new(0).step(recording(1, 1.0));
    let (state, _) = state.step(Outcome::TargetFound);
    let (state, _) = state.step(Outcome::Transcribed {
        transcript: "hi".to_string(),
    });
    let (_, task) = state.step(Outcome::Delivered {
        elapsed_ms: 7,
        delivery: Delivery::ClipboardOnly {
            reason: "Elevated".to_string(),
        },
    });
    assert_eq!(line(task), "[7 ms] on clipboard only (Elevated), press Ctrl+V");
}

#[test]
fn a_tap_is_not_transcribed() {
    let (state, task) = Finishing::new(400).step(recording(6399, 0.3));
    assert_eq!(line(task), "too short, ignored");
    let (state, task) = state.step(Outcome::TargetFound);
    assert!(matches!(task, Task::Nothing));
    assert!(matches!(state, Finishing::Over));
}

#[test]
fn silence_is_not_transcribed() {
    let (state, task) = Finishing::new(400).step(recording(6400, 0.0049));
    assert_eq!(line(task), "silence, ignored");
    assert!(matches!(state, Finishing::Over));
}

#[test]
fn a_blank_transcript_is_not_typed() {
    let (state, _) = Finishing::new(400).step(recording(6400, 0.005));
    let (state, _) = state.step(Outcome::TargetFound);
    let (state, task) = state.step(Outcome::Transcribed {
        transcript: " \n\u{3000}".to_string(),
    });
    assert_eq!(line(task), "nothing recognised");
    let (state, task) = state.step(Outcome::Delivered {
        elapsed_ms: 1,
        delivery: Delivery::Delivered,
    });
    assert!(matches!(task, Task::Nothing));
    assert!(matches!(state, Finishing::Over));
}

#[test]
fn an_outcome_that_nobody_asked_for_ends_it() {
    let (state, task) = Finishing::new(0).step(Outcome::TargetFound);
    assert!(matches!(task, Task::Nothing));
    assert!(matches!(state, Finishing::Over));
}
